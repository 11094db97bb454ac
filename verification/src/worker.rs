//! What a worker reports when its task ends: the notification texts and the
//! exit code.
use vstd::prelude::*;
use crate::text::{owned, push_str, truncate, shortened};
use crate::progress::Event;

verus! {

/// The most characters of a summary or error that a notification shows.
pub const NOTIFY_BODY_MAX: usize = 200;

/// How a worker ended.
#[derive(Clone, Copy, Debug, PartialEq, Eq, Structural)]
pub enum Outcome {
    /// The task completed and the user was notified.
    Completed,
    /// The agent failed, or the chat client could not be set up.
    Failed,
    /// The task completed but the notification could not be shown.
    NotifyFailed,
}

/// The exit code of a worker: 0 when the task completed, 1 when it failed, 2
/// when the notification failed.
pub fn exit_code(o: Outcome) -> (r: i32)
    ensures
        r == match o {
            Outcome::Completed => 0i32,
            Outcome::Failed => 1i32,
            Outcome::NotifyFailed => 2i32,
        },
{
    match o {
        Outcome::Completed => 0,
        Outcome::Failed => 1,
        Outcome::NotifyFailed => 2,
    }
}

/// How the task's log is named in notifications: its path, or `<unknown>`
/// when it could not be found.
pub fn log_display(log_path: Option<&str>) -> (r: String)
    ensures
        r@ == match log_path {
            Some(p) => p@,
            None => "<unknown>"@,
        },
{
    match log_path {
        Some(p) => owned(p),
        None => owned("<unknown>"),
    }
}

/// The body of the notification of a completed task.
pub fn success_body(summary: &str, log: &str) -> (r: String)
    ensures
        r@ == shortened(summary@, NOTIFY_BODY_MAX as nat) + " (log: "@ + log@ + ")"@,
{
    let mut s = truncate(summary, NOTIFY_BODY_MAX);
    push_str(&mut s, " (log: ");
    push_str(&mut s, log);
    push_str(&mut s, ")");
    s
}

/// The body of the notification of a failed task.
pub fn failure_body(message: &str, log: &str) -> (r: String)
    ensures
        r@ == shortened(message@, NOTIFY_BODY_MAX as nat) + "\nlog: "@ + log@,
{
    let mut s = truncate(message, NOTIFY_BODY_MAX);
    push_str(&mut s, "\nlog: ");
    push_str(&mut s, log);
    s
}

/// How a task ended: completed with the model's summary, or failed with an
/// error message.
pub enum TaskEnd {
    Completed { summary: String },
    Failed { error: String },
}

/// What a worker does when its task ends: records `event`, then shows the
/// success notification (`success`) or the failure notification, with `body`.
pub struct Report {
    pub event: Event,
    pub success: bool,
    pub body: String,
}

/// The report of a task that ended as `end`, whose log is named `log`: a
/// completed task records `Completed` and notifies success with
/// `success_body`; a failed one records `Failed` and notifies failure with
/// `failure_body`.
pub fn report(end: TaskEnd, log: &str) -> (r: Report)
    ensures
        match end {
            TaskEnd::Completed { summary } => {
                &&& r.event matches Event::Completed { summary: s } && s@ == summary@
                &&& r.success
                &&& r.body@ == shortened(summary@, NOTIFY_BODY_MAX as nat) + " (log: "@ + log@
                    + ")"@
            },
            TaskEnd::Failed { error } => {
                &&& r.event matches Event::Failed { error: e } && e@ == error@
                &&& !r.success
                &&& r.body@ == shortened(error@, NOTIFY_BODY_MAX as nat) + "\nlog: "@ + log@
            },
        },
{
    match end {
        TaskEnd::Completed { summary } => {
            let body = success_body(summary.as_str(), log);
            Report { event: Event::Completed { summary }, success: true, body }
        },
        TaskEnd::Failed { error } => {
            let body = failure_body(error.as_str(), log);
            Report { event: Event::Failed { error }, success: false, body }
        },
    }
}

/// How a worker ended, from whether its task completed and, for a completed
/// task, whether the success notification was shown (a failed task's
/// notification does not change the outcome).
pub fn outcome(completed: bool, notified: bool) -> (r: Outcome)
    ensures
        r == if !completed {
            Outcome::Failed
        } else if notified {
            Outcome::Completed
        } else {
            Outcome::NotifyFailed
        },
{
    if !completed {
        Outcome::Failed
    } else if notified {
        Outcome::Completed
    } else {
        Outcome::NotifyFailed
    }
}

/// The error of a worker whose chat client could not be set up.
pub fn client_init_error(reason: &str) -> (r: String)
    ensures
        r@ == "client init failed: "@ + reason@,
{
    let mut s = owned("client init failed: ");
    push_str(&mut s, reason);
    s
}

} // verus!
