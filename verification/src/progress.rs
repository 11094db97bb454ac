//! The progress of tasks: the events a worker records, what a task's event
//! file says about it (its snapshot), the listing of known tasks, and the
//! summary that status bars show.
use vstd::prelude::*;
use crate::text::{owned, take_chars, prefix, trim, trimmed, chars_of, string_of_range, lex_le, str_le, lemma_lex_total, lemma_lex_transitive};

verus! {

/// Nanoseconds in a second.
pub const NANOS_PER_SEC: u32 = 1_000_000_000;

/// The largest number of seconds, either side of the epoch, that a timestamp
/// holds (beyond the range of calendar dates the clock library supports).
pub const SECS_LIMIT: i64 = 10_000_000_000_000;

/// A point in time: whole seconds since the Unix epoch (UTC) and the
/// nanoseconds past them.
#[derive(Clone, Copy, Debug)]
pub struct Timestamp {
    secs: i64,
    nanos: u32,
}

impl Timestamp {
    #[verifier::type_invariant]
    spec fn in_range(self) -> bool {
        &&& -SECS_LIMIT <= self.secs <= SECS_LIMIT
        &&& self.nanos < NANOS_PER_SEC
    }

    /// The seconds since the epoch.
    pub closed spec fn spec_secs(self) -> int {
        self.secs as int
    }

    /// The nanoseconds past `spec_secs`.
    pub closed spec fn spec_nanos(self) -> int {
        self.nanos as int
    }

    /// The nanoseconds since the epoch.
    pub open spec fn total_nanos(self) -> int {
        self.spec_secs() * NANOS_PER_SEC + self.spec_nanos()
    }

    /// Whether `(secs, nanos)` can be a timestamp.
    pub open spec fn valid_parts(secs: i64, nanos: u32) -> bool {
        -SECS_LIMIT <= secs <= SECS_LIMIT && nanos < NANOS_PER_SEC
    }

    /// The timestamp `secs` seconds and `nanos` nanoseconds after the epoch;
    /// `None` when `nanos` is a second or more, or `secs` is out of range.
    pub fn new(secs: i64, nanos: u32) -> (r: Option<Timestamp>)
        ensures
            r is Some <==> Self::valid_parts(secs, nanos),
            r matches Some(t) ==> t.spec_secs() == secs && t.spec_nanos() == nanos,
    {
        if -SECS_LIMIT <= secs && secs <= SECS_LIMIT && nanos < NANOS_PER_SEC {
            Some(Timestamp { secs, nanos })
        } else {
            None
        }
    }

    /// The seconds since the epoch.
    pub fn secs(&self) -> (r: i64)
        ensures
            r == self.spec_secs(),
            -SECS_LIMIT <= r <= SECS_LIMIT,
    {
        proof {
            use_type_invariant(self);
        }
        self.secs
    }

    /// The nanoseconds past `secs`.
    pub fn nanos(&self) -> (r: u32)
        ensures
            r == self.spec_nanos(),
            r < NANOS_PER_SEC,
    {
        proof {
            use_type_invariant(self);
        }
        self.nanos
    }

    /// The whole seconds from `earlier` to `self`, rounded toward zero
    /// (negative when `earlier` is later), as `(self - earlier).num_seconds()`.
    pub fn seconds_since(&self, earlier: &Timestamp) -> (r: i64)
        ensures
            r == whole_seconds(self.total_nanos() - earlier.total_nanos()),
            -2 * SECS_LIMIT - 1 <= r <= 2 * SECS_LIMIT + 1,
    {
        proof {
            use_type_invariant(self);
            use_type_invariant(earlier);
        }
        let d: i128 = (self.secs as i128 - earlier.secs as i128) * 1_000_000_000
            + (self.nanos as i128 - earlier.nanos as i128);
        if d >= 0 {
            (d / 1_000_000_000) as i64
        } else {
            -(((-d) / 1_000_000_000) as i64)
        }
    }

    /// The current time, from the system clock; `None` when the clock reads
    /// before the Unix epoch or beyond `SECS_LIMIT` seconds after it.
    pub fn now() -> (r: Option<Timestamp>)
        ensures
            r matches Some(t) ==> t.spec_secs() >= 0 && t.total_nanos() >= 0,
    {
        let reading = system_now();
        match since_unix_epoch(&reading) {
            None => None,
            Some(d) => Self::after_epoch(duration_secs(&d), duration_subsec_nanos(&d)),
        }
    }

    /// The timestamp `secs` seconds and `nanos` nanoseconds after the epoch,
    /// from a clock reading; `None` when `secs` is beyond `SECS_LIMIT` or
    /// `nanos` is a second or more.
    pub fn after_epoch(secs: u64, nanos: u32) -> (r: Option<Timestamp>)
        ensures
            r is Some <==> secs <= SECS_LIMIT && nanos < NANOS_PER_SEC,
            r matches Some(t) ==> t.spec_secs() == secs && t.spec_nanos() == nanos
                && t.total_nanos() >= 0,
    {
        if secs <= SECS_LIMIT as u64 && nanos < NANOS_PER_SEC {
            Some(Timestamp { secs: secs as i64, nanos })
        } else {
            None
        }
    }

    /// Whether `self` is later than `now` minus `secs` seconds.
    pub fn is_after_seconds_before(&self, now: &Timestamp, secs: i64) -> (r: bool)
        requires
            -4 * SECS_LIMIT <= secs <= 4 * SECS_LIMIT,
        ensures
            r == (self.total_nanos() > now.total_nanos() - secs * NANOS_PER_SEC),
    {
        proof {
            use_type_invariant(self);
            use_type_invariant(now);
        }
        let mine: i128 = self.secs as i128 * 1_000_000_000 + self.nanos as i128;
        let theirs: i128 = (now.secs as i128 - secs as i128) * 1_000_000_000 + now.nanos as i128;
        mine > theirs
    }
}

#[verifier::external_type_specification]
#[verifier::external_body]
pub struct ExSystemTime(std::time::SystemTime);

/// `SystemTime::now`: a reading of the system clock. Nothing is claimed of
/// which time it reads.
#[verifier::external_body]
fn system_now() -> (r: std::time::SystemTime) {
    std::time::SystemTime::now()
}

/// `SystemTime::duration_since(UNIX_EPOCH)`: how long after the Unix epoch
/// `t` lies, `None` where the call fails because `t` lies before it. Nothing
/// is claimed of which duration comes back.
#[verifier::external_body]
fn since_unix_epoch(t: &std::time::SystemTime) -> (r: Option<core::time::Duration>) {
    match t.duration_since(std::time::UNIX_EPOCH) {
        Ok(d) => Some(d),
        Err(_) => None,
    }
}

/// `Duration::as_secs`: the whole seconds of `d`. Nothing is claimed of the
/// value, which the opaque `Duration` alone determines.
#[verifier::external_body]
fn duration_secs(d: &core::time::Duration) -> (r: u64) {
    d.as_secs()
}

/// `Duration::subsec_nanos`: the nanoseconds of `d` past its whole seconds,
/// which its documentation states is always less than a second.
#[verifier::external_body]
fn duration_subsec_nanos(d: &core::time::Duration) -> (r: u32)
    ensures
        r < NANOS_PER_SEC,
{
    d.subsec_nanos()
}

/// `d` nanoseconds in whole seconds, rounded toward zero.
pub open spec fn whole_seconds(d: int) -> int {
    if d >= 0 {
        d / NANOS_PER_SEC as int
    } else {
        -((-d) / NANOS_PER_SEC as int)
    }
}

/// Something that happened while a task ran.
pub enum Event {
    Started { task_id: String, model: String, prompt: String },
    IterationStarted { iter: usize },
    ModelRequestStarted { iter: usize },
    ModelResponseReceived { iter: usize },
    ToolStarted { iter: usize, command: String },
    ToolFinished {
        iter: usize,
        command: String,
        exit_code: i32,
        stdout_len: usize,
        stderr_len: usize,
    },
    Completed { summary: String },
    Failed { error: String },
}

/// An event with the time it was recorded.
pub struct TimedEvent {
    pub ts: Timestamp,
    pub event: Event,
}

/// Where a task stands.
#[derive(Clone, Copy, Debug, PartialEq, Eq, Structural)]
pub enum TaskState {
    Running,
    Completed,
    Failed,
}

/// What a task's events say about it.
pub struct TaskSnapshot {
    pub task_id: String,
    pub state: TaskState,
    pub model: String,
    pub prompt: String,
    pub iter: usize,
    pub current_command: Option<String>,
    pub summary: Option<String>,
    pub error: Option<String>,
    pub started_at: Timestamp,
    pub updated_at: Timestamp,
    pub completed_at: Option<Timestamp>,
}

/// A snapshot with its texts as character sequences.
pub struct SnapshotView {
    pub task_id: Seq<char>,
    pub state: TaskState,
    pub model: Seq<char>,
    pub prompt: Seq<char>,
    pub iter: usize,
    pub current_command: Option<Seq<char>>,
    pub summary: Option<Seq<char>>,
    pub error: Option<Seq<char>>,
    pub started_at: Timestamp,
    pub updated_at: Timestamp,
    pub completed_at: Option<Timestamp>,
}

/// The characters of an optional text.
pub open spec fn opt_view(o: Option<String>) -> Option<Seq<char>> {
    match o {
        Some(s) => Some(s@),
        None => None,
    }
}

impl View for TaskSnapshot {
    type V = SnapshotView;

    open spec fn view(&self) -> SnapshotView {
        SnapshotView {
            task_id: self.task_id@,
            state: self.state,
            model: self.model@,
            prompt: self.prompt@,
            iter: self.iter,
            current_command: opt_view(self.current_command),
            summary: opt_view(self.summary),
            error: opt_view(self.error),
            started_at: self.started_at,
            updated_at: self.updated_at,
            completed_at: self.completed_at,
        }
    }
}

/// The snapshot a replay starts from: the task running, nothing known yet,
/// both times set to the first event's.
pub open spec fn initial_snapshot(task_id: Seq<char>, first: Timestamp) -> SnapshotView {
    SnapshotView {
        task_id,
        state: TaskState::Running,
        model: Seq::empty(),
        prompt: Seq::empty(),
        iter: 0,
        current_command: None,
        summary: None,
        error: None,
        started_at: first,
        updated_at: first,
        completed_at: None,
    }
}

/// What one event changes in a snapshot.
pub open spec fn apply_event(s: SnapshotView, te: TimedEvent) -> SnapshotView {
    let s = SnapshotView { updated_at: te.ts, ..s };
    match te.event {
        Event::Started { task_id, model, prompt } => SnapshotView {
            task_id: task_id@,
            model: model@,
            prompt: prompt@,
            ..s
        },
        Event::IterationStarted { iter } => SnapshotView { iter, current_command: None, ..s },
        Event::ModelRequestStarted { .. } => s,
        Event::ModelResponseReceived { .. } => s,
        Event::ToolStarted { command, .. } => SnapshotView {
            current_command: Some(command@),
            ..s
        },
        Event::ToolFinished { .. } => SnapshotView { current_command: None, ..s },
        Event::Completed { summary } => SnapshotView {
            state: TaskState::Completed,
            summary: Some(summary@),
            completed_at: Some(te.ts),
            ..s
        },
        Event::Failed { error } => SnapshotView {
            state: TaskState::Failed,
            error: Some(error@),
            completed_at: Some(te.ts),
            ..s
        },
    }
}

/// `s` after the events `evs`, in order.
pub open spec fn apply_events(s: SnapshotView, evs: Seq<TimedEvent>) -> SnapshotView
    decreases evs.len(),
{
    if evs.len() == 0 {
        s
    } else {
        apply_event(apply_events(s, evs.drop_last()), evs.last())
    }
}

/// The snapshot of a task with a non-empty list of events.
pub open spec fn replay(task_id: Seq<char>, evs: Seq<TimedEvent>) -> SnapshotView {
    apply_events(initial_snapshot(task_id, evs[0].ts), evs)
}

/// Whether `evs[i]` is the last event of `evs` that `p` holds of.
pub open spec fn last_such(evs: Seq<TimedEvent>, i: int, p: spec_fn(Event) -> bool) -> bool {
    &&& 0 <= i < evs.len()
    &&& p(evs[i].event)
    &&& forall|j: int| #![trigger evs[j]] i < j < evs.len() ==> !p(evs[j].event)
}

/// Whether `p` holds of no event of `evs`.
pub open spec fn none_such(evs: Seq<TimedEvent>, p: spec_fn(Event) -> bool) -> bool {
    forall|j: int| #![trigger evs[j]] 0 <= j < evs.len() ==> !p(evs[j].event)
}

/// The events that set what a task is: its id, model and prompt.
pub open spec fn starts(e: Event) -> bool {
    e is Started
}

/// The events that set the round.
pub open spec fn starts_round(e: Event) -> bool {
    e is IterationStarted
}

/// The events that end a task.
pub open spec fn ends(e: Event) -> bool {
    e is Completed || e is Failed
}

/// The events that set or clear the running command.
pub open spec fn moves_command(e: Event) -> bool {
    e is IterationStarted || e is ToolStarted || e is ToolFinished
}

/// The snapshot after the events `evs` holds, of each of its fields, what the
/// last event that sets that field gave it, and keeps what `s` had where no
/// event sets it: id, model and prompt from the last `Started`; the round
/// from the last `IterationStarted`; the summary from the last `Completed`;
/// the error from the last `Failed`; state and end time from the last
/// `Completed` or `Failed`; the running command from the last
/// `ToolStarted`, unless an `IterationStarted` or `ToolFinished` came after
/// it; the time of the last update from the last event; the start time never
/// changes.
pub proof fn lemma_replay_fields(s: SnapshotView, evs: Seq<TimedEvent>)
    ensures
        apply_events(s, evs).started_at == s.started_at,
        evs.len() == 0 ==> apply_events(s, evs) == s,
        evs.len() > 0 ==> apply_events(s, evs).updated_at == evs.last().ts,
        none_such(evs, |e: Event| starts(e)) ==> ({
            let r = apply_events(s, evs);
            r.task_id == s.task_id && r.model == s.model && r.prompt == s.prompt
        }),
        forall|i: int| #![trigger evs[i]]
            last_such(evs, i, |e: Event| starts(e)) ==> ({
                let r = apply_events(s, evs);
                (evs[i].event matches Event::Started { task_id, model, prompt } && r.task_id == task_id@
                && r.model == model@ && r.prompt == prompt@)
            }),
        none_such(evs, |e: Event| starts_round(e)) ==> ({
            let r = apply_events(s, evs);
            r.iter == s.iter
        }),
        forall|i: int| #![trigger evs[i]]
            last_such(evs, i, |e: Event| starts_round(e)) ==> ({
                let r = apply_events(s, evs);
                (evs[i].event matches Event::IterationStarted { iter } && r.iter == iter)
            }),
        none_such(evs, |e: Event| e is Completed) ==> ({
            let r = apply_events(s, evs);
            r.summary == s.summary
        }),
        forall|i: int| #![trigger evs[i]]
            last_such(evs, i, |e: Event| e is Completed) ==> ({
                let r = apply_events(s, evs);
                (evs[i].event matches Event::Completed { summary } && r.summary == Some(summary@))
            }),
        none_such(evs, |e: Event| e is Failed) ==> ({
            let r = apply_events(s, evs);
            r.error == s.error
        }),
        forall|i: int| #![trigger evs[i]]
            last_such(evs, i, |e: Event| e is Failed) ==> ({
                let r = apply_events(s, evs);
                (evs[i].event matches Event::Failed { error } && r.error == Some(error@))
            }),
        none_such(evs, |e: Event| ends(e)) ==> ({
            let r = apply_events(s, evs);
            r.state == s.state && r.completed_at == s.completed_at
        }),
        forall|i: int| #![trigger evs[i]]
            last_such(evs, i, |e: Event| ends(e)) ==> ({
                let r = apply_events(s, evs);
                r.state == (if evs[i].event is Completed {
                TaskState::Completed
            } else {
                TaskState::Failed
            }) && r.completed_at == Some(evs[i].ts)
            }),
        none_such(evs, |e: Event| moves_command(e)) ==> ({
            let r = apply_events(s, evs);
            r.current_command == s.current_command
        }),
        forall|i: int| #![trigger evs[i]]
            last_such(evs, i, |e: Event| moves_command(e)) ==> ({
                let r = apply_events(s, evs);
                r.current_command == (match evs[i].event {
                Event::ToolStarted { command, .. } => Some(command@),
                _ => None,
            })
            }),
{
    lemma_replay_times(s, evs);
    lemma_replay_ids(s, evs);
    lemma_replay_round(s, evs);
    lemma_replay_summary(s, evs);
    lemma_replay_error(s, evs);
    lemma_replay_end(s, evs);
    lemma_replay_command(s, evs);
}

/// The start time never changes, and the time of the last update is that of
/// the last event.
proof fn lemma_replay_times(s: SnapshotView, evs: Seq<TimedEvent>)
    ensures
        apply_events(s, evs).started_at == s.started_at,
        evs.len() == 0 ==> apply_events(s, evs) == s,
        evs.len() > 0 ==> apply_events(s, evs).updated_at == evs.last().ts,
    decreases evs.len(),
{
    if evs.len() > 0 {
        lemma_replay_times(s, evs.drop_last());
    }
}

/// The task's id, model and prompt after `evs`: those of the last `Started`, else those of `s`.
proof fn lemma_replay_ids(s: SnapshotView, evs: Seq<TimedEvent>)
    ensures
        none_such(evs, |e: Event| starts(e)) ==> ({
            let r = apply_events(s, evs);
            r.task_id == s.task_id && r.model == s.model && r.prompt == s.prompt
        }),
        forall|i: int| #![trigger evs[i]]
            last_such(evs, i, |e: Event| starts(e)) ==> ({
                let r = apply_events(s, evs);
                (evs[i].event matches Event::Started { task_id, model, prompt } && r.task_id == task_id@
                && r.model == model@ && r.prompt == prompt@)
            }),
    decreases evs.len(),
{
    if evs.len() > 0 {
        let p = evs.drop_last();
        lemma_replay_ids(s, p);
        lemma_last_such_step(evs, |e: Event| starts(e));
        assert forall|j: int| 0 <= j < p.len() implies #[trigger] p[j] == evs[j] by {}
    }
}

/// The round after `evs`: that of the last `IterationStarted`, else that of `s`.
proof fn lemma_replay_round(s: SnapshotView, evs: Seq<TimedEvent>)
    ensures
        none_such(evs, |e: Event| starts_round(e)) ==> ({
            let r = apply_events(s, evs);
            r.iter == s.iter
        }),
        forall|i: int| #![trigger evs[i]]
            last_such(evs, i, |e: Event| starts_round(e)) ==> ({
                let r = apply_events(s, evs);
                (evs[i].event matches Event::IterationStarted { iter } && r.iter == iter)
            }),
    decreases evs.len(),
{
    if evs.len() > 0 {
        let p = evs.drop_last();
        lemma_replay_round(s, p);
        lemma_last_such_step(evs, |e: Event| starts_round(e));
        assert forall|j: int| 0 <= j < p.len() implies #[trigger] p[j] == evs[j] by {}
    }
}

/// The summary after `evs`: that of the last `Completed`, else that of `s`.
proof fn lemma_replay_summary(s: SnapshotView, evs: Seq<TimedEvent>)
    ensures
        none_such(evs, |e: Event| e is Completed) ==> ({
            let r = apply_events(s, evs);
            r.summary == s.summary
        }),
        forall|i: int| #![trigger evs[i]]
            last_such(evs, i, |e: Event| e is Completed) ==> ({
                let r = apply_events(s, evs);
                (evs[i].event matches Event::Completed { summary } && r.summary == Some(summary@))
            }),
    decreases evs.len(),
{
    if evs.len() > 0 {
        let p = evs.drop_last();
        lemma_replay_summary(s, p);
        lemma_last_such_step(evs, |e: Event| e is Completed);
        assert forall|j: int| 0 <= j < p.len() implies #[trigger] p[j] == evs[j] by {}
    }
}

/// The error after `evs`: that of the last `Failed`, else that of `s`.
proof fn lemma_replay_error(s: SnapshotView, evs: Seq<TimedEvent>)
    ensures
        none_such(evs, |e: Event| e is Failed) ==> ({
            let r = apply_events(s, evs);
            r.error == s.error
        }),
        forall|i: int| #![trigger evs[i]]
            last_such(evs, i, |e: Event| e is Failed) ==> ({
                let r = apply_events(s, evs);
                (evs[i].event matches Event::Failed { error } && r.error == Some(error@))
            }),
    decreases evs.len(),
{
    if evs.len() > 0 {
        let p = evs.drop_last();
        lemma_replay_error(s, p);
        lemma_last_such_step(evs, |e: Event| e is Failed);
        assert forall|j: int| 0 <= j < p.len() implies #[trigger] p[j] == evs[j] by {}
    }
}

/// The state and end time after `evs`: set by the last `Completed` or
/// `Failed`, else those of `s`.
proof fn lemma_replay_end(s: SnapshotView, evs: Seq<TimedEvent>)
    ensures
        none_such(evs, |e: Event| ends(e)) ==> ({
            let r = apply_events(s, evs);
            r.state == s.state && r.completed_at == s.completed_at
        }),
        forall|i: int| #![trigger evs[i]]
            last_such(evs, i, |e: Event| ends(e)) ==> ({
                let r = apply_events(s, evs);
                r.state == (if evs[i].event is Completed {
                TaskState::Completed
            } else {
                TaskState::Failed
            }) && r.completed_at == Some(evs[i].ts)
            }),
    decreases evs.len(),
{
    if evs.len() > 0 {
        let p = evs.drop_last();
        lemma_replay_end(s, p);
        lemma_last_such_step(evs, |e: Event| ends(e));
        assert forall|j: int| 0 <= j < p.len() implies #[trigger] p[j] == evs[j] by {}
    }
}

/// The running command after `evs`: decided by the last `IterationStarted`,
/// `ToolStarted` or `ToolFinished` (its command if it is a `ToolStarted`, none
/// otherwise), else that of `s`.
proof fn lemma_replay_command(s: SnapshotView, evs: Seq<TimedEvent>)
    ensures
        none_such(evs, |e: Event| moves_command(e)) ==> ({
            let r = apply_events(s, evs);
            r.current_command == s.current_command
        }),
        forall|i: int| #![trigger evs[i]]
            last_such(evs, i, |e: Event| moves_command(e)) ==> ({
                let r = apply_events(s, evs);
                r.current_command == (match evs[i].event {
                Event::ToolStarted { command, .. } => Some(command@),
                _ => None,
            })
            }),
    decreases evs.len(),
{
    if evs.len() > 0 {
        let p = evs.drop_last();
        lemma_replay_command(s, p);
        lemma_last_such_step(evs, |e: Event| moves_command(e));
        assert forall|j: int| 0 <= j < p.len() implies #[trigger] p[j] == evs[j] by {}
    }
}

/// What a task's snapshot holds of what no event set: its id is the given
/// one and its model and prompt are empty without a `Started` event; its
/// round is 0 without an `IterationStarted`; it has no summary without a
/// `Completed`, no error without a `Failed`, no running command without a
/// `ToolStarted`; it is running, with no completion time, while no
/// `Completed` or `Failed` came; and it started at its first event.
pub proof fn lemma_replay_defaults(task_id: Seq<char>, evs: Seq<TimedEvent>)
    requires
        evs.len() > 0,
    ensures
        replay(task_id, evs).started_at == evs[0].ts,
        none_such(evs, |e: Event| starts(e)) ==> replay(task_id, evs).task_id == task_id
            && replay(task_id, evs).model == Seq::<char>::empty() && replay(task_id, evs).prompt
            == Seq::<char>::empty(),
        none_such(evs, |e: Event| starts_round(e)) ==> replay(task_id, evs).iter == 0,
        none_such(evs, |e: Event| e is Completed) ==> replay(task_id, evs).summary is None,
        none_such(evs, |e: Event| e is Failed) ==> replay(task_id, evs).error is None,
        none_such(evs, |e: Event| e is ToolStarted) ==> replay(task_id, evs).current_command is None,
        none_such(evs, |e: Event| ends(e)) ==> replay(task_id, evs).state == TaskState::Running
            && replay(task_id, evs).completed_at is None,
{
    let s = initial_snapshot(task_id, evs[0].ts);
    lemma_replay_fields(s, evs);
    lemma_no_command_started(s, evs);
}

/// Without a `ToolStarted`, a snapshot with no running command keeps none.
proof fn lemma_no_command_started(s: SnapshotView, evs: Seq<TimedEvent>)
    requires
        s.current_command is None,
    ensures
        none_such(evs, |e: Event| e is ToolStarted) ==> apply_events(s, evs).current_command is None,
    decreases evs.len(),
{
    if evs.len() > 0 {
        let p = evs.drop_last();
        lemma_no_command_started(s, p);
        if none_such(evs, |e: Event| e is ToolStarted) {
            assert(!(evs[evs.len() - 1].event is ToolStarted));
            lemma_last_such_step(evs, |e: Event| e is ToolStarted);
        }
    }
}

/// How the last event that `p` holds of in a non-empty list relates to the
/// one in the list without its last event.
proof fn lemma_last_such_step(evs: Seq<TimedEvent>, p: spec_fn(Event) -> bool)
    requires
        evs.len() > 0,
    ensures
        p(evs.last().event) ==> last_such(evs, evs.len() - 1, p),
        !p(evs.last().event) ==> (none_such(evs, p) <==> none_such(evs.drop_last(), p)),
        !p(evs.last().event) ==> forall|i: int| #![trigger evs[i]]
            last_such(evs, i, p) ==> last_such(evs.drop_last(), i, p),
{
    let q = evs.drop_last();
    assert forall|j: int| 0 <= j < q.len() implies #[trigger] q[j] == evs[j] by {}
    if !p(evs.last().event) {
        assert forall|i: int| #![trigger evs[i]] last_such(evs, i, p) implies last_such(q, i, p) by {
            assert(i < q.len());
            assert forall|j: int| i < j < q.len() implies !p(#[trigger] q[j].event) by {
                assert(q[j] == evs[j]);
            }
        }
        if none_such(q, p) {
            assert forall|j: int| 0 <= j < evs.len() implies !p(#[trigger] evs[j].event) by {
                if j < q.len() {
                    assert(q[j] == evs[j]);
                }
            }
        }
        if none_such(evs, p) {
            assert forall|j: int| 0 <= j < q.len() implies !p(#[trigger] q[j].event) by {
                assert(q[j] == evs[j]);
            }
        }
    }
}

/// The snapshot of task `task_id` from its events: `None` when there are
/// none, else the events replayed in order on the initial snapshot.
pub fn snapshot(task_id: &str, events: &Vec<TimedEvent>) -> (r: Option<TaskSnapshot>)
    ensures
        r is Some <==> events.len() > 0,
        r matches Some(s) ==> s@ == replay(task_id@, events@),
{
    if events.len() == 0 {
        return None;
    }
    let first = events[0].ts;
    let mut snap = TaskSnapshot {
        task_id: owned(task_id),
        state: TaskState::Running,
        model: String::new(),
        prompt: String::new(),
        iter: 0,
        current_command: None,
        summary: None,
        error: None,
        started_at: first,
        updated_at: first,
        completed_at: None,
    };
    assert(snap@ == initial_snapshot(task_id@, events@[0].ts));
    let mut i: usize = 0;
    while i < events.len()
        invariant
            i <= events.len(),
            snap@ == apply_events(initial_snapshot(task_id@, events@[0].ts), events@.take(i as int)),
        decreases events.len() - i,
    {
        let te = &events[i];
        assert(events@.take(i + 1).drop_last() == events@.take(i as int));
        snap.updated_at = te.ts;
        match &te.event {
            Event::Started { task_id, model, prompt } => {
                snap.model = model.clone();
                snap.prompt = prompt.clone();
                snap.task_id = task_id.clone();
            },
            Event::IterationStarted { iter } => {
                snap.iter = *iter;
                snap.current_command = None;
            },
            Event::ModelRequestStarted { .. } => {},
            Event::ModelResponseReceived { .. } => {},
            Event::ToolStarted { command, .. } => {
                snap.current_command = Some(command.clone());
            },
            Event::ToolFinished { .. } => {
                snap.current_command = None;
            },
            Event::Completed { summary } => {
                snap.state = TaskState::Completed;
                snap.summary = Some(summary.clone());
                snap.completed_at = Some(te.ts);
            },
            Event::Failed { error } => {
                snap.state = TaskState::Failed;
                snap.error = Some(error.clone());
                snap.completed_at = Some(te.ts);
            },
        }
        i = i + 1;
    }
    assert(events@.take(events.len() as int) == events@);
    Some(snap)
}

/// Tasks updated at most this many seconds ago count as recent.
pub const VISIBILITY_SECS: i64 = 900;

/// The characters of the prompt shown when a task has nothing else to show.
pub const PROMPT_PREVIEW_CHARS: usize = 60;

/// The most recently updated task, as a status bar shows it.
pub struct LatestTask {
    pub task_id: String,
    pub state: String,
    pub summary: String,
    pub updated_secs_ago: i64,
}

/// What status bars show of all tasks.
pub struct EwwStatus {
    pub running_count: usize,
    pub recent_count: usize,
    pub has_visible: bool,
    pub worst_state: String,
    pub latest: Option<LatestTask>,
}

pub struct LatestView {
    pub task_id: Seq<char>,
    pub state: Seq<char>,
    pub summary: Seq<char>,
    pub updated_secs_ago: int,
}

pub struct EwwView {
    pub running_count: nat,
    pub recent_count: nat,
    pub has_visible: bool,
    pub worst_state: Seq<char>,
    pub latest: Option<LatestView>,
}

impl View for LatestTask {
    type V = LatestView;

    open spec fn view(&self) -> LatestView {
        LatestView {
            task_id: self.task_id@,
            state: self.state@,
            summary: self.summary@,
            updated_secs_ago: self.updated_secs_ago as int,
        }
    }
}

pub open spec fn opt_latest_view(l: Option<LatestTask>) -> Option<LatestView> {
    match l {
        Some(t) => Some(t@),
        None => None,
    }
}

impl View for EwwStatus {
    type V = EwwView;

    open spec fn view(&self) -> EwwView {
        EwwView {
            running_count: self.running_count as nat,
            recent_count: self.recent_count as nat,
            has_visible: self.has_visible,
            worst_state: self.worst_state@,
            latest: opt_latest_view(self.latest),
        }
    }
}

/// How bad the recent tasks look, from nothing to see up to something running.
#[derive(Clone, Copy, Debug, PartialEq, Eq, Structural)]
pub enum Severity {
    Unset,
    Completed,
    Failed,
    Running,
}

/// The lower-case name of a task state.
pub open spec fn state_name(s: TaskState) -> Seq<char> {
    match s {
        TaskState::Running => "running"@,
        TaskState::Completed => "completed"@,
        TaskState::Failed => "failed"@,
    }
}

/// The name a status bar gives a severity.
pub open spec fn severity_name(s: Severity) -> Seq<char> {
    match s {
        Severity::Unset => ""@,
        Severity::Completed => "completed"@,
        Severity::Failed => "failed"@,
        Severity::Running => "running"@,
    }
}

/// What a status bar says a task did: its summary, else its error, else the
/// command it is running, else the start of its prompt.
pub open spec fn latest_summary(s: SnapshotView) -> Seq<char> {
    match s.summary {
        Some(x) => x,
        None => match s.error {
            Some(e) => e,
            None => match s.current_command {
                Some(c) => c,
                None => prefix(s.prompt, PROMPT_PREVIEW_CHARS as int),
            },
        },
    }
}

/// The running totals while the snapshots are gone through.
pub struct EwwTally {
    pub running: nat,
    pub recent: nat,
    pub worst: Severity,
    pub latest: Option<LatestView>,
}

/// The age of a snapshot in whole seconds at `now`.
pub open spec fn age_at(s: SnapshotView, now: Timestamp) -> int {
    whole_seconds(now.total_nanos() - s.updated_at.total_nanos())
}

/// How a status bar shows task `s` as the latest one at `now`.
pub open spec fn latest_view(s: SnapshotView, now: Timestamp) -> LatestView {
    LatestView {
        task_id: s.task_id,
        state: state_name(s.state),
        summary: latest_summary(s),
        updated_secs_ago: age_at(s, now),
    }
}

/// The tally after one more snapshot.
pub open spec fn tally_step(t: EwwTally, s: SnapshotView, now: Timestamp) -> EwwTally {
    let age = age_at(s, now);
    let visible = age <= VISIBILITY_SECS;
    let worst = if !visible {
        t.worst
    } else {
        match s.state {
            TaskState::Running => Severity::Running,
            TaskState::Failed => if t.worst != Severity::Running {
                Severity::Failed
            } else {
                t.worst
            },
            TaskState::Completed => if t.worst == Severity::Unset {
                Severity::Completed
            } else {
                t.worst
            },
        }
    };
    let here = latest_view(s, now);
    let latest = match t.latest {
        None => Some(here),
        Some(l) => if s.updated_at.total_nanos() > now.total_nanos() - l.updated_secs_ago
            * NANOS_PER_SEC {
            Some(here)
        } else {
            Some(l)
        },
    };
    EwwTally {
        running: if s.state == TaskState::Running { t.running + 1 } else { t.running },
        recent: if visible { t.recent + 1 } else { t.recent },
        worst,
        latest,
    }
}

/// The tally over a list of snapshots, skipping the missing ones.
pub open spec fn tally(snaps: Seq<Option<TaskSnapshot>>, now: Timestamp) -> EwwTally
    decreases snaps.len(),
{
    if snaps.len() == 0 {
        EwwTally { running: 0, recent: 0, worst: Severity::Unset, latest: None }
    } else {
        let t = tally(snaps.drop_last(), now);
        match snaps.last() {
            Some(s) => tally_step(t, s@, now),
            None => t,
        }
    }
}

/// The status of the given tasks at `now`.
pub open spec fn eww_view(snaps: Seq<Option<TaskSnapshot>>, now: Timestamp) -> EwwView {
    let t = tally(snaps, now);
    EwwView {
        running_count: t.running,
        recent_count: t.recent,
        has_visible: t.recent > 0 || t.running > 0,
        worst_state: if t.worst == Severity::Unset && t.latest is Some {
            "completed"@
        } else {
            severity_name(t.worst)
        },
        latest: t.latest,
    }
}

/// Whether an entry of a snapshot list is a running task.
pub open spec fn running_entry(o: Option<TaskSnapshot>) -> bool {
    o matches Some(s) && s.state == TaskState::Running
}

/// Whether an entry of a snapshot list is a task updated at most
/// `VISIBILITY_SECS` seconds before `now`.
pub open spec fn recent_entry(o: Option<TaskSnapshot>, now: Timestamp) -> bool {
    o matches Some(s) && age_at(s@, now) <= VISIBILITY_SECS
}

/// The status counts the running tasks and the recent tasks among the
/// snapshots, and has something to show exactly when either count is not zero.
pub proof fn lemma_status_counts(snaps: Seq<Option<TaskSnapshot>>, now: Timestamp)
    ensures
        eww_view(snaps, now).running_count == snaps.filter(
            |o: Option<TaskSnapshot>| running_entry(o),
        ).len(),
        eww_view(snaps, now).recent_count == snaps.filter(
            |o: Option<TaskSnapshot>| recent_entry(o, now),
        ).len(),
        eww_view(snaps, now).has_visible == (eww_view(snaps, now).running_count > 0
            || eww_view(snaps, now).recent_count > 0),
    decreases snaps.len(),
{
    reveal(Seq::filter);
    if snaps.len() > 0 {
        lemma_status_counts(snaps.drop_last(), now);
    }
}

/// Whether `snaps[i]` is a task with the smallest age at `now` among the
/// snapshots, and the first of them.
pub open spec fn first_least_age(snaps: Seq<Option<TaskSnapshot>>, now: Timestamp, i: int) -> bool {
    &&& 0 <= i < snaps.len()
    &&& snaps[i] is Some
    &&& forall|j: int| #![trigger snaps[j]]
        0 <= j < snaps.len() && snaps[j] is Some ==> age_at(snaps[j]->0@, now) >= age_at(
            snaps[i]->0@,
            now,
        )
    &&& forall|j: int| #![trigger snaps[j]]
        0 <= j < i && snaps[j] is Some ==> age_at(snaps[j]->0@, now) > age_at(snaps[i]->0@, now)
}

/// Whether no snapshot was updated after `now`.
pub open spec fn none_after(snaps: Seq<Option<TaskSnapshot>>, now: Timestamp) -> bool {
    forall|j: int| #![trigger snaps[j]]
        0 <= j < snaps.len() && snaps[j] is Some ==> snaps[j]->0.updated_at.total_nanos()
            <= now.total_nanos()
}

/// For `d` not negative, `d` nanoseconds are fewer than `a` whole seconds
/// exactly when their whole seconds are fewer than `a`.
proof fn lemma_fewer_seconds(d: int, a: int)
    requires
        d >= 0,
    ensures
        (d < a * NANOS_PER_SEC) <==> (whole_seconds(d) < a),
{
    let q = d / 1_000_000_000int;
    let m = d % 1_000_000_000int;
    assert(d == q * 1_000_000_000 + m && 0 <= m < 1_000_000_000) by (nonlinear_arith)
        requires
            q == d / 1_000_000_000int,
            m == d % 1_000_000_000int,
    ;
    if q < a {
        assert(q * 1_000_000_000 + m < a * 1_000_000_000) by (nonlinear_arith)
            requires
                q < a,
                0 <= m < 1_000_000_000,
        ;
    } else {
        assert(q * 1_000_000_000 + m >= a * 1_000_000_000) by (nonlinear_arith)
            requires
                q >= a,
                0 <= m,
        ;
    }
}

/// Where no task was updated after `now`, the status shows a latest task
/// exactly when there is a task, and that task is the first one with the
/// smallest age.
pub proof fn lemma_latest_task(snaps: Seq<Option<TaskSnapshot>>, now: Timestamp)
    requires
        none_after(snaps, now),
    ensures
        eww_view(snaps, now).latest is None <==> forall|j: int|
            0 <= j < snaps.len() ==> #[trigger] snaps[j] is None,
        eww_view(snaps, now).latest matches Some(l) ==> exists|i: int|
            first_least_age(snaps, now, i) && l == latest_view(#[trigger] snaps[i]->0@, now),
    decreases snaps.len(),
{
    if snaps.len() > 0 {
        let p = snaps.drop_last();
        let n = snaps.len() - 1;
        assert forall|j: int| 0 <= j < p.len() implies #[trigger] p[j] == snaps[j] by {}
        lemma_latest_task(p, now);
        let t = tally(p, now);
        match snaps.last() {
            None => {
                assert(tally(snaps, now) == t);
                if t.latest is None {
                    assert forall|j: int| 0 <= j < snaps.len() implies #[trigger] snaps[j] is None by {
                        if j < n {
                            assert(p[j] is None);
                        }
                    }
                } else {
                    let l = t.latest->0;
                    let i = choose|i: int|
                        first_least_age(p, now, i) && l == latest_view(#[trigger] p[i]->0@, now);
                    assert(p[i] == snaps[i]);
                    assert forall|j: int| 0 <= j < snaps.len() && #[trigger] snaps[j] is Some implies
                        age_at(snaps[j]->0@, now) >= age_at(snaps[i]->0@, now) by {
                        assert(j < n);
                        assert(p[j] == snaps[j]);
                    }
                    assert forall|j: int| 0 <= j < i && #[trigger] snaps[j] is Some implies age_at(
                        snaps[j]->0@,
                        now,
                    ) > age_at(snaps[i]->0@, now) by {
                        assert(p[j] == snaps[j]);
                    }
                    assert(first_least_age(snaps, now, i));
                }
            },
            Some(s) => {
                assert(snaps[n] == Some(s));
                assert(s.updated_at.total_nanos() <= now.total_nanos());
                if t.latest is None {
                    assert forall|j: int| 0 <= j < snaps.len() && #[trigger] snaps[j] is Some implies
                        j == n by {
                        if j < n {
                            assert(p[j] == snaps[j]);
                        }
                    }
                    assert(first_least_age(snaps, now, n));
                } else {
                    let l = t.latest->0;
                    let i = choose|i: int|
                        first_least_age(p, now, i) && l == latest_view(#[trigger] p[i]->0@, now);
                    assert(p[i] == snaps[i]);
                    let di = now.total_nanos() - snaps[i]->0.updated_at.total_nanos();
                    let ds = now.total_nanos() - s.updated_at.total_nanos();
                    assert(di >= 0);
                    lemma_fewer_seconds(ds, l.updated_secs_ago);
                    assert(l.updated_secs_ago >= 0);
                    if s.updated_at.total_nanos() > now.total_nanos() - l.updated_secs_ago
                        * NANOS_PER_SEC {
                        assert(age_at(s@, now) < l.updated_secs_ago);
                        assert forall|j: int| 0 <= j < n && #[trigger] snaps[j] is Some implies age_at(
                            snaps[j]->0@,
                            now,
                        ) > age_at(s@, now) by {
                            assert(p[j] == snaps[j]);
                        }
                        assert forall|j: int| 0 <= j < snaps.len() && #[trigger] snaps[j] is Some implies age_at(
                            snaps[j]->0@,
                            now,
                        ) >= age_at(snaps[n]->0@, now) by {
                            if j < n {
                                assert(p[j] == snaps[j]);
                            }
                        }
                        assert(first_least_age(snaps, now, n));
                    } else {
                        assert(age_at(s@, now) >= l.updated_secs_ago);
                        assert forall|j: int| 0 <= j < snaps.len() && #[trigger] snaps[j] is Some implies age_at(
                            snaps[j]->0@,
                            now,
                        ) >= age_at(snaps[i]->0@, now) by {
                            if j < n {
                                assert(p[j] == snaps[j]);
                            }
                        }
                        assert forall|j: int| 0 <= j < i && #[trigger] snaps[j] is Some implies age_at(
                            snaps[j]->0@,
                            now,
                        ) > age_at(snaps[i]->0@, now) by {
                            assert(p[j] == snaps[j]);
                        }
                        assert(first_least_age(snaps, now, i));
                    }
                }
            },
        }
    }
}

/// The latest task of a tally is one of the tasks, as `latest_view` shows it.
proof fn lemma_latest_is_a_task(snaps: Seq<Option<TaskSnapshot>>, now: Timestamp)
    ensures
        tally(snaps, now).latest matches Some(l) ==> exists|i: int| #![trigger snaps[i]]
            0 <= i < snaps.len() && snaps[i] is Some && l == latest_view(snaps[i]->0@, now),
    decreases snaps.len(),
{
    if snaps.len() > 0 {
        let p = snaps.drop_last();
        lemma_latest_is_a_task(p, now);
        let n = snaps.len() - 1;
        assert(snaps[n] == snaps.last());
        if tally(p, now).latest is Some {
            let l = tally(p, now).latest->0;
            let i = choose|i: int| #![trigger p[i]]
                0 <= i < p.len() && p[i] is Some && l == latest_view(p[i]->0@, now);
            assert(p[i] == snaps[i]);
        }
    }
}

/// The latest task the status shows is one of the tasks, shown with its id,
/// the name of its state and its age; its text is its summary when it has
/// one, else its error, else its running command, else the first 60
/// characters of its prompt.
pub proof fn lemma_latest_shows_task(snaps: Seq<Option<TaskSnapshot>>, now: Timestamp)
    ensures
        eww_view(snaps, now).latest matches Some(l) ==> exists|i: int| #![trigger snaps[i]]
            0 <= i < snaps.len() && snaps[i] is Some && ({
                let s = snaps[i]->0;
                &&& l.task_id == s.task_id@
                &&& s.state == TaskState::Running ==> l.state == "running"@
                &&& s.state == TaskState::Completed ==> l.state == "completed"@
                &&& s.state == TaskState::Failed ==> l.state == "failed"@
                &&& l.updated_secs_ago == whole_seconds(
                    now.total_nanos() - s.updated_at.total_nanos(),
                )
                &&& s.summary matches Some(x) ==> l.summary == x@
                &&& s.summary is None ==> (s.error matches Some(e) ==> l.summary == e@)
                &&& s.summary is None && s.error is None ==> (s.current_command matches Some(c)
                    ==> l.summary == c@)
                &&& s.summary is None && s.error is None && s.current_command is None
                    ==> l.summary == (if s.prompt@.len() <= 60 {
                    s.prompt@
                } else {
                    s.prompt@.take(60)
                })
            }),
{
    lemma_latest_is_a_task(snaps, now);
}

/// The lower-case name of a task state (`format!("{:?}", s).to_lowercase()`).
pub fn state_label(s: TaskState) -> (r: String)
    ensures
        r@ == state_name(s),
{
    match s {
        TaskState::Running => owned("running"),
        TaskState::Completed => owned("completed"),
        TaskState::Failed => owned("failed"),
    }
}

fn severity_label(s: Severity) -> (r: String)
    ensures
        r@ == severity_name(s),
{
    match s {
        Severity::Unset => owned(""),
        Severity::Completed => owned("completed"),
        Severity::Failed => owned("failed"),
        Severity::Running => owned("running"),
    }
}

fn summary_of(s: &TaskSnapshot) -> (r: String)
    ensures
        r@ == latest_summary(s@),
{
    match &s.summary {
        Some(x) => x.clone(),
        None => match &s.error {
            Some(e) => e.clone(),
            None => match &s.current_command {
                Some(c) => c.clone(),
                None => take_chars(s.prompt.as_str(), PROMPT_PREVIEW_CHARS),
            },
        },
    }
}

/// The status bar summary of the tasks' snapshots (`None` for a task whose
/// events could not be read or were empty) at time `now`.
pub fn eww_status(snapshots: &Vec<Option<TaskSnapshot>>, now: &Timestamp) -> (r: EwwStatus)
    ensures
        r@ == eww_view(snapshots@, *now),
{
    let mut running: usize = 0;
    let mut recent: usize = 0;
    let mut worst = Severity::Unset;
    let mut latest: Option<LatestTask> = None;
    let mut i: usize = 0;
    while i < snapshots.len()
        invariant
            i <= snapshots.len(),
            running <= i,
            recent <= i,
            ({
                let t = tally(snapshots@.take(i as int), *now);
                &&& t.running == running
                &&& t.recent == recent
                &&& t.worst == worst
                &&& t.latest == opt_latest_view(latest)
            }),
            latest matches Some(l) ==> -2 * SECS_LIMIT - 1 <= l.updated_secs_ago <= 2 * SECS_LIMIT + 1,
        decreases snapshots.len() - i,
    {
        assert(snapshots@.take(i + 1).drop_last() == snapshots@.take(i as int));
        match &snapshots[i] {
            None => {},
            Some(snap) => {
                let age = now.seconds_since(&snap.updated_at);
                let visible = age <= VISIBILITY_SECS;
                match snap.state {
                    TaskState::Running => {
                        running = running + 1;
                        if visible {
                            recent = recent + 1;
                            worst = Severity::Running;
                        }
                    },
                    TaskState::Failed => {
                        if visible {
                            recent = recent + 1;
                            if worst != Severity::Running {
                                worst = Severity::Failed;
                            }
                        }
                    },
                    TaskState::Completed => {
                        if visible {
                            recent = recent + 1;
                            if worst == Severity::Unset {
                                worst = Severity::Completed;
                            }
                        }
                    },
                }
                let replace = match &latest {
                    None => true,
                    Some(l) => snap.updated_at.is_after_seconds_before(now, l.updated_secs_ago),
                };
                if replace {
                    latest = Some(
                        LatestTask {
                            task_id: snap.task_id.clone(),
                            state: state_label(snap.state),
                            summary: summary_of(snap),
                            updated_secs_ago: age,
                        },
                    );
                }
            },
        }
        i = i + 1;
    }
    assert(snapshots@.take(snapshots.len() as int) == snapshots@);
    let worst_state = if worst == Severity::Unset && latest.is_some() {
        owned("completed")
    } else {
        severity_label(worst)
    };
    EwwStatus {
        running_count: running,
        recent_count: recent,
        has_visible: recent > 0 || running > 0,
        worst_state,
        latest,
    }
}

/// The status bar summary at the current time; `None` when the system clock
/// gives no time (see `Timestamp::now`).
pub fn eww_status_now(snapshots: &Vec<Option<TaskSnapshot>>) -> (r: Option<EwwStatus>)
    ensures
        r matches Some(st) ==> exists|now: Timestamp| #![trigger eww_view(snapshots@, now)]
            now.total_nanos() >= 0 && st@ == eww_view(snapshots@, now),
{
    match Timestamp::now() {
        Some(now) => Some(eww_status(snapshots, &now)),
        None => None,
    }
}

/// The text of a line of an event file, trimmed; `None` for a blank line.
pub fn event_line(line: &str) -> (r: Option<String>)
    ensures
        r is Some <==> trimmed(line@).len() > 0,
        r matches Some(t) ==> t@ == trimmed(line@),
{
    let t = trim(line);
    if t.as_str().is_empty() {
        None
    } else {
        Some(t)
    }
}

/// The index of the last `.` in `s`, or -1 when there is none.
pub open spec fn last_dot(s: Seq<char>) -> int
    decreases s.len(),
{
    if s.len() == 0 {
        -1
    } else if s.last() == '.' {
        s.len() - 1
    } else {
        last_dot(s.drop_last())
    }
}

/// The task id that a file name stands for: the stem of a name whose
/// extension is `jsonl`, as `Path::file_stem` and `Path::extension` split it
/// (at the last dot, a leading dot not counting as one).
pub open spec fn jsonl_stem(name: Seq<char>) -> Option<Seq<char>> {
    let k = last_dot(name);
    if k > 0 && name.skip(k + 1) == "jsonl"@ {
        Some(name.take(k))
    } else {
        None
    }
}

/// The task ids that a list of file names stands for, in the names' order.
pub open spec fn stems(names: Seq<String>) -> Seq<Seq<char>>
    decreases names.len(),
{
    if names.len() == 0 {
        Seq::empty()
    } else {
        let rest = stems(names.drop_last());
        match jsonl_stem(names.last()@) {
            Some(t) => rest.push(t),
            None => rest,
        }
    }
}

proof fn lemma_last_dot(s: Seq<char>)
    ensures
        -1 <= last_dot(s) < s.len(),
        last_dot(s) >= 0 ==> s[last_dot(s)] == '.',
        forall|j: int| last_dot(s) < j < s.len() ==> s[j] != '.',
    decreases s.len(),
{
    if s.len() > 0 && s.last() != '.' {
        lemma_last_dot(s.drop_last());
        assert forall|j: int| last_dot(s) < j < s.len() implies s[j] != '.' by {
            if j < s.len() - 1 {
                assert(s[j] == s.drop_last()[j]);
            }
        }
    }
}

proof fn lemma_last_dot_prefix(s: Seq<char>, i: int)
    requires
        0 <= i <= s.len(),
        forall|j: int| i <= j < s.len() ==> s[j] != '.',
    ensures
        last_dot(s) == last_dot(s.take(i)),
    decreases s.len() - i,
{
    if i < s.len() {
        assert(s.drop_last() == s.take(s.len() - 1));
        assert(s.take(s.len() - 1).take(i) == s.take(i));
        lemma_last_dot_prefix(s.take(s.len() - 1), i);
    } else {
        assert(s.take(i) == s);
    }
}

/// The task id a file name stands for, if it is an event file's name.
pub fn id_of_file_name(name: &str) -> (r: Option<String>)
    ensures
        opt_view(r) == jsonl_stem(name@),
{
    let v = chars_of(name);
    let n = v.len();
    let mut k: usize = n;
    while k > 0 && v[k - 1] != '.'
        invariant
            k <= n == v.len(),
            v@ == name@,
            forall|j: int| k <= j < n ==> v@[j] != '.',
        decreases k,
    {
        k = k - 1;
    }
    proof {
        lemma_last_dot(name@);
        if k > 0 {
            assert(last_dot(name@) == k - 1) by {
                lemma_last_dot_prefix(name@, k as int);
                assert(name@.take(k as int).drop_last() == name@.take(k - 1));
            };
        } else {
            lemma_last_dot_prefix(name@, 0);
        }
    }
    if k > 1 && n - k == 5 && v[k] == 'j' && v[k + 1] == 's' && v[k + 2] == 'o' && v[k + 3] == 'n'
        && v[k + 4] == 'l' {
        proof {
            reveal_strlit("jsonl");
            assert(name@.skip(k as int) == "jsonl"@);
        }
        Some(string_of_range(&v, 0, k - 1))
    } else {
        proof {
            reveal_strlit("jsonl");
            if k > 1 && name@.skip(k as int) == "jsonl"@ {
                assert(name@.skip(k as int).len() == 5);
                assert(name@.skip(k as int)[0] == 'j');
                assert(name@.skip(k as int)[1] == 's');
                assert(name@.skip(k as int)[2] == 'o');
                assert(name@.skip(k as int)[3] == 'n');
                assert(name@.skip(k as int)[4] == 'l');
            }
        }
        None
    }
}

/// The characters of each string.
pub open spec fn views(v: Seq<String>) -> Seq<Seq<char>> {
    v.map_values(|s: String| s@)
}

/// Every text in `s` comes no later than those after it.
pub open spec fn sorted(s: Seq<Seq<char>>) -> bool {
    forall|i: int, j: int| 0 <= i < j < s.len() ==> lex_le(#[trigger] s[i], #[trigger] s[j])
}

/// Puts `x` into the sorted list `v`, keeping it sorted.
fn insert_sorted(v: &mut Vec<String>, x: String)
    requires
        sorted(views(old(v)@)),
    ensures
        sorted(views(final(v)@)),
        views(final(v)@).to_multiset() == views(old(v)@).to_multiset().insert(x@),
{
    let ghost old_views = views(v@);
    let mut p: usize = 0;
    while p < v.len() && str_le(v[p].as_str(), x.as_str())
        invariant
            p <= v.len(),
            v@ == old(v)@,
            forall|j: int| 0 <= j < p ==> lex_le(#[trigger] views(v@)[j], x@),
        decreases v.len() - p,
    {
        p = p + 1;
    }
    proof {
        if p < v.len() {
            lemma_lex_total(views(v@)[p as int], x@);
            assert forall|j: int| p <= j < v.len() implies lex_le(x@, #[trigger] views(v@)[j]) by {
                if j > p {
                    lemma_lex_transitive(x@, views(v@)[p as int], views(v@)[j]);
                }
            }
        }
    }
    let ghost xv = x@;
    v.insert(p, x);
    proof {
        let nv = views(v@);
        assert(nv == old_views.insert(p as int, xv));
        assert forall|i: int, j: int| 0 <= i < j < nv.len() implies lex_le(#[trigger] nv[i], #[trigger] nv[j]) by {
            if j < p {
            } else if i < p && j == p {
            } else if i < p && j > p {
                lemma_lex_transitive(nv[i], xv, nv[j]);
            } else if i == p {
            } else {
                assert(nv[i] == old_views[i - 1]);
                assert(nv[j] == old_views[j - 1]);
            }
        }
        assert(old_views.insert(p as int, xv) == old_views.take(p as int) + seq![xv] + old_views.skip(p as int));
        vstd::seq_lib::lemma_multiset_commutative(old_views.take(p as int) + seq![xv], old_views.skip(p as int));
        vstd::seq_lib::lemma_multiset_commutative(old_views.take(p as int), seq![xv]);
        vstd::seq_lib::lemma_multiset_commutative(old_views.take(p as int), old_views.skip(p as int));
        assert(old_views == old_views.take(p as int) + old_views.skip(p as int));
        assert(seq![xv].to_multiset() == vstd::multiset::Multiset::<Seq<char>>::empty().insert(xv)) by {
            broadcast use vstd::seq_lib::group_to_multiset_ensures;
            assert(seq![xv] == Seq::<Seq<char>>::empty().push(xv));
        }
    }
}

/// The ids of the tasks whose event files are named in `names` (the names of
/// the entries of the task directory), sorted.
pub fn list_task_ids(names: &Vec<String>) -> (r: Vec<String>)
    ensures
        sorted(views(r@)),
        views(r@).to_multiset() == stems(names@).to_multiset(),
{
    let mut ids: Vec<String> = Vec::new();
    let mut i: usize = 0;
    proof {
        assert(views(ids@) == Seq::<Seq<char>>::empty());
        broadcast use vstd::seq_lib::group_to_multiset_ensures;
    }
    while i < names.len()
        invariant
            i <= names.len(),
            sorted(views(ids@)),
            views(ids@).to_multiset() == stems(names@.take(i as int)).to_multiset(),
        decreases names.len() - i,
    {
        assert(names@.take(i + 1).drop_last() == names@.take(i as int));
        match id_of_file_name(names[i].as_str()) {
            Some(id) => {
                let ghost before = stems(names@.take(i as int));
                insert_sorted(&mut ids, id);
                proof {
                    broadcast use vstd::seq_lib::group_to_multiset_ensures;
                    assert(stems(names@.take(i + 1)) == before.push(id@));
                }
            },
            None => {},
        }
        i = i + 1;
    }
    assert(names@.take(names.len() as int) == names@);
    ids
}

/// The event ends the task.
pub open spec fn is_terminal(e: Event) -> bool {
    e is Completed || e is Failed
}

/// The state that a terminal event leaves a task in.
pub open spec fn terminal_state(e: Event) -> TaskState {
    if e is Completed {
        TaskState::Completed
    } else {
        TaskState::Failed
    }
}

proof fn lemma_apply_events(s: SnapshotView, evs: Seq<TimedEvent>)
    ensures
        apply_events(s, evs).started_at == s.started_at,
        evs.len() > 0 ==> apply_events(s, evs).updated_at == evs.last().ts,
        (forall|i: int| 0 <= i < evs.len() ==> !is_terminal(#[trigger] evs[i].event)) ==> {
            &&& apply_events(s, evs).state == s.state
            &&& apply_events(s, evs).completed_at == s.completed_at
        },
        forall|i: int|
            0 <= i < evs.len() && is_terminal(#[trigger] evs[i].event) && (forall|j: int|
                i < j < evs.len() ==> !is_terminal(#[trigger] evs[j].event)) ==> {
                &&& apply_events(s, evs).state == terminal_state(evs[i].event)
                &&& apply_events(s, evs).completed_at == Some(evs[i].ts)
            },
    decreases evs.len(),
{
    if evs.len() > 0 {
        let init = evs.drop_last();
        lemma_apply_events(s, init);
        assert forall|i: int|
            0 <= i < evs.len() && is_terminal(#[trigger] evs[i].event) && (forall|j: int|
                i < j < evs.len() ==> !is_terminal(#[trigger] evs[j].event)) implies {
            &&& apply_events(s, evs).state == terminal_state(evs[i].event)
            &&& apply_events(s, evs).completed_at == Some(evs[i].ts)
        } by {
            if i < evs.len() - 1 {
                assert(init[i] == evs[i]);
                assert forall|j: int| i < j < init.len() implies !is_terminal(#[trigger] init[j].event) by {
                    assert(init[j] == evs[j]);
                }
                assert(!is_terminal(evs[evs.len() - 1].event));
            }
        }
        if forall|i: int| 0 <= i < evs.len() ==> !is_terminal(#[trigger] evs[i].event) {
            assert forall|i: int| 0 <= i < init.len() implies !is_terminal(#[trigger] init[i].event) by {
                assert(init[i] == evs[i]);
            }
            assert(!is_terminal(evs[evs.len() - 1].event));
        }
    }
}

/// What a task's snapshot says follows its events: it started at the first
/// event and was updated at the last; it is running, with no completion time,
/// while none of its events ended it; otherwise its state and completion time
/// are those of the last event that ended it.
pub proof fn lemma_snapshot_follows_events(task_id: Seq<char>, evs: Seq<TimedEvent>)
    requires
        evs.len() > 0,
    ensures
        replay(task_id, evs).started_at == evs[0].ts,
        replay(task_id, evs).updated_at == evs.last().ts,
        (forall|i: int| 0 <= i < evs.len() ==> !is_terminal(#[trigger] evs[i].event)) ==> {
            &&& replay(task_id, evs).state == TaskState::Running
            &&& replay(task_id, evs).completed_at is None
        },
        forall|i: int|
            0 <= i < evs.len() && is_terminal(#[trigger] evs[i].event) && (forall|j: int|
                i < j < evs.len() ==> !is_terminal(#[trigger] evs[j].event)) ==> {
                &&& replay(task_id, evs).state == terminal_state(evs[i].event)
                &&& replay(task_id, evs).completed_at == Some(evs[i].ts)
            },
{
    lemma_apply_events(initial_snapshot(task_id, evs[0].ts), evs);
}

/// The snapshot is visible to a status bar at `now`.
pub open spec fn visible_at(s: SnapshotView, now: Timestamp) -> bool {
    age_at(s, now) <= VISIBILITY_SECS
}

/// Some snapshot in the list is present, visible at `now`, and in `state`.
pub open spec fn some_visible(snaps: Seq<Option<TaskSnapshot>>, now: Timestamp, state: TaskState) -> bool {
    exists|i: int|
        0 <= i < snaps.len() && (#[trigger] snaps[i] matches Some(s) && visible_at(s@, now) && s.state
            == state)
}

proof fn lemma_tally(snaps: Seq<Option<TaskSnapshot>>, now: Timestamp)
    ensures
        (tally(snaps, now).worst == Severity::Running) == some_visible(snaps, now, TaskState::Running),
        (tally(snaps, now).worst == Severity::Failed) == (!some_visible(snaps, now, TaskState::Running)
            && some_visible(snaps, now, TaskState::Failed)),
        (tally(snaps, now).worst == Severity::Completed) == (!some_visible(snaps, now, TaskState::Running)
            && !some_visible(snaps, now, TaskState::Failed) && some_visible(snaps, now, TaskState::Completed)),
        tally(snaps, now).latest is Some <==> exists|i: int| 0 <= i < snaps.len() && #[trigger] snaps[i] is Some,
    decreases snaps.len(),
{
    if snaps.len() > 0 {
        let init = snaps.drop_last();
        lemma_tally(init, now);
        let n = snaps.len() - 1;
        assert forall|st: TaskState| some_visible(snaps, now, st) == (some_visible(init, now, st) || (
        snaps[n] matches Some(s) && visible_at(s@, now) && s.state == st)) by {
            if some_visible(snaps, now, st) {
                let i = choose|i: int|
                    0 <= i < snaps.len() && (#[trigger] snaps[i] matches Some(s) && visible_at(s@, now)
                        && s.state == st);
                if i < n {
                    assert(init[i] == snaps[i]);
                }
            }
            if some_visible(init, now, st) {
                let i = choose|i: int|
                    0 <= i < init.len() && (#[trigger] init[i] matches Some(s) && visible_at(s@, now)
                        && s.state == st);
                assert(init[i] == snaps[i]);
            }
        }
        assert((exists|i: int| 0 <= i < snaps.len() && #[trigger] snaps[i] is Some) == ((exists|i: int|
            0 <= i < init.len() && #[trigger] init[i] is Some) || snaps[n] is Some)) by {
            if exists|i: int| 0 <= i < snaps.len() && #[trigger] snaps[i] is Some {
                let i = choose|i: int| 0 <= i < snaps.len() && #[trigger] snaps[i] is Some;
                if i < n {
                    assert(init[i] == snaps[i]);
                }
            }
            if exists|i: int| 0 <= i < init.len() && #[trigger] init[i] is Some {
                let i = choose|i: int| 0 <= i < init.len() && #[trigger] init[i] is Some;
                assert(init[i] == snaps[i]);
            }
        }
    }
}

/// What a status bar shows follows the tasks it is given: the worst state is
/// `running` when a recent task runs; else `failed` when a recent task
/// failed; else `completed` when any task is known; and empty only when none
/// is. There is a latest task exactly when some task is known, and
/// `has_visible` says whether some task is recent or running.
pub proof fn lemma_status_follows_tasks(snaps: Seq<Option<TaskSnapshot>>, now: Timestamp)
    ensures
        ({
            let v = eww_view(snaps, now);
            let any = exists|i: int| 0 <= i < snaps.len() && #[trigger] snaps[i] is Some;
            &&& (v.worst_state == "running"@) == some_visible(snaps, now, TaskState::Running)
            &&& (v.worst_state == "failed"@) == (!some_visible(snaps, now, TaskState::Running)
                && some_visible(snaps, now, TaskState::Failed))
            &&& (v.worst_state == "completed"@) == (!some_visible(snaps, now, TaskState::Running)
                && !some_visible(snaps, now, TaskState::Failed) && any)
            &&& (v.worst_state.len() == 0) == !any
            &&& v.latest is Some <==> any
        }),
{
    lemma_tally(snaps, now);
    reveal_strlit("running");
    reveal_strlit("failed");
    reveal_strlit("completed");
    reveal_strlit("");
    let t = tally(snaps, now);
    let v = eww_view(snaps, now);
    let any = exists|i: int| 0 <= i < snaps.len() && #[trigger] snaps[i] is Some;
    if some_visible(snaps, now, TaskState::Completed) {
        let i = choose|i: int|
            0 <= i < snaps.len() && (#[trigger] snaps[i] matches Some(s) && visible_at(s@, now) && s.state
                == TaskState::Completed);
        assert(snaps[i] is Some);
    }
    let r = "running"@;
    let f = "failed"@;
    let c = "completed"@;
    assert(r.len() == 7 && f.len() == 6 && c.len() == 9);
    assert(r != f && r != c && f != c);
    match t.worst {
        Severity::Running => {
            assert(v.worst_state == r);
        },
        Severity::Failed => {
            assert(v.worst_state == f);
        },
        Severity::Completed => {
            assert(v.worst_state == c);
        },
        Severity::Unset => {
            if any {
                assert(v.worst_state == c);
            } else {
                assert(v.worst_state == ""@);
            }
        },
    }
}

/// The name of a task's event file: its id followed by `.jsonl`.
pub open spec fn event_file_name(task_id: Seq<char>) -> Seq<char> {
    task_id + ".jsonl"@
}

/// A task whose event file is written is listed under its id: the name of
/// the file stands for the id (for a non-empty id); the name of its log file
/// stands for no task.
pub proof fn lemma_event_file_listed(task_id: Seq<char>)
    requires
        task_id.len() > 0,
    ensures
        jsonl_stem(event_file_name(task_id)) == Some(task_id),
        jsonl_stem(task_id + ".log"@) is None,
{
    reveal_strlit(".jsonl");
    reveal_strlit("jsonl");
    reveal_strlit(".log");
    let name = event_file_name(task_id);
    let k = task_id.len() as int;
    lemma_last_dot(name);
    assert(name[k] == '.');
    assert(last_dot(name) == k) by {
        lemma_last_dot_prefix(name, k + 1);
        assert(name.take(k + 1).drop_last() == task_id);
        assert(name.take(k + 1).last() == '.');
    }
    assert(name.skip(k + 1) == "jsonl"@);
    assert(name.take(k) == task_id);
    let log = task_id + ".log"@;
    lemma_last_dot(log);
    assert(last_dot(log) == k) by {
        lemma_last_dot_prefix(log, k + 1);
        assert(log.take(k + 1).last() == '.');
    }
    assert(log.skip(k + 1).len() == 3);
}

/// An id is listed only for the file of that task: a file name that stands
/// for a task id is the name of that task's event file.
pub proof fn lemma_listed_name_is_event_file(name: Seq<char>)
    ensures
        jsonl_stem(name) matches Some(t) ==> name == event_file_name(t) && t.len() > 0,
{
    reveal_strlit(".jsonl");
    reveal_strlit("jsonl");
    if jsonl_stem(name) is Some {
        let k = last_dot(name);
        lemma_last_dot(name);
        let t = name.take(k);
        assert(name == t + seq!['.'] + name.skip(k + 1));
        assert(seq!['.'] + "jsonl"@ == ".jsonl"@);
        assert(name == t + ".jsonl"@);
    }
}

} // verus!
