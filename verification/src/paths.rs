//! Where the state of the tasks lives: the state directory, its `log` and
//! `tasks` subdirectories, and the per-task files in them.
use vstd::prelude::*;
use crate::text::{owned, push_str};

verus! {

/// `base` joined with `name` the way `PathBuf::join` does it on Unix: an
/// absolute `name` replaces `base`; otherwise a `/` is put between them
/// unless `base` is empty or already ends with one.
pub open spec fn joined(base: Seq<char>, name: Seq<char>) -> Seq<char> {
    if name.len() > 0 && name[0] == '/' {
        name
    } else if base.len() > 0 && base.last() != '/' {
        base + seq!['/'] + name
    } else {
        base + name
    }
}

/// Joins a path and a relative or absolute name.
pub fn join(base: &str, name: &str) -> (r: String)
    ensures
        r@ == joined(base@, name@),
{
    let name_absolute = !name.is_empty() && name.get_char(0) == '/';
    let base_len = base.unicode_len();
    if name_absolute {
        owned(name)
    } else if base_len > 0 && base.get_char(base_len - 1) != '/' {
        let mut r = owned(base);
        push_str(&mut r, "/");
        push_str(&mut r, name);
        proof {
            reveal_strlit("/");
        }
        r
    } else {
        let mut r = owned(base);
        push_str(&mut r, name);
        r
    }
}

/// The directory name that holds this program's state.
pub open spec fn state_dir_of(state_home: Option<Seq<char>>, home: Option<Seq<char>>) -> Option<Seq<char>> {
    match state_home {
        Some(s) => Some(joined(s, "udo"@)),
        None => match home {
            Some(h) => Some(joined(joined(h, ".local/state"@), "udo"@)),
            None => None,
        },
    }
}

/// The state directory: `udo` under the platform's state directory, or under
/// `~/.local/state` where there is none; `None` when neither is known.
pub fn state_dir(state_home: Option<&str>, home: Option<&str>) -> (r: Option<String>)
    ensures
        r is Some <==> (state_home is Some || home is Some),
        r matches Some(p) ==> Some(p@) == state_dir_of(
            match state_home { Some(s) => Some(s@), None => None },
            match home { Some(h) => Some(h@), None => None },
        ),
{
    match state_home {
        Some(s) => Some(join(s, "udo")),
        None => match home {
            Some(h) => {
                let base = join(h, ".local/state");
                Some(join(base.as_str(), "udo"))
            },
            None => None,
        },
    }
}

/// The directory of the tasks' raw logs.
pub fn log_dir(state_dir: &str) -> (r: String)
    ensures
        r@ == joined(state_dir@, "log"@),
{
    join(state_dir, "log")
}

/// The directory of the tasks' event files.
pub fn task_dir(state_dir: &str) -> (r: String)
    ensures
        r@ == joined(state_dir@, "tasks"@),
{
    join(state_dir, "tasks")
}

/// The raw log of a task: `<task_id>.log` in the log directory.
pub fn log_file(state_dir: &str, task_id: &str) -> (r: String)
    ensures
        r@ == joined(joined(state_dir@, "log"@), task_id@ + ".log"@),
{
    let dir = log_dir(state_dir);
    let mut name = owned(task_id);
    push_str(&mut name, ".log");
    join(dir.as_str(), name.as_str())
}

/// The event file of a task: `<task_id>.jsonl` in the task directory.
pub fn task_file(state_dir: &str, task_id: &str) -> (r: String)
    ensures
        r@ == joined(joined(state_dir@, "tasks"@), task_id@ + ".jsonl"@),
{
    let dir = task_dir(state_dir);
    let mut name = owned(task_id);
    push_str(&mut name, ".jsonl");
    join(dir.as_str(), name.as_str())
}

} // verus!
