use udo::paths::{join, log_dir, log_file, state_dir, task_dir, task_file};

#[test]
fn join_like_pathbuf() {
    assert_eq!(join("/a", "b"), "/a/b");
    assert_eq!(join("/a/", "b"), "/a/b");
    assert_eq!(join("", "b"), "b");
    assert_eq!(join("/a", "/etc"), "/etc");
}

#[test]
fn state_dir_prefers_state_home() {
    assert_eq!(state_dir(Some("/home/u/.local/state"), Some("/home/u")).unwrap(), "/home/u/.local/state/udo");
    assert_eq!(state_dir(None, Some("/home/u")).unwrap(), "/home/u/.local/state/udo");
    assert_eq!(state_dir(None, None), None);
}

#[test]
fn task_files_live_in_their_directories() {
    let sd = "/home/u/.local/state/udo";
    assert_eq!(log_dir(sd), "/home/u/.local/state/udo/log");
    assert_eq!(task_dir(sd), "/home/u/.local/state/udo/tasks");
    assert_eq!(log_file(sd, "04a3"), "/home/u/.local/state/udo/log/04a3.log");
    assert_eq!(task_file(sd, "04a3"), "/home/u/.local/state/udo/tasks/04a3.jsonl");
}
