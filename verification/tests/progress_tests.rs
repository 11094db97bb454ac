use udo::progress::{
    eww_status, eww_status_now, event_line, id_of_file_name, list_task_ids, snapshot, state_label, Event,
    TaskSnapshot, TaskState, TimedEvent, Timestamp,
};

fn ts(secs: i64) -> Timestamp {
    Timestamp::new(secs, 0).unwrap()
}

fn at(secs: i64, event: Event) -> TimedEvent {
    TimedEvent { ts: ts(secs), event }
}

fn started(id: &str) -> Event {
    Event::Started { task_id: id.to_string(), model: "m1".to_string(), prompt: "list files".to_string() }
}

#[test]
fn timestamp_range() {
    assert!(Timestamp::new(0, 999_999_999).is_some());
    assert!(Timestamp::new(0, 1_000_000_000).is_none());
    assert!(Timestamp::new(i64::MAX, 0).is_none());
    let t = Timestamp::new(-5, 7).unwrap();
    assert_eq!((t.secs(), t.nanos()), (-5, 7));
}

#[test]
fn seconds_since_rounds_toward_zero() {
    let a = Timestamp::new(10, 500_000_000).unwrap();
    let b = Timestamp::new(12, 0).unwrap();
    assert_eq!(b.seconds_since(&a), 1);
    assert_eq!(a.seconds_since(&b), -1);
    assert_eq!(ts(100).seconds_since(&ts(40)), 60);
}

#[test]
fn snapshot_of_no_events_is_none() {
    assert!(snapshot("x", &vec![]).is_none());
}

#[test]
fn snapshot_of_a_completed_task() {
    let evs = vec![
        at(100, started("04a3")),
        at(101, Event::IterationStarted { iter: 1 }),
        at(102, Event::ModelRequestStarted { iter: 1 }),
        at(103, Event::ModelResponseReceived { iter: 1 }),
        at(104, Event::ToolStarted { iter: 1, command: "ls".to_string() }),
        at(105, Event::ToolFinished { iter: 1, command: "ls".to_string(), exit_code: 0, stdout_len: 3, stderr_len: 0 }),
        at(106, Event::IterationStarted { iter: 2 }),
        at(107, Event::Completed { summary: "listed".to_string() }),
    ];
    let s = snapshot("04a3", &evs).unwrap();
    assert_eq!(s.task_id, "04a3");
    assert_eq!(s.state, TaskState::Completed);
    assert_eq!(s.model, "m1");
    assert_eq!(s.prompt, "list files");
    assert_eq!(s.iter, 2);
    assert_eq!(s.current_command, None);
    assert_eq!(s.summary.as_deref(), Some("listed"));
    assert_eq!(s.error, None);
    assert_eq!(s.started_at.secs(), 100);
    assert_eq!(s.updated_at.secs(), 107);
    assert_eq!(s.completed_at.unwrap().secs(), 107);
}

#[test]
fn snapshot_of_a_running_task_shows_its_command() {
    let evs = vec![
        at(10, started("b")),
        at(11, Event::IterationStarted { iter: 1 }),
        at(12, Event::ToolStarted { iter: 1, command: "sleep 5".to_string() }),
    ];
    let s = snapshot("file-id", &evs).unwrap();
    assert_eq!(s.task_id, "b");
    assert_eq!(s.state, TaskState::Running);
    assert_eq!(s.current_command.as_deref(), Some("sleep 5"));
    assert!(s.completed_at.is_none());
}

#[test]
fn snapshot_state_is_the_last_terminal_event() {
    let evs = vec![
        at(1, Event::Failed { error: "boom".to_string() }),
        at(2, Event::Completed { summary: "ok".to_string() }),
        at(3, Event::IterationStarted { iter: 4 }),
    ];
    let s = snapshot("t", &evs).unwrap();
    assert_eq!(s.state, TaskState::Completed);
    assert_eq!(s.completed_at.unwrap().secs(), 2);
    assert_eq!(s.error.as_deref(), Some("boom"));
    assert_eq!(s.updated_at.secs(), 3);
}

fn snap(id: &str, state: TaskState, updated: i64) -> TaskSnapshot {
    TaskSnapshot {
        task_id: id.to_string(),
        state,
        model: "m".to_string(),
        prompt: "p".repeat(70),
        iter: 1,
        current_command: None,
        summary: None,
        error: None,
        started_at: ts(updated),
        updated_at: ts(updated),
        completed_at: None,
    }
}

#[test]
fn status_of_no_tasks() {
    let st = eww_status(&vec![], &ts(1000));
    assert_eq!(st.running_count, 0);
    assert_eq!(st.recent_count, 0);
    assert!(!st.has_visible);
    assert_eq!(st.worst_state, "");
    assert!(st.latest.is_none());
}

#[test]
fn status_worst_is_running_when_a_recent_task_runs() {
    let now = ts(10_000);
    let snaps = vec![
        Some(snap("a", TaskState::Failed, 9_990)),
        Some(snap("b", TaskState::Running, 9_500)),
        None,
        Some(snap("c", TaskState::Completed, 9_999)),
    ];
    let st = eww_status(&snaps, &now);
    assert_eq!(st.running_count, 1);
    assert_eq!(st.recent_count, 3);
    assert!(st.has_visible);
    assert_eq!(st.worst_state, "running");
    let l = st.latest.unwrap();
    assert_eq!(l.task_id, "c");
    assert_eq!(l.state, "completed");
    assert_eq!(l.updated_secs_ago, 1);
    assert_eq!(l.summary, "p".repeat(60));
}

#[test]
fn status_old_tasks_only_count_as_completed() {
    let now = ts(100_000);
    let mut failed = snap("old", TaskState::Failed, 1_000);
    failed.error = Some("went wrong".to_string());
    let st = eww_status(&vec![Some(failed)], &now);
    assert_eq!(st.recent_count, 0);
    assert!(!st.has_visible);
    assert_eq!(st.worst_state, "completed");
    let l = st.latest.unwrap();
    assert_eq!(l.summary, "went wrong");
    assert_eq!(l.state, "failed");
    assert_eq!(l.updated_secs_ago, 99_000);
}

#[test]
fn status_failed_beats_completed() {
    let now = ts(5_000);
    let st = eww_status(
        &vec![Some(snap("x", TaskState::Completed, 4_990)), Some(snap("y", TaskState::Failed, 4_900))],
        &now,
    );
    assert_eq!(st.worst_state, "failed");
    assert_eq!(st.latest.unwrap().task_id, "x");
}

#[test]
fn status_running_old_task_is_visible() {
    let st = eww_status(&vec![Some(snap("r", TaskState::Running, 0))], &ts(100_000));
    assert_eq!(st.running_count, 1);
    assert_eq!(st.recent_count, 0);
    assert!(st.has_visible);
    assert_eq!(st.worst_state, "completed");
}

#[test]
fn status_at_the_current_time() {
    let st = eww_status_now(&vec![Some(snap("a", TaskState::Completed, 0))]).unwrap();
    assert_eq!(st.worst_state, "completed");
    assert!(st.latest.unwrap().updated_secs_ago > 1_000_000);
}

#[test]
fn state_labels() {
    assert_eq!(state_label(TaskState::Running), "running");
    assert_eq!(state_label(TaskState::Completed), "completed");
    assert_eq!(state_label(TaskState::Failed), "failed");
}

#[test]
fn event_lines_are_trimmed() {
    assert_eq!(event_line("  {\"kind\":\"failed\"}\n").as_deref(), Some("{\"kind\":\"failed\"}"));
    assert_eq!(event_line(" \t "), None);
}

#[test]
fn ids_of_file_names() {
    assert_eq!(id_of_file_name("04a3.jsonl").as_deref(), Some("04a3"));
    assert_eq!(id_of_file_name("a.b.jsonl").as_deref(), Some("a.b"));
    assert_eq!(id_of_file_name(".jsonl"), None);
    assert_eq!(id_of_file_name("04a3.log"), None);
    assert_eq!(id_of_file_name("jsonl"), None);
    assert_eq!(id_of_file_name("x.jsonl.bak"), None);
}

#[test]
fn task_ids_are_filtered_and_sorted() {
    let names: Vec<String> = ["ff00.jsonl", "notes.txt", "04a3.jsonl", "a1b2.jsonl", ".jsonl", "0000.jsonl"]
        .iter()
        .map(|s| s.to_string())
        .collect();
    assert_eq!(list_task_ids(&names), vec!["0000", "04a3", "a1b2", "ff00"]);
    assert!(list_task_ids(&vec![]).is_empty());
}

#[test]
fn now_is_after_the_epoch() {
    let now = Timestamp::now().unwrap();
    assert!(now.secs() > 1_600_000_000);
    assert!(now.nanos() < 1_000_000_000);
}

#[test]
fn latest_task_is_the_first_with_the_smallest_age() {
    // Ages at 1000: a 100 s, b and c 9 s (updated at 990.2 and 990.9), one missing.
    let mut b = snap("b", TaskState::Completed, 990);
    b.updated_at = Timestamp::new(990, 200_000_000).unwrap();
    let mut c = snap("c", TaskState::Failed, 990);
    c.updated_at = Timestamp::new(990, 900_000_000).unwrap();
    let snaps = vec![Some(snap("a", TaskState::Running, 900)), Some(b), None, Some(c)];
    let st = eww_status(&snaps, &ts(1000));
    let latest = st.latest.unwrap();
    assert_eq!(latest.task_id, "b");
    assert_eq!(latest.updated_secs_ago, 9);
    assert_eq!(st.running_count, 1);
    assert_eq!(st.recent_count, 3);
    assert!(eww_status(&vec![None, None], &ts(1000)).latest.is_none());
}

#[test]
fn snapshot_fields_come_from_the_last_event_that_sets_them() {
    let evs = vec![
        at(1, started("first")),
        at(2, Event::IterationStarted { iter: 1 }),
        at(3, Event::ToolStarted { iter: 1, command: "ls".to_string() }),
        at(4, Event::Failed { error: "e1".to_string() }),
        at(5, Event::Started { task_id: "second".to_string(), model: "m2".to_string(), prompt: "p2".to_string() }),
        at(6, Event::IterationStarted { iter: 7 }),
        at(7, Event::Completed { summary: "done".to_string() }),
        at(8, Event::ModelRequestStarted { iter: 7 }),
    ];
    let s = snapshot("id", &evs).unwrap();
    assert_eq!((s.task_id.as_str(), s.model.as_str(), s.prompt.as_str()), ("second", "m2", "p2"));
    assert_eq!(s.iter, 7);
    assert_eq!(s.current_command, None);
    assert_eq!(s.error.as_deref(), Some("e1"));
    assert_eq!(s.summary.as_deref(), Some("done"));
    assert_eq!(s.state, TaskState::Completed);
    assert_eq!(s.completed_at.unwrap().secs(), 7);
    assert_eq!(s.updated_at.secs(), 8);
    assert_eq!(s.started_at.secs(), 1);
}

#[test]
fn timestamps_from_clock_readings() {
    let t = Timestamp::after_epoch(1_700_000_000, 5).unwrap();
    assert_eq!((t.secs(), t.nanos()), (1_700_000_000, 5));
    assert!(Timestamp::after_epoch(0, 1_000_000_000).is_none());
    assert!(Timestamp::after_epoch(u64::MAX, 0).is_none());
    assert!(Timestamp::after_epoch(10_000_000_000_000, 0).is_some());
}
