use udo::progress::{Event, TaskSnapshot, TaskState, TimedEvent, Timestamp};
use udo::watch::{
    command_for, detail_text, event_description, event_row, event_style, fmt_age, list_marker, App,
    Command, Key, StyleColor,
};

fn ids(v: &[&str]) -> Vec<String> {
    v.iter().map(|s| s.to_string()).collect()
}

fn ts(secs: i64) -> Timestamp {
    Timestamp::new(secs, 0).unwrap()
}

fn events(n: usize) -> Vec<TimedEvent> {
    (0..n).map(|i| TimedEvent { ts: ts(i as i64), event: Event::IterationStarted { iter: i } }).collect()
}

#[test]
fn new_selects_first_task() {
    let app = App::new(None, Some(ids(&["a", "b"])));
    assert_eq!(app.selected().as_deref(), Some("a"));
    assert_eq!(app.list_selected(), Some(0));
}

#[test]
fn new_focuses_given_task() {
    let app = App::new(Some("b".to_string()), Some(ids(&["a", "b", "c"])));
    assert_eq!(app.selected().as_deref(), Some("b"));
    assert_eq!(app.list_selected(), Some(1));
    let app = App::new(Some("zz".to_string()), Some(ids(&["a"])));
    assert_eq!(app.selected().as_deref(), Some("zz"));
    assert_eq!(app.list_selected(), Some(0));
    let app = App::new(None, None);
    assert!(app.selected().is_none());
    assert_eq!(app.list_selected(), None);
    assert_eq!(app.empty_message(), "no tasks yet");
    let app = App::new(Some("x1".to_string()), None);
    assert_eq!(app.empty_message(), "no task found with id x1");
}

#[test]
fn selection_moves_within_the_list() {
    let mut app = App::new(None, Some(ids(&["a", "b", "c"])));
    assert!(!app.select_up());
    assert!(app.select_down());
    assert_eq!(app.selected().as_deref(), Some("b"));
    assert!(app.select_down());
    assert!(!app.select_down());
    assert_eq!(app.list_selected(), Some(2));
    assert!(app.select_up());
    assert!(app.select_down());
    assert_eq!(app.selected().as_deref(), Some("c"));
}

#[test]
fn paging_and_scroll_limits() {
    let mut app = App::new(None, Some(ids(&["a"])));
    app.reload_events(events(30));
    app.set_event_viewport_height(12);
    assert_eq!(app.viewport_h(), 10);
    assert_eq!(app.max_scroll(), 20);
    app.page_down();
    assert_eq!(app.event_scroll(), 10);
    app.page_up();
    assert_eq!(app.event_scroll(), 0);
    app.page_down();
    app.page_down();
    app.page_down();
    assert_eq!(app.event_scroll(), 20);
    assert!(app.scrolled_to_bottom());
    assert_eq!(app.event_window(), (20, 30));
    assert_eq!(app.events_title(), " events (30 events, showing 21-30 of 30) ");
    assert_eq!(app.scrollbar(), Some((21, 20)));
    app.page_up();
    assert_eq!(app.event_scroll(), 10);
}

#[test]
fn small_viewport_is_one_row() {
    let mut app = App::new(None, Some(ids(&["a"])));
    app.reload_events(events(3));
    app.set_event_viewport_height(1);
    assert_eq!(app.viewport_h(), 1);
    assert_eq!(app.max_scroll(), 2);
}

#[test]
fn few_events_have_a_short_title() {
    let mut app = App::new(None, Some(ids(&["a"])));
    app.reload_events(events(3));
    app.set_event_viewport_height(20);
    assert_eq!(app.events_title(), " events (3 events) ");
    assert_eq!(app.scrollbar(), None);
    assert_eq!(app.event_window(), (0, 3));
}

#[test]
fn reload_follows_the_end() {
    let mut app = App::new(None, Some(ids(&["a"])));
    app.set_event_viewport_height(7);
    app.reload_events(events(10));
    app.page_down();
    assert!(app.scrolled_to_bottom());
    app.maybe_reload_events(events(12));
    assert_eq!(app.events().len(), 12);
    assert_eq!(app.event_scroll(), 7);
    app.page_up();
    app.maybe_reload_events(events(15));
    assert_eq!(app.event_scroll(), 2);
    app.maybe_reload_events(events(15));
    assert_eq!(app.events().len(), 15);
}

#[test]
fn no_selection_shows_no_events() {
    let mut app = App::new(None, None);
    app.reload_events(events(4));
    assert!(app.events().is_empty());
}

#[test]
fn ticks_refresh_every_fourth() {
    let mut app = App::new(None, None);
    assert!(!app.tick());
    assert!(!app.tick());
    assert!(!app.tick());
    assert!(app.tick());
    app.refresh(Some(ids(&["z"])));
    assert_eq!(app.task_ids().len(), 1);
    app.refresh(None);
    assert_eq!(app.task_ids().len(), 1);
}

#[test]
fn key_bindings() {
    assert_eq!(command_for(Key::Char('q')), Command::Quit);
    assert_eq!(command_for(Key::Esc), Command::Quit);
    assert_eq!(command_for(Key::Char('k')), Command::SelectUp);
    assert_eq!(command_for(Key::Up), Command::SelectUp);
    assert_eq!(command_for(Key::Char('j')), Command::SelectDown);
    assert_eq!(command_for(Key::Down), Command::SelectDown);
    assert_eq!(command_for(Key::PageUp), Command::PageUp);
    assert_eq!(command_for(Key::PageDown), Command::PageDown);
    assert_eq!(command_for(Key::Char('x')), Command::Nothing);
}

#[test]
fn ages() {
    assert_eq!(fmt_age(5), "5s");
    assert_eq!(fmt_age(-3), "-3s");
    assert_eq!(fmt_age(59), "59s");
    assert_eq!(fmt_age(60), "1m");
    assert_eq!(fmt_age(3599), "59m");
    assert_eq!(fmt_age(7300), "2h");
}

#[test]
fn event_descriptions() {
    let d = |e: Event| event_description(&e);
    assert_eq!(d(Event::Started { task_id: "a".into(), model: "qwen".into(), prompt: "p".into() }), "started (model: qwen)");
    assert_eq!(d(Event::IterationStarted { iter: 4 }), "iteration 4");
    assert_eq!(d(Event::ModelRequestStarted { iter: 4 }), "model request");
    assert_eq!(d(Event::ModelResponseReceived { iter: 4 }), "model response");
    assert_eq!(d(Event::ToolStarted { iter: 1, command: "ls -la".into() }), "bash: ls -la");
    assert_eq!(d(Event::ToolFinished { iter: 1, command: "ls".into(), exit_code: 0, stdout_len: 0, stderr_len: 0 }), "ok ls");
    assert_eq!(d(Event::ToolFinished { iter: 1, command: "false".into(), exit_code: 1, stdout_len: 0, stderr_len: 0 }), "exit(1) false");
    assert_eq!(d(Event::Completed { summary: "done it".into() }), "done: done it");
    assert_eq!(d(Event::Failed { error: "x".repeat(100) }), format!("failed: {}\u{2026}", "x".repeat(79)));
}

#[test]
fn event_styles() {
    assert_eq!(event_style(&Event::ToolFinished { iter: 1, command: "".into(), exit_code: 2, stdout_len: 0, stderr_len: 0 }), ('\u{2717}', StyleColor::Red));
    assert_eq!(event_style(&Event::ToolFinished { iter: 1, command: "".into(), exit_code: 0, stdout_len: 0, stderr_len: 0 }), ('\u{2713}', StyleColor::Green));
    assert_eq!(event_style(&Event::ToolStarted { iter: 1, command: "".into() }), ('$', StyleColor::Yellow));
    assert_eq!(event_style(&Event::IterationStarted { iter: 1 }), ('\u{21BB}', StyleColor::DarkGray));
}

#[test]
fn event_rows() {
    let te = TimedEvent { ts: ts(1000), event: Event::ModelRequestStarted { iter: 2 } };
    let row = event_row(6, &te, &ts(1125));
    assert_eq!(row.number, "  7 ");
    assert_eq!(row.age, "  2m ");
    assert_eq!(row.marker, '\u{2191}');
    assert_eq!(row.color, StyleColor::Blue);
    assert_eq!(row.description, "model request");
    let mut app = App::new(None, Some(ids(&["a"])));
    app.set_event_viewport_height(4);
    app.reload_events(events(5));
    app.page_down();
    let rows = app.event_rows(&ts(10));
    assert_eq!(rows.len(), 2);
    assert_eq!(rows[0].number, "  3 ");
    assert_eq!(rows[0].description, "iteration 2");
}

#[test]
fn list_markers() {
    assert_eq!(list_marker(Some(TaskState::Running)), ("\u{25B6} ".to_string(), StyleColor::Cyan));
    assert_eq!(list_marker(Some(TaskState::Completed)), ("\u{2713} ".to_string(), StyleColor::Green));
    assert_eq!(list_marker(Some(TaskState::Failed)), ("\u{2717} ".to_string(), StyleColor::Red));
    assert_eq!(list_marker(None), ("? ".to_string(), StyleColor::DarkGray));
}

#[test]
fn detail_of_a_running_task() {
    let snap = TaskSnapshot {
        task_id: "04a3".into(),
        state: TaskState::Running,
        model: "qwen".into(),
        prompt: "p".repeat(130),
        iter: 3,
        current_command: Some("make".into()),
        summary: None,
        error: None,
        started_at: ts(0),
        updated_at: ts(100),
        completed_at: None,
    };
    let d = detail_text("04a3", &snap, &ts(130));
    assert_eq!(d.title, " 04a3 ");
    assert_eq!(d.state, "running");
    assert_eq!(d.state_color, StyleColor::Cyan);
    assert!(d.state_bold);
    assert_eq!(d.iteration, "  iter 3/25");
    assert_eq!(d.model, "  model qwen");
    assert_eq!(d.prompt.chars().count(), 120);
    assert_eq!(d.updated, "30s ago");
    assert_eq!(d.running.as_deref(), Some("make"));
    assert!(d.result.is_none() && d.error.is_none());
}
