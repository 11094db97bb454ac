use udo::frontend::{new_task_id, started_line, task_id_for, task_id_from_random, watch_hint};
use udo::prompt::{error_message, prompt_from_answer, prompt_from_stdin, PromptError};
use udo::progress::Event;
use udo::worker::{client_init_error, exit_code, failure_body, log_display, outcome, report, success_body, Outcome, TaskEnd};

#[test]
fn task_ids_are_four_hex_digits() {
    assert_eq!(task_id_for(0x04a3), "04a3");
    let id = new_task_id().unwrap();
    assert_eq!(id.len(), 4);
    assert!(id.chars().all(|c| c.is_ascii_hexdigit() && !c.is_ascii_uppercase()));
}

#[test]
fn started_lines() {
    assert_eq!(
        started_line("04a3", 12847, "/home/you/.local/state/udo/log/04a3.log"),
        "udo: task 04a3 started (pid 12847, log /home/you/.local/state/udo/log/04a3.log)"
    );
    assert_eq!(watch_hint("04a3"), "  watch with: udo watch 04a3");
}

#[test]
fn prompts_from_stdin() {
    assert_eq!(prompt_from_stdin("  list files \n"), Ok("list files".to_string()));
    assert_eq!(prompt_from_stdin(" \n\t"), Err(PromptError::NothingOnStdin));
}

#[test]
fn prompts_from_answers() {
    assert_eq!(prompt_from_answer(Some(" x ".to_string())), Ok(" x ".to_string()));
    assert_eq!(prompt_from_answer(Some(String::new())), Err(PromptError::EmptyAnswer));
    assert_eq!(prompt_from_answer(None), Err(PromptError::Cancelled));
    assert_eq!(error_message(PromptError::NothingOnStdin), "no prompt provided on stdin");
    assert_eq!(error_message(PromptError::EmptyAnswer), "empty prompt");
    assert_eq!(error_message(PromptError::Cancelled), "cancelled");
}

#[test]
fn worker_reports() {
    assert_eq!(exit_code(Outcome::Completed), 0);
    assert_eq!(exit_code(Outcome::Failed), 1);
    assert_eq!(exit_code(Outcome::NotifyFailed), 2);
    assert_eq!(log_display(Some("/x/04a3.log")), "/x/04a3.log");
    assert_eq!(log_display(None), "<unknown>");
    assert_eq!(success_body("Listed files.", "/x.log"), "Listed files. (log: /x.log)");
    assert_eq!(failure_body("boom", "/x.log"), "boom\nlog: /x.log");
    let long = "s".repeat(250);
    assert_eq!(success_body(&long, "L"), format!("{}\u{2026} (log: L)", "s".repeat(199)));
    assert_eq!(client_init_error("no tls"), "client init failed: no tls");
}

#[test]
fn completed_task_report() {
    let r = report(TaskEnd::Completed { summary: "Listed files.".to_string() }, "/x.log");
    assert!(matches!(r.event, Event::Completed { ref summary } if summary == "Listed files."));
    assert!(r.success);
    assert_eq!(r.body, "Listed files. (log: /x.log)");
}

#[test]
fn failed_task_report() {
    let r = report(TaskEnd::Failed { error: "boom".to_string() }, "<unknown>");
    assert!(matches!(r.event, Event::Failed { ref error } if error == "boom"));
    assert!(!r.success);
    assert_eq!(r.body, "boom\nlog: <unknown>");
}

#[test]
fn worker_outcomes() {
    assert_eq!(outcome(true, true), Outcome::Completed);
    assert_eq!(outcome(true, false), Outcome::NotifyFailed);
    assert_eq!(outcome(false, true), Outcome::Failed);
    assert_eq!(outcome(false, false), Outcome::Failed);
    assert_eq!(exit_code(outcome(true, false)), 2);
}

#[test]
fn task_id_from_the_low_bits_of_a_random_number() {
    assert_eq!(task_id_from_random(0x1234_04a3), "04a3");
    assert_eq!(task_id_from_random(0xffff_ffff), "ffff");
    assert_eq!(task_id_from_random(7), "0007");
}
