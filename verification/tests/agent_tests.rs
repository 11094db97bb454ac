use udo::agent::{console_line, done_line, Agent, AgentAction, Phase, MAX_ITER, SYSTEM_PROMPT};
use udo::bash::ToolResult;
use udo::ollama::{chat_url, command_of, Message, ToolCall, ToolCallFunction};
use udo::progress::Event;

fn reply(content: &str, commands: &[&str]) -> Message {
    let calls: Vec<ToolCall> = commands
        .iter()
        .map(|c| ToolCall {
            function: ToolCallFunction {
                name: "bash".to_string(),
                arguments: command_args(c),
            },
        })
        .collect();
    Message {
        role: "assistant".to_string(),
        content: content.to_string(),
        tool_calls: if calls.is_empty() { None } else { Some(calls) },
    }
}

fn command_args(c: &str) -> String {
    let mut m = serde_json::Map::new();
    m.insert("command".to_string(), serde_json::Value::String(c.to_string()));
    serde_json::Value::Object(m).to_string()
}

fn result(out: &str) -> ToolResult {
    ToolResult { stdout: out.to_string(), stderr: String::new(), exit_code: 0 }
}

#[test]
fn start_sends_the_prompt() {
    let (agent, step) = Agent::start("list files");
    assert_eq!(agent.phase(), Phase::Reply);
    let msgs = agent.messages();
    assert_eq!(msgs.len(), 2);
    assert_eq!(msgs[0].role, "system");
    assert_eq!(msgs[0].content, SYSTEM_PROMPT);
    assert_eq!(msgs[1].role, "user");
    assert_eq!(msgs[1].content, "list files");
    assert!(matches!(step.emit[..], [Event::IterationStarted { iter: 1 }, Event::ModelRequestStarted { iter: 1 }]));
    assert!(matches!(step.action, AgentAction::Chat { iter: 1 }));
}

#[test]
fn reply_without_tools_finishes() {
    let (agent, _) = Agent::start("hi");
    let (agent, step) = agent.on_reply(reply("Said hi.", &[]));
    assert_eq!(agent.phase(), Phase::Done);
    assert_eq!(agent.messages().len(), 3);
    assert!(matches!(step.emit[..], [Event::ModelResponseReceived { iter: 1 }]));
    match step.action {
        AgentAction::Finish { summary } => assert_eq!(summary, "Said hi."),
        _ => panic!("expected finish"),
    }
}

#[test]
fn tools_run_in_order_then_next_round() {
    let (agent, _) = Agent::start("two commands");
    let (agent, step) = agent.on_reply(reply("", &["ls", "pwd"]));
    assert_eq!(step.emit.len(), 2);
    match &step.action {
        AgentAction::RunTool { iter, command } => {
            assert_eq!(*iter, 1);
            assert_eq!(command, "ls");
        }
        _ => panic!("expected ls"),
    }
    let (agent, step) = agent.on_tool_result(result("a\nb\n"));
    match &step.emit[0] {
        Event::ToolFinished { iter, command, exit_code, stdout_len, stderr_len } => {
            assert_eq!((*iter, command.as_str(), *exit_code, *stdout_len, *stderr_len), (1, "ls", 0, 4, 0));
        }
        _ => panic!("expected finished"),
    }
    assert!(matches!(&step.action, AgentAction::RunTool { iter: 1, command } if command == "pwd"));
    let last = agent.messages().last().unwrap();
    assert_eq!(last.role, "tool");
    assert_eq!(last.content, "{\"stdout\":\"a\\nb\\n\",\"stderr\":\"\",\"exit_code\":0}");
    let (agent, step) = agent.on_tool_result(result("/tmp\n"));
    assert_eq!(step.emit.len(), 3);
    assert!(matches!(step.emit[1], Event::IterationStarted { iter: 2 }));
    assert!(matches!(step.action, AgentAction::Chat { iter: 2 }));
    assert_eq!(agent.phase(), Phase::Reply);
    assert_eq!(agent.messages().len(), 5);
}

#[test]
fn gives_up_after_the_last_round() {
    let (mut agent, _) = Agent::start("loop");
    for round in 1..=MAX_ITER {
        let (a, _) = agent.on_reply(reply("", &["true"]));
        let (a, step) = a.on_tool_result(result(""));
        agent = a;
        if round < MAX_ITER {
            assert!(matches!(step.action, AgentAction::Chat { iter } if iter == round + 1));
        } else {
            assert_eq!(step.emit.len(), 1);
            match step.action {
                AgentAction::GiveUp { error } => assert_eq!(error, "hit max iterations (25) without completion"),
                _ => panic!("expected to give up"),
            }
            assert_eq!(agent.phase(), Phase::Done);
        }
    }
}

#[test]
fn missing_command_argument_runs_empty_command() {
    let call = ToolCall { function: ToolCallFunction { name: "bash".to_string(), arguments: "{\"cmd\":\"ls\"}".to_string() } };
    assert_eq!(command_of(&call), "");
    let call = ToolCall { function: ToolCallFunction { name: "bash".to_string(), arguments: "{\"command\":\"echo \\\"hi\\\"\"}".to_string() } };
    assert_eq!(command_of(&call), "echo \"hi\"");
    let call = ToolCall { function: ToolCallFunction { name: "bash".to_string(), arguments: "{\"command\":5}".to_string() } };
    assert_eq!(command_of(&call), "");
}

#[test]
fn console_lines() {
    assert_eq!(console_line(&Event::IterationStarted { iter: 3 }).unwrap(), "--- iteration 3 ---");
    assert_eq!(console_line(&Event::ToolStarted { iter: 3, command: "ls".to_string() }).unwrap(), "$ ls");
    assert_eq!(
        console_line(&Event::ToolFinished { iter: 3, command: "ls".to_string(), exit_code: -1, stdout_len: 10, stderr_len: 2 }).unwrap(),
        "  exit=-1 stdout=10B stderr=2B"
    );
    assert!(console_line(&Event::ModelRequestStarted { iter: 1 }).is_none());
    assert_eq!(done_line("ok"), "agent done: ok");
}

#[test]
fn chat_url_strips_slashes() {
    assert_eq!(chat_url("http://localhost:11434"), "http://localhost:11434/api/chat");
    assert_eq!(chat_url("http://localhost:11434//"), "http://localhost:11434/api/chat");
}

#[test]
fn failed_chat_ends_the_task_with_its_error() {
    let (agent, _) = Agent::start("list files");
    let (agent, _) = agent.on_reply(reply("", &["ls"]));
    let (agent, step2) = agent.on_tool_result(result("a\n"));
    assert!(matches!(step2.action, AgentAction::Chat { iter: 2 }));
    let before = agent.messages().len();
    let (agent, step) = agent.on_chat_failed("connection refused".to_string());
    assert_eq!(agent.phase(), Phase::Done);
    assert_eq!(agent.messages().len(), before);
    assert!(step.emit.is_empty());
    match step.action {
        AgentAction::GiveUp { error } => assert_eq!(error, "connection refused"),
        _ => panic!("expected give up"),
    }
}
