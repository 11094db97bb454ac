//! The agent loop as a state machine: the caller performs each action (a chat
//! request, a command) and hands back its outcome; the agent decides what
//! comes next and which progress events to record.
use vstd::prelude::*;
use crate::text::{owned, push_str, push_decimal, push_signed_decimal, decimal, signed_decimal};
use crate::bash::{ToolResult, to_json, tool_result_json};
use crate::ollama::{Message, ToolCall, command_of, call_command};
use crate::progress::{Event, views};

verus! {

/// The most chat rounds a task gets.
pub const MAX_ITER: usize = 25;

/// What the model is told before the user's task.
pub const SYSTEM_PROMPT: &'static str = "You are a bash agent on Linux. Use the `bash` tool to accomplish the user's task in as few commands as possible. Inspect output as needed. When the task is done, reply with a single short sentence summarizing what you did, and stop calling tools. If the task is impossible or unsafe, explain briefly and stop.";

/// The error of a task that used up its chat rounds.
pub const MAX_ITER_ERROR: &'static str = "hit max iterations (25) without completion";

/// What the agent waits for.
#[derive(Clone, Copy, Debug, PartialEq, Eq, Structural)]
pub enum Phase {
    /// The reply to the chat request of the current round.
    Reply,
    /// The result of the current command.
    ToolResult,
    /// Nothing: the task is over.
    Done,
}

/// What the caller is to do next.
pub enum AgentAction {
    /// Send the conversation (`Agent::messages`) to the model.
    Chat { iter: usize },
    /// Run `command` with `bash -c`.
    RunTool { iter: usize, command: String },
    /// The task is done; `summary` is the model's last reply.
    Finish { summary: String },
    /// The task failed with `error`.
    GiveUp { error: String },
}

/// The events to record, in order, then the next action.
pub struct AgentStep {
    pub emit: Vec<Event>,
    pub action: AgentAction,
}

/// The agent's state.
pub struct Agent {
    messages: Vec<Message>,
    iter: usize,
    commands: Vec<String>,
    next: usize,
    phase: Phase,
}

/// The agent's state as a model.
pub struct AgentView {
    /// The conversation so far.
    pub messages: Seq<Message>,
    /// The current chat round, from 1.
    pub iter: nat,
    /// The commands of the last reply.
    pub commands: Seq<Seq<char>>,
    /// The index in `commands` of the command being run.
    pub next: nat,
    pub phase: Phase,
}

/// The message that starts every conversation.
pub open spec fn is_system_message(m: Message) -> bool {
    m.role@ == "system"@ && m.content@ == SYSTEM_PROMPT@ && m.tool_calls is None
}

/// The message that carries the user's task.
pub open spec fn is_prompt_message(m: Message, prompt: Seq<char>) -> bool {
    m.role@ == "user"@ && m.content@ == prompt && m.tool_calls is None
}

/// The message that hands a command's result back to the model.
pub open spec fn is_tool_message(m: Message, result: ToolResult) -> bool {
    m.role@ == "tool"@ && m.content@ == tool_result_json(result) && m.tool_calls is None
}

/// The commands of a reply's tool calls, in order.
pub open spec fn reply_commands(msg: Message) -> Seq<Seq<char>> {
    match msg.tool_calls {
        Some(calls) => calls@.map_values(|c: ToolCall| call_command(c)),
        None => Seq::empty(),
    }
}

/// The length in bytes of the UTF-8 encoding of `s` (`str::len`).
pub open spec fn utf8_len(s: Seq<char>) -> nat {
    vstd::utf8::encode_utf8(s).len()
}

/// The event recorded when command `command` of round `iter` finished.
pub open spec fn finished_event(e: Event, iter: nat, command: Seq<char>, r: ToolResult) -> bool {
    e matches Event::ToolFinished { iter: i, command: c, exit_code, stdout_len, stderr_len }
        && i == iter && c@ == command && exit_code == r.exit_code
        && stdout_len == utf8_len(r.stdout@) as usize && stderr_len == utf8_len(r.stderr@) as usize
}

/// The event recorded when command `command` of round `iter` starts.
pub open spec fn started_event(e: Event, iter: nat, command: Seq<char>) -> bool {
    e matches Event::ToolStarted { iter: i, command: c } && i == iter && c@ == command
}

/// What a new chat round records and does: round `iter` starts and its
/// request goes out, or, past the last round, the task gives up.
pub open spec fn round_start(emit: Seq<Event>, action: AgentAction, iter: nat) -> bool {
    if iter <= MAX_ITER {
        &&& emit.len() == 2
        &&& emit[0] matches Event::IterationStarted { iter: i } && i == iter
        &&& emit[1] matches Event::ModelRequestStarted { iter: i } && i == iter
        &&& action matches AgentAction::Chat { iter: i } && i == iter
    } else {
        &&& emit.len() == 0
        &&& action matches AgentAction::GiveUp { error } && error@ == MAX_ITER_ERROR@
    }
}

impl View for Agent {
    type V = AgentView;

    closed spec fn view(&self) -> AgentView {
        AgentView {
            messages: self.messages@,
            iter: self.iter as nat,
            commands: views(self.commands@),
            next: self.next as nat,
            phase: self.phase,
        }
    }
}

impl Agent {
    #[verifier::type_invariant]
    spec fn consistent(self) -> bool {
        &&& self.messages.len() >= 2
        &&& is_system_message(self.messages@[0])
        &&& 1 <= self.iter <= MAX_ITER
        &&& self.phase == Phase::ToolResult ==> self.next < self.commands.len()
    }

    /// The invariant every agent keeps: the conversation starts with the
    /// system message, and the round is between 1 and `MAX_ITER`.
    pub open spec fn well_formed(v: AgentView) -> bool {
        &&& v.messages.len() >= 2
        &&& is_system_message(v.messages[0])
        &&& 1 <= v.iter <= MAX_ITER
        &&& v.phase == Phase::ToolResult ==> v.next < v.commands.len()
    }

    /// Starts a task: the conversation is the system message and the user's
    /// prompt, and round 1 begins.
    pub fn start(prompt: &str) -> (r: (Agent, AgentStep))
        ensures
            Self::well_formed(r.0@),
            r.0@.messages.len() == 2,
            is_system_message(r.0@.messages[0]),
            is_prompt_message(r.0@.messages[1], prompt@),
            r.0@.iter == 1,
            r.0@.phase == Phase::Reply,
            round_start(r.1.emit@, r.1.action, 1),
    {
        let mut messages: Vec<Message> = Vec::new();
        messages.push(Message { role: owned("system"), content: owned(SYSTEM_PROMPT), tool_calls: None });
        messages.push(Message { role: owned("user"), content: owned(prompt), tool_calls: None });
        let agent = Agent { messages, iter: 1, commands: Vec::new(), next: 0, phase: Phase::Reply };
        let mut emit = Vec::new();
        emit.push(Event::IterationStarted { iter: 1 });
        emit.push(Event::ModelRequestStarted { iter: 1 });
        (agent, AgentStep { emit, action: AgentAction::Chat { iter: 1 } })
    }

    /// The conversation to send with a chat request.
    pub fn messages(&self) -> (r: &Vec<Message>)
        ensures
            r@ == self@.messages,
    {
        &self.messages
    }

    /// What the agent waits for.
    pub fn phase(&self) -> (r: Phase)
        ensures
            r == self@.phase,
            Self::well_formed(self@),
    {
        proof {
            use_type_invariant(self);
        }
        self.phase
    }

    /// Takes the model's reply: records that it came, adds it to the
    /// conversation, then finishes with its text when it calls no tool, or
    /// starts its first command.
    pub fn on_reply(self, reply: Message) -> (r: (Agent, AgentStep))
        requires
            self@.phase == Phase::Reply,
        ensures
            Self::well_formed(r.0@),
            r.0@.messages == self@.messages.push(reply),
            r.0@.iter == self@.iter,
            r.0@.commands == reply_commands(reply),
            r.1.emit@.len() >= 1,
            r.1.emit@[0] matches Event::ModelResponseReceived { iter: i } && i == self@.iter,
            reply_commands(reply).len() == 0 ==> {
                &&& r.0@.phase == Phase::Done
                &&& r.1.emit@.len() == 1
                &&& r.1.action matches AgentAction::Finish { summary } && summary@ == reply.content@
            },
            reply_commands(reply).len() > 0 ==> {
                &&& r.0@.phase == Phase::ToolResult
                &&& r.0@.next == 0
                &&& r.1.emit@.len() == 2
                &&& started_event(r.1.emit@[1], self@.iter, reply_commands(reply)[0])
                &&& r.1.action matches AgentAction::RunTool { iter, command } && iter == self@.iter
                    && command@ == reply_commands(reply)[0]
            },
    {
        proof {
            use_type_invariant(&self);
        }
        let ghost old_view = self@;
        let Agent { mut messages, iter, commands: _, next: _, phase: _ } = self;
        let mut emit = Vec::new();
        emit.push(Event::ModelResponseReceived { iter });
        let mut commands: Vec<String> = Vec::new();
        let ghost cmds = reply_commands(reply);
        match &reply.tool_calls {
            Some(calls) => {
                let mut i: usize = 0;
                while i < calls.len()
                    invariant
                        i <= calls.len(),
                        reply.tool_calls == Some(*calls),
                        cmds == calls@.map_values(|c: ToolCall| call_command(c)),
                        views(commands@) == cmds.take(i as int),
                    decreases calls.len() - i,
                {
                    let c = command_of(&calls[i]);
                    let ghost prev = commands@;
                    let ghost cv = c@;
                    commands.push(c);
                    proof {
                        assert(views(prev).len() == i);
                        assert(commands@ == prev.push(commands@[i as int]));
                        assert(commands@[i as int]@ == cv);
                        assert(cmds[i as int] == call_command(calls@[i as int]));
                        assert forall|j: int| 0 <= j < i + 1 implies #[trigger] views(commands@)[j]
                            == cmds.take(i + 1)[j] by {
                            if j < i {
                                assert(views(prev)[j] == cmds.take(i as int)[j]);
                                assert(commands@[j] == prev[j]);
                            }
                        }
                        assert(views(commands@) =~= cmds.take(i + 1));
                    }
                    i = i + 1;
                }
                assert(cmds.take(calls.len() as int) == cmds);
            },
            None => {
                assert(views(commands@) == cmds);
            },
        }
        let content = reply.content.clone();
        messages.push(reply);
        assert(messages@[0] == old_view.messages[0]);
        if commands.len() == 0 {
            let agent = Agent { messages, iter, commands, next: 0, phase: Phase::Done };
            (agent, AgentStep { emit, action: AgentAction::Finish { summary: content } })
        } else {
            let first = commands[0].clone();
            emit.push(Event::ToolStarted { iter, command: first.clone() });
            let agent = Agent { messages, iter, commands, next: 0, phase: Phase::ToolResult };
            (agent, AgentStep { emit, action: AgentAction::RunTool { iter, command: first } })
        }
    }

    /// Takes the failure of the chat request of the current round: nothing
    /// more is recorded or asked, and the task ends with `error`.
    pub fn on_chat_failed(self, error: String) -> (r: (Agent, AgentStep))
        requires
            self@.phase == Phase::Reply,
        ensures
            Self::well_formed(r.0@),
            r.0@.messages == self@.messages,
            r.0@.iter == self@.iter,
            r.0@.phase == Phase::Done,
            r.1.emit@.len() == 0,
            r.1.action matches AgentAction::GiveUp { error: e } && e@ == error@,
    {
        proof {
            use_type_invariant(&self);
        }
        let Agent { messages, iter, commands, next, phase: _ } = self;
        let agent = Agent { messages, iter, commands, next, phase: Phase::Done };
        (agent, AgentStep { emit: Vec::new(), action: AgentAction::GiveUp { error } })
    }

    /// Takes the result of the running command: records that it finished,
    /// hands its result to the model as a tool message, then starts the next
    /// command of the reply, or, after the last, the next chat round.
    pub fn on_tool_result(self, result: ToolResult) -> (r: (Agent, AgentStep))
        requires
            self@.phase == Phase::ToolResult,
        ensures
            Self::well_formed(r.0@),
            r.0@.messages.len() == self@.messages.len() + 1,
            r.0@.messages.take(self@.messages.len() as int) == self@.messages,
            is_tool_message(r.0@.messages.last(), result),
            r.0@.commands == self@.commands,
            r.1.emit@.len() >= 1,
            finished_event(r.1.emit@[0], self@.iter, self@.commands[self@.next as int], result),
            self@.next + 1 < self@.commands.len() ==> {
                &&& r.0@.phase == Phase::ToolResult
                &&& r.0@.iter == self@.iter
                &&& r.0@.next == self@.next + 1
                &&& r.1.emit@.len() == 2
                &&& started_event(r.1.emit@[1], self@.iter, self@.commands[r.0@.next as int])
                &&& r.1.action matches AgentAction::RunTool { iter, command } && iter == self@.iter
                    && command@ == self@.commands[r.0@.next as int]
            },
            self@.next + 1 >= self@.commands.len() ==> {
                &&& round_start(r.1.emit@.skip(1), r.1.action, self@.iter + 1)
                &&& self@.iter < MAX_ITER ==> r.0@.phase == Phase::Reply
                    && r.0@.iter == self@.iter + 1
                &&& self@.iter == MAX_ITER ==> r.0@.phase == Phase::Done
                    && r.0@.iter == self@.iter
            },
    {
        proof {
            use_type_invariant(&self);
        }
        let ghost old_view = self@;
        let Agent { mut messages, iter, commands, next: cur, phase: _ } = self;
        let mut emit = Vec::new();
        emit.push(
            Event::ToolFinished {
                iter,
                command: commands[cur].clone(),
                exit_code: result.exit_code,
                stdout_len: result.stdout.as_str().len(),
                stderr_len: result.stderr.as_str().len(),
            },
        );
        let content = to_json(&result);
        messages.push(Message { role: owned("tool"), content, tool_calls: None });
        assert(messages@.take(messages@.len() - 1) == old_view.messages);
        assert(messages@[0] == old_view.messages[0]);
        if cur + 1 < commands.len() {
            let command = commands[cur + 1].clone();
            emit.push(Event::ToolStarted { iter, command: command.clone() });
            let agent = Agent { messages, iter, commands, next: cur + 1, phase: Phase::ToolResult };
            (agent, AgentStep { emit, action: AgentAction::RunTool { iter, command } })
        } else if iter < MAX_ITER {
            let iter = iter + 1;
            emit.push(Event::IterationStarted { iter });
            emit.push(Event::ModelRequestStarted { iter });
            let agent = Agent { messages, iter, commands, next: cur, phase: Phase::Reply };
            (agent, AgentStep { emit, action: AgentAction::Chat { iter } })
        } else {
            let agent = Agent { messages, iter, commands, next: cur, phase: Phase::Done };
            (agent, AgentStep { emit, action: AgentAction::GiveUp { error: owned(MAX_ITER_ERROR) } })
        }
    }
}

/// The line printed to the task's log before an event is recorded, if any.
pub open spec fn console_text(e: Event) -> Option<Seq<char>> {
    match e {
        Event::IterationStarted { iter } => Some(
            "--- iteration "@ + decimal(iter as nat) + " ---"@,
        ),
        Event::ToolStarted { command, .. } => Some("$ "@ + command@),
        Event::ToolFinished { exit_code, stdout_len, stderr_len, .. } => Some(
            "  exit="@ + signed_decimal(exit_code as int) + " stdout="@ + decimal(stdout_len as nat)
                + "B stderr="@ + decimal(stderr_len as nat) + "B"@,
        ),
        _ => None,
    }
}

/// The log line for an event.
pub fn console_line(e: &Event) -> (r: Option<String>)
    ensures
        match r {
            Some(s) => console_text(*e) == Some(s@),
            None => console_text(*e) is None,
        },
{
    match e {
        Event::IterationStarted { iter } => {
            let mut s = owned("--- iteration ");
            push_decimal(&mut s, *iter as u64);
            push_str(&mut s, " ---");
            Some(s)
        },
        Event::ToolStarted { command, .. } => {
            let mut s = owned("$ ");
            push_str(&mut s, command.as_str());
            Some(s)
        },
        Event::ToolFinished { exit_code, stdout_len, stderr_len, .. } => {
            let mut s = owned("  exit=");
            push_signed_decimal(&mut s, *exit_code as i64);
            push_str(&mut s, " stdout=");
            push_decimal(&mut s, *stdout_len as u64);
            push_str(&mut s, "B stderr=");
            push_decimal(&mut s, *stderr_len as u64);
            push_str(&mut s, "B");
            Some(s)
        },
        _ => None,
    }
}

/// The log line for a finished task.
pub fn done_line(summary: &str) -> (r: String)
    ensures
        r@ == "agent done: "@ + summary@,
{
    let mut s = owned("agent done: ");
    push_str(&mut s, summary);
    s
}

} // verus!
