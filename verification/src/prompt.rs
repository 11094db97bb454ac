//! The task's description when none is given on the command line: read from
//! standard input, or asked for.
use vstd::prelude::*;
use crate::text::{owned, trim, trimmed};

verus! {

/// Why there is no task description.
#[derive(Clone, Copy, Debug, PartialEq, Eq, Structural)]
pub enum PromptError {
    /// Standard input held only whitespace.
    NothingOnStdin,
    /// The answer to the question was empty.
    EmptyAnswer,
    /// The question was dismissed.
    Cancelled,
}

/// The task description read from standard input: the text without its
/// surrounding whitespace, which must not be empty.
pub fn prompt_from_stdin(text: &str) -> (r: Result<String, PromptError>)
    ensures
        trimmed(text@).len() == 0 ==> r == Err::<String, PromptError>(PromptError::NothingOnStdin),
        trimmed(text@).len() > 0 ==> (r matches Ok(p) && p@ == trimmed(text@)),
{
    let t = trim(text);
    if t.as_str().is_empty() {
        Err(PromptError::NothingOnStdin)
    } else {
        Ok(t)
    }
}

/// The task description given as an answer (`None` when the question was
/// dismissed); an empty answer is refused, other answers are taken as they are.
pub fn prompt_from_answer(answer: Option<String>) -> (r: Result<String, PromptError>)
    ensures
        answer is None ==> r == Err::<String, PromptError>(PromptError::Cancelled),
        answer matches Some(a) ==> {
            &&& a@.len() == 0 ==> r == Err::<String, PromptError>(PromptError::EmptyAnswer)
            &&& a@.len() > 0 ==> (r matches Ok(p) && p@ == a@)
        },
{
    match answer {
        None => Err(PromptError::Cancelled),
        Some(a) => if a.as_str().is_empty() {
            Err(PromptError::EmptyAnswer)
        } else {
            Ok(a)
        },
    }
}

/// The message of a prompt error.
pub fn error_message(e: PromptError) -> (r: String)
    ensures
        r@ == match e {
            PromptError::NothingOnStdin => "no prompt provided on stdin"@,
            PromptError::EmptyAnswer => "empty prompt"@,
            PromptError::Cancelled => "cancelled"@,
        },
{
    match e {
        PromptError::NothingOnStdin => owned("no prompt provided on stdin"),
        PromptError::EmptyAnswer => owned("empty prompt"),
        PromptError::Cancelled => owned("cancelled"),
    }
}

} // verus!
