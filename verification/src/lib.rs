use vstd::prelude::*;

pub mod text;
pub mod bash;
pub mod paths;
pub mod progress;
pub mod ollama;
pub mod agent;
pub mod watch;
pub mod frontend;
pub mod worker;
pub mod prompt;

verus! {
} // verus!
