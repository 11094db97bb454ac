//! Starting a task: its id, and what the user is told.
use vstd::prelude::*;
use crate::text::{owned, push_str, push_decimal, decimal, hex4, fmt_hex4};

verus! {

/// `OsRng::try_next_u32` (rand's `TryRngCore`): a number from the operating
/// system's random source, `None` where the source reports an error. Nothing
/// is claimed of which number.
#[verifier::external_body]
fn os_random_u32() -> (r: Option<u32>) {
    match rand::TryRngCore::try_next_u32(&mut rand::rngs::OsRng) {
        Ok(n) => Some(n),
        Err(_) => None,
    }
}

/// The task id made of a number: its four lower-case hexadecimal digits.
pub fn task_id_for(n: u16) -> (r: String)
    ensures
        r@ == hex4(n),
{
    fmt_hex4(n)
}

/// A fresh, random task id of four lower-case hexadecimal digits: the low
/// sixteen bits of a random number; `None` when no random number can be had.
pub fn new_task_id() -> (r: Option<String>)
    ensures
        r matches Some(id) ==> exists|n: u16| id@ == #[trigger] hex4(n),
{
    match os_random_u32() {
        Some(x) => {
            let id = task_id_from_random(x);
            assert(id@ == hex4((x % 65536) as u16));
            Some(id)
        },
        None => None,
    }
}

/// The task id made of a random number: the four hexadecimal digits of its
/// low sixteen bits.
pub fn task_id_from_random(x: u32) -> (r: String)
    ensures
        r@ == hex4((x % 65536) as u16),
{
    task_id_for((x % 65536) as u16)
}

/// The line that announces a started task.
pub fn started_line(task_id: &str, pid: u32, log_path: &str) -> (r: String)
    ensures
        r@ == "udo: task "@ + task_id@ + " started (pid "@ + decimal(pid as nat) + ", log "@
            + log_path@ + ")"@,
{
    let mut s = owned("udo: task ");
    push_str(&mut s, task_id);
    push_str(&mut s, " started (pid ");
    push_decimal(&mut s, pid as u64);
    push_str(&mut s, ", log ");
    push_str(&mut s, log_path);
    push_str(&mut s, ")");
    s
}

/// The line that tells how to watch a started task.
pub fn watch_hint(task_id: &str) -> (r: String)
    ensures
        r@ == "  watch with: udo watch "@ + task_id@,
{
    let mut s = owned("  watch with: udo watch ");
    push_str(&mut s, task_id);
    s
}

} // verus!
