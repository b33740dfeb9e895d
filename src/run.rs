//! One invocation's decisions: from the schedule and the state file as it
//! was found, which command runs and what the state file holds afterwards.

use crate::schedule::{checked_total, command_at, cycle, next_position, total};
use crate::store::{encode, encode_position, file_after_load, load_position, loaded_value, stored_view};
use vstd::prelude::*;

verus! {

/// Why an invocation cannot go on.
#[derive(Debug, PartialEq, Eq, Structural, Clone, Copy)]
pub enum RunError {
    /// The state file holds no position.
    CorruptState,
    /// The stored position lies outside the cycle, or the cycle is too long
    /// to count in a position.
    OutOfRange,
}

/// What an invocation does: create the state file if it was absent, run the
/// command at `command`, then overwrite the state file with `save`.
pub struct Plan {
    pub create: Option<String>,
    pub command: usize,
    pub save: String,
}

/// Position `p` lies in the schedule's cycle, and the cycle's length fits in a `usize`.
pub open spec fn usable(r: Seq<usize>, p: usize) -> bool {
    total(r) <= usize::MAX && p < total(r)
}

/// Plans one invocation from the schedule and the state file's contents
/// (`None` when there is no state file).
pub fn plan_run(repetitions: &Vec<usize>, stored: Option<&str>) -> (r: Result<Plan, RunError>)
    ensures
        (r == Err::<Plan, RunError>(RunError::CorruptState)) <==> loaded_value(
            stored_view(stored),
        ).is_none(),
        (r == Err::<Plan, RunError>(RunError::OutOfRange)) <==> (loaded_value(
            stored_view(stored),
        ) matches Some(p) && !usable(repetitions@, p)),
        r matches Ok(plan) ==> ({
            let p = loaded_value(stored_view(stored)).unwrap();
            &&& usable(repetitions@, p)
            &&& plan.command == command_at(repetitions@, p as int)
            &&& plan.save@ == encode(next_position(repetitions@, p as int) as usize)
            &&& (plan.create.is_some() <==> stored.is_none())
            &&& (plan.create matches Some(t) ==> Some(t@) == file_after_load(stored_view(stored)))
        }),
{
    let loaded = match load_position(stored) {
        Some(l) => l,
        None => return Err(RunError::CorruptState),
    };
    let position = loaded.position;
    match checked_total(repetitions) {
        Some(sum) => {
            if position >= sum {
                return Err(RunError::OutOfRange);
            }
        },
        None => return Err(RunError::OutOfRange),
    }
    let (command, next) = cycle(repetitions, position);
    Ok(Plan { create: loaded.create, command, save: encode_position(next) })
}

} // verus!
