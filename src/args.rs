//! The command line's free arguments: pairs of a repetition count and a
//! command, and what becomes of them together with the parsed options.

use crate::text::{count_value, parse_count};
use vstd::prelude::*;
use vstd::string::StringExecFns;

verus! {

/// The directory that holds the state files when none is given.
pub const DEFAULT_DIRECTORY: &'static str = "/tmp/";

/// The message when no command is given.
pub open spec fn missing_message() -> Seq<char> {
    "Error: missing commands"@
}

/// The message when the free arguments do not come in pairs.
pub open spec fn pairs_message() -> Seq<char> {
    "pairs of commands are needed"@
}

/// The message when a count is not a number.
pub open spec fn bad_count_message(s: Seq<char>) -> Seq<char> {
    "could not parse "@ + s + " into number"@
}

/// Every count among the free arguments is a number.
pub open spec fn counts_ok(args: Seq<String>) -> bool {
    forall|k: int| 0 <= k < args.len() / 2 ==> (#[trigger] count_value(args[2 * k]@)).is_some()
}

/// The free arguments describe a schedule.
pub open spec fn commands_valid(args: Seq<String>) -> bool {
    args.len() > 0 && args.len() % 2 == 0 && counts_ok(args)
}

/// Pair `k` holds the first count that is not a number.
pub open spec fn is_first_bad(args: Seq<String>, k: int) -> bool {
    &&& 0 <= k < args.len() / 2
    &&& count_value(args[2 * k]@).is_none()
    &&& forall|j: int| 0 <= j < k ==> (#[trigger] count_value(args[2 * j]@)).is_some()
}

/// `m` is the message for free arguments that describe no schedule.
pub open spec fn commands_error(args: Seq<String>, m: Seq<char>) -> bool {
    if args.len() == 0 {
        m == missing_message()
    } else if args.len() % 2 != 0 {
        m == pairs_message()
    } else {
        exists|k: int| is_first_bad(args, k) && m == bad_count_message(args[2 * k]@)
    }
}

/// The counts and commands read from the free arguments, pair by pair.
pub open spec fn schedule_matches(args: Seq<String>, reps: Seq<usize>, cmds: Seq<String>) -> bool {
    &&& reps.len() == args.len() / 2
    &&& cmds.len() == args.len() / 2
    &&& forall|k: int|
        0 <= k < args.len() / 2 ==> Some(#[trigger] reps[k]) == count_value(args[2 * k]@)
            && cmds[k]@ == args[2 * k + 1]@
}

/// Splits the free arguments into repetition counts and commands.
pub fn parse_commands(args: &Vec<String>) -> (r: Result<(Vec<usize>, Vec<String>), String>)
    ensures
        r.is_ok() <==> commands_valid(args@),
        r matches Err(m) ==> commands_error(args@, m@),
        r matches Ok((reps, cmds)) ==> schedule_matches(args@, reps@, cmds@),
{
    if args.len() == 0 {
        return Err(String::from_str("Error: missing commands"));
    }
    if args.len() % 2 != 0 {
        return Err(String::from_str("pairs of commands are needed"));
    }
    let mut repetitions: Vec<usize> = Vec::new();
    let mut commands: Vec<String> = Vec::new();
    let pairs: usize = args.len() / 2;
    let mut k: usize = 0;
    while k < pairs
        invariant
            2 * pairs == args@.len(),
            args@.len() <= usize::MAX,
            pairs == args@.len() / 2,
            args@.len() % 2 == 0,
            k <= pairs,
            repetitions@.len() == k,
            commands@.len() == k,
            forall|j: int|
                0 <= j < k ==> Some(#[trigger] repetitions@[j]) == count_value(args@[2 * j]@)
                    && commands@[j]@ == args@[2 * j + 1]@,
        decreases pairs - k,
    {
        let count = &args[2 * k];
        match parse_count(count.as_str()) {
            Some(n) => {
                repetitions.push(n);
                commands.push(args[2 * k + 1].clone());
            },
            None => {
                let mut m = String::from_str("could not parse ");
                m.append(count.as_str());
                m.append(" into number");
                proof {
                    assert forall|j: int| 0 <= j < k implies (#[trigger] count_value(
                        args@[2 * j]@,
                    )).is_some() by {
                        assert(Some(repetitions@[j]) == count_value(args@[2 * j]@));
                    }
                    assert(is_first_bad(args@, k as int));
                    assert(m@ == bad_count_message(args@[2 * k as int]@));
                }
                return Err(m);
            },
        }
        k = k + 1;
    }
    proof {
        assert forall|j: int| 0 <= j < args@.len() / 2 implies (#[trigger] count_value(
            args@[2 * j]@,
        )).is_some() by {
            assert(Some(repetitions@[j]) == count_value(args@[2 * j]@));
        }
        assert(repetitions@.len() == args@.len() / 2);
        assert(commands@.len() == args@.len() / 2);
        assert forall|j: int| 0 <= j < args@.len() / 2 implies Some(#[trigger] repetitions@[j])
            == count_value(args@[2 * j]@) && commands@[j]@ == args@[2 * j + 1]@ by {}
        assert(schedule_matches(args@, repetitions@, commands@));
    }
    Ok((repetitions, commands))
}

/// The options of one run: where the state file lives, and the schedule.
pub struct CliOption {
    pub directory: String,
    pub repetitions: Vec<usize>,
    pub commands: Vec<String>,
}

/// Decides the options of a run from what the command line held: whether
/// help was asked for, the directory given if any, and the free arguments.
/// Asking for help yields an empty message, so that only the usage is shown.
pub fn options_from(help: bool, directory: Option<String>, free: &Vec<String>) -> (r: Result<
    CliOption,
    String,
>)
    ensures
        help ==> (r matches Err(m) && m@.len() == 0),
        !help ==> (r.is_ok() <==> commands_valid(free@)),
        !help ==> (r matches Err(m) ==> commands_error(free@, m@)),
        r matches Ok(o) ==> schedule_matches(free@, o.repetitions@, o.commands@),
        r matches Ok(o) ==> o.directory@ == match directory {
            Some(d) => d@,
            None => DEFAULT_DIRECTORY@,
        },
{
    if help {
        return Err(String::new());
    }
    let dir = match directory {
        Some(d) => d,
        None => String::from_str(DEFAULT_DIRECTORY),
    };
    match parse_commands(free) {
        Ok((repetitions, commands)) => Ok(CliOption { directory: dir, repetitions, commands }),
        Err(e) => Err(e),
    }
}

} // verus!
