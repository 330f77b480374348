//! Command-line decisions: which file to run, and whether to watch it.

use crate::text::{chars_of, string_of};
use vstd::prelude::*;

verus! {

/// Why the arguments were refused.
#[derive(PartialEq, Eq, Clone, Copy, Debug, Structural)]
pub enum ArgsError {
    /// No script was named.
    Missing,
    /// The arguments fit no accepted form.
    Unrecognized,
}

/// The decision on the arguments (the program's name first): `-w <file>`
/// (any arguments after the file are ignored) or `--watch <file>` (nothing
/// after it) runs and watches the file; a single `<file>` runs it once.
pub open spec fn args_decision(args: Seq<Seq<char>>) -> Result<(bool, Seq<char>), ArgsError> {
    if args.len() < 2 {
        Err(ArgsError::Missing)
    } else if (args.len() == 3 && args[1] == "--watch"@) || (args[1] == "-w"@ && args.len() >= 3) {
        Ok((true, args[2]))
    } else if args.len() == 2 && args[1] != "-w"@ {
        Ok((false, args[1]))
    } else {
        Err(ArgsError::Unrecognized)
    }
}

/// Decides what to run from the command-line arguments.
pub fn parse_args(args: &Vec<String>) -> (r: Result<(bool, String), ArgsError>)
    ensures
        match (r, args_decision(args@.map_values(|a: String| a@))) {
            (Ok((w, f)), Ok((sw, sf))) => w == sw && f@ == sf,
            (Err(e), Err(se)) => e == se,
            _ => false,
        },
{
    let ghost v = args@.map_values(|a: String| a@);
    if args.len() < 2 {
        return Err(ArgsError::Missing);
    }
    let watch = string_of(&chars_of("--watch"));
    let short = string_of(&chars_of("-w"));
    assert(v[1] == args@[1]@ && v.len() == args@.len());
    if (args.len() == 3 && args[1] == watch) || (args[1] == short && args.len() >= 3) {
        assert(v[2] == args@[2]@);
        return Ok((true, args[2].clone()));
    }
    if args.len() == 2 && args[1] != short {
        return Ok((false, args[1].clone()));
    }
    Err(ArgsError::Unrecognized)
}

} // verus!
