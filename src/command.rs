//! Turning command-line arguments into a command.

use vstd::prelude::*;

verus! {

/// What the program was asked to do.
pub enum Command {
    Help,
    Version,
    Count { dir: String, patterns: Vec<String> },
}

/// The message for too few arguments.
pub open spec fn usage_text() -> Seq<char> {
    "Usage: count_locs <directory> <glob-patterns>..."@
}

/// The message for an argument list that lacks even the program name.
pub open spec fn invalid_text() -> Seq<char> {
    "Invalid arguments. Use --help for usage information."@
}

/// The flags that ask for help.
pub open spec fn is_help_flag(s: Seq<char>) -> bool {
    s == "--help"@ || s == "-h"@
}

/// The flags that ask for the version.
pub open spec fn is_version_flag(s: Seq<char>) -> bool {
    s == "--version"@ || s == "-v"@
}

/// Reads `args`, the program name first: a lone help or version flag asks for
/// that; a directory followed by at least one pattern asks for a count; one
/// argument or none, or a directory without patterns, is an error.
pub fn parse_command(args: &[String]) -> (r: Result<Command, String>)
    ensures
        match r {
            Ok(Command::Help) => args@.len() == 2 && is_help_flag(args@[1]@),
            Ok(Command::Version) => args@.len() == 2 && !is_help_flag(args@[1]@) && is_version_flag(
                args@[1]@,
            ),
            Ok(Command::Count { dir, patterns }) => args@.len() >= 3 && dir == args@[1]
                && patterns@ == args@.subrange(2, args@.len() as int),
            Err(e) => {
                ||| (args@.len() == 0 && e@ == invalid_text())
                ||| (1 <= args@.len() <= 2 && !(args@.len() == 2 && (is_help_flag(args@[1]@)
                    || is_version_flag(args@[1]@))) && e@ == usage_text())
            },
        },
{
    let n = args.len();
    if n == 0 {
        return Err(String::from_str("Invalid arguments. Use --help for usage information."));
    }
    if n == 2 {
        let flag = &args[1];
        if *flag == String::from_str("--help") || *flag == String::from_str("-h") {
            return Ok(Command::Help);
        }
        if *flag == String::from_str("--version") || *flag == String::from_str("-v") {
            return Ok(Command::Version);
        }
    }
    if n < 3 {
        return Err(String::from_str("Usage: count_locs <directory> <glob-patterns>..."));
    }
    let mut patterns: Vec<String> = Vec::new();
    let mut k: usize = 2;
    while k < n
        invariant
            2 <= k <= n,
            n == args@.len(),
            patterns@ == args@.subrange(2, k as int),
        decreases n - k,
    {
        patterns.push(args[k].clone());
        proof {
            assert(args@.subrange(2, k + 1) =~= args@.subrange(2, k as int).push(args@[k as int]));
        }
        k += 1;
    }
    Ok(Command::Count { dir: args[1].clone(), patterns })
}

} // verus!
