//! The command line: what the arguments ask for, and which rendering answers a run.
//!
//! ```text
//! yahucode <file.yahu>            run; print OFFICIAL vs ACTUAL faces + discrepancy count
//! yahucode --json <file.yahu>     run; print the structured projection as JSON
//! yahucode --press <file.yahu>    the public build: press release + rewritten comments
//! yahucode --audience R <file>    one in-world room's view (R = domestic|international)
//! yahucode -                      read the program from stdin
//! ```

use vstd::prelude::*;
use vstd::string::*;
use crate::model::Audience;
use crate::text::{cat, cat3, chars_of, owned, str_eq};

verus! {

/// Which rendering answers a run.
#[derive(Clone, Copy, Debug, PartialEq, Eq, Structural)]
pub enum Output {
    /// The two/three faces and the discrepancy count.
    Diff,
    /// The structured projection as JSON.
    Json,
    /// The press-release build with the rewritten comments.
    Press,
    /// One in-world room's PUBLIC view.
    Room(Audience),
}

/// A run to perform: the source path (`-` for stdin) and the rendering.
#[derive(Clone, Debug, PartialEq)]
pub struct Invocation {
    pub path: String,
    pub output: Output,
}

/// What the arguments ask for.
#[derive(Clone, Debug, PartialEq)]
pub enum Command {
    Help,
    Run(Invocation),
}

/// A malformed command line.
#[derive(Clone, Debug, PartialEq)]
pub enum ArgError {
    /// `--audience` with nothing after it.
    MissingRoom,
    /// `--audience` followed by something other than a room.
    UnknownRoom(String),
    /// A `--` flag that is not known.
    UnknownFlag(String),
    /// More than one input path.
    MultipleInputs,
    /// No input path.
    NoInput,
}

/// The usage text.
pub const USAGE: &'static str = "YahuCode \u{2014} the run is the diff.\n\nusage:\n  yahucode <file.yahu>         run; print OFFICIAL vs ACTUAL faces + discrepancy count\n  yahucode --json <file.yahu>  run; print the structured projection as JSON\n  yahucode --press <file.yahu> the public build: press release + rewritten comments\n  yahucode --audience R <file> one in-world room's view (R = domestic|international)\n  yahucode -                   read the program from stdin";

impl ArgError {
    /// The message printed for the error.
    pub fn message(&self) -> (r: String)
        ensures
            r@ == match self {
                ArgError::MissingRoom => "--audience requires a room: domestic|international"@,
                ArgError::UnknownRoom(o) => "unknown audience `"@ + o@ + "` (expected domestic|international)"@,
                ArgError::UnknownFlag(f) => "unknown flag: "@ + f@,
                ArgError::MultipleInputs => "multiple input files given"@,
                ArgError::NoInput => USAGE@,
            },
    {
        match self {
            ArgError::MissingRoom => owned("--audience requires a room: domestic|international"),
            ArgError::UnknownRoom(o) => cat3("unknown audience `", o.as_str(), "` (expected domestic|international)"),
            ArgError::UnknownFlag(f) => cat("unknown flag: ", f.as_str()),
            ArgError::MultipleInputs => owned("multiple input files given"),
            ArgError::NoInput => owned(USAGE),
        }
    }
}

/// Whether an argument looks like a long flag (`--…`).
pub open spec fn flag_like(s: Seq<char>) -> bool {
    s.len() >= 2 && s[0] == '-' && s[1] == '-'
}

fn is_flag_like(s: &str) -> (r: bool)
    ensures
        r == flag_like(s@),
{
    let cs = chars_of(s);
    cs.len() >= 2 && cs[0] == '-' && cs[1] == '-'
}

/// Whether the arguments hold `word`.
pub open spec fn has_arg(args: Seq<String>, word: Seq<char>) -> bool {
    exists|j: int| 0 <= j < args.len() && (#[trigger] args[j])@ == word
}

proof fn lemma_words()
    ensures
        flag_like("--json"@) && flag_like("--press"@) && flag_like("--audience"@) && flag_like("--help"@),
        !flag_like("-h"@) && "-h"@.len() == 2,
        !flag_like("domestic"@) && !flag_like("international"@),
        "domestic"@ != "--json"@ && "domestic"@ != "--press"@,
        "international"@ != "--json"@ && "international"@ != "--press"@,
        "--audience"@ != "--json"@ && "--audience"@ != "--press"@ && "--json"@ != "--press"@,
{
    reveal_strlit("--json");
    reveal_strlit("--press");
    reveal_strlit("--audience");
    reveal_strlit("-h");
    reveal_strlit("--help");
    reveal_strlit("domestic");
    reveal_strlit("international");
    assert("domestic"@[0] != "--json"@[0]);
    assert("international"@[0] != "--json"@[0]);
    assert("--audience"@.len() != "--press"@.len() && "--audience"@.len() != "--json"@.len());
    assert("--json"@.len() != "--press"@.len());
}

/// What a command line asks for, as a value.
pub enum ArgsV {
    Help,
    Run { path: Seq<char>, output: Output },
    MissingRoom,
    UnknownRoom(Seq<char>),
    UnknownFlag(Seq<char>),
    MultipleInputs,
    NoInput,
}

/// The value of a parse of the command line.
pub open spec fn args_v(r: Result<Command, ArgError>) -> ArgsV {
    match r {
        Ok(Command::Help) => ArgsV::Help,
        Ok(Command::Run(inv)) => ArgsV::Run { path: inv.path@, output: inv.output },
        Err(ArgError::MissingRoom) => ArgsV::MissingRoom,
        Err(ArgError::UnknownRoom(o)) => ArgsV::UnknownRoom(o@),
        Err(ArgError::UnknownFlag(f)) => ArgsV::UnknownFlag(f@),
        Err(ArgError::MultipleInputs) => ArgsV::MultipleInputs,
        Err(ArgError::NoInput) => ArgsV::NoInput,
    }
}

/// Reading the arguments from `i` on, with the flags and the path seen so far: `--json`,
/// `--press` and `--audience <room>` set the rendering, `-h`/`--help` asks for the usage
/// at once, any other `--…` word is refused, and exactly one other word is the path.
pub open spec fn scan(
    args: Seq<Seq<char>>,
    i: int,
    json: bool,
    press: bool,
    room: Option<Audience>,
    path: Option<Seq<char>>,
) -> ArgsV
    decreases args.len() - i,
{
    if i < 0 || i >= args.len() {
        match path {
            None => ArgsV::NoInput,
            Some(p) => ArgsV::Run {
                path: p,
                output: if json {
                    Output::Json
                } else if press {
                    Output::Press
                } else {
                    match room {
                        Some(a) => Output::Room(a),
                        None => Output::Diff,
                    }
                },
            },
        }
    } else {
        let a = args[i];
        if a == "--json"@ {
            scan(args, i + 1, true, press, room, path)
        } else if a == "--press"@ {
            scan(args, i + 1, json, true, room, path)
        } else if a == "--audience"@ {
            if i + 1 >= args.len() {
                ArgsV::MissingRoom
            } else if args[i + 1] == "domestic"@ {
                scan(args, i + 2, json, press, Some(Audience::Domestic), path)
            } else if args[i + 1] == "international"@ {
                scan(args, i + 2, json, press, Some(Audience::International), path)
            } else {
                ArgsV::UnknownRoom(args[i + 1])
            }
        } else if a == "-h"@ || a == "--help"@ {
            ArgsV::Help
        } else if flag_like(a) {
            ArgsV::UnknownFlag(a)
        } else {
            match path {
                Some(_) => ArgsV::MultipleInputs,
                None => scan(args, i + 1, json, press, room, Some(a)),
            }
        }
    }
}

/// Read the command line (the arguments after the program name). `--json` takes
/// precedence over `--press`, which takes precedence over `--audience`; `-h`/`--help`
/// asks for the usage at once.
pub fn parse_args(args: &Vec<String>) -> (r: Result<Command, ArgError>)
    ensures
        r matches Ok(Command::Help) ==> has_arg(args@, "-h"@) || has_arg(args@, "--help"@),
        r matches Ok(Command::Run(inv)) ==> {
            &&& has_arg(args@, inv.path@)
            &&& !flag_like(inv.path@)
            &&& (inv.output == Output::Json <==> has_arg(args@, "--json"@))
            &&& (inv.output == Output::Press <==> !has_arg(args@, "--json"@) && has_arg(args@, "--press"@))
            &&& (inv.output is Room ==> has_arg(args@, "--audience"@))
        },
        (args@.len() == 1 && !flag_like(args@[0]@) && args@[0]@ != "-h"@) ==> (r matches Ok(Command::Run(inv)) && inv.path@
            == args@[0]@ && inv.output == Output::Diff),
        args_v(r) == scan(crate::text::views(args@), 0, false, false, None, None),
{
    proof {
        lemma_words();
    }
    let mut json = false;
    let mut press = false;
    let mut room: Option<Audience> = None;
    let mut path: Option<String> = None;
    let mut i: usize = 0;
    while i < args.len()
        invariant
            i <= args.len(),
            json == exists|j: int| 0 <= j < i && (#[trigger] args@[j])@ == "--json"@,
            press == exists|j: int| 0 <= j < i && (#[trigger] args@[j])@ == "--press"@,
            room is Some ==> has_arg(args@, "--audience"@),
            path matches Some(p) ==> has_arg(args@, p@) && !flag_like(p@),
            args@.len() == 1 && !flag_like(args@[0]@) && args@[0]@ != "-h"@ && i == 1 ==> (path matches Some(p) && p@ == args@[0]@),
            args@.len() == 1 && i == 1 ==> room is None,
            i == 0 ==> path is None,
            scan(crate::text::views(args@), i as int, json, press, room, match path {
                Some(p) => Some(p@),
                None => None,
            }) == scan(crate::text::views(args@), 0, false, false, None, None),
        decreases args.len() - i,
    {
        proof {
            lemma_words();
        }
        let a = args[i].as_str();
        if str_eq(a, "--json") {
            json = true;
        } else if str_eq(a, "--press") {
            press = true;
        } else if str_eq(a, "--audience") {
            if i + 1 >= args.len() {
                return Err(ArgError::MissingRoom);
            }
            let which = args[i + 1].as_str();
            if str_eq(which, "domestic") {
                room = Some(Audience::Domestic);
            } else if str_eq(which, "international") {
                room = Some(Audience::International);
            } else {
                return Err(ArgError::UnknownRoom(owned(which)));
            }
            proof {
                assert(args@[i as int]@ == "--audience"@);
                assert(args@[i + 1]@ != "--json"@ && args@[i + 1]@ != "--press"@);
            }
            i = i + 1;
        } else if str_eq(a, "-h") || str_eq(a, "--help") {
            return Ok(Command::Help);
        } else if is_flag_like(a) {
            return Err(ArgError::UnknownFlag(owned(a)));
        } else {
            match path {
                Some(_) => {
                    return Err(ArgError::MultipleInputs);
                },
                None => {
                    path = Some(owned(a));
                },
            }
        }
        i = i + 1;
    }
    match path {
        None => Err(ArgError::NoInput),
        Some(p) => {
            let output = if json {
                Output::Json
            } else if press {
                Output::Press
            } else {
                match room {
                    Some(a) => Output::Room(a),
                    None => Output::Diff,
                }
            };
            Ok(Command::Run(Invocation { path: p, output }))
        },
    }
}

} // verus!
