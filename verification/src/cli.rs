//! The command line of the installations manager:
//! `installs list|new|set_current <arguments> [base_path]`.
use crate::text::{
    chars_start_with, parse_unsigned, parse_usize_chars, starts_with, str_eq, strings_view, to_chars,
};
use vstd::prelude::*;

verus! {

/// A subcommand of `installs`.
#[derive(Clone, Copy, Debug, PartialEq, Eq, Structural)]
pub enum InstallsCommand {
    List,
    New,
    SetCurrent,
}

/// Why a command line was refused.
#[derive(Clone, Copy, Debug, PartialEq, Eq, Structural)]
pub enum CliError {
    /// No command, or no subcommand.
    NotEnoughArguments,
    /// The command is not `installs`.
    InvalidCommand,
    /// The subcommand is not one of `list`, `new`, `set_current`.
    UnknownSubcommand,
    /// A flag where none is expected.
    UnexpectedFlag,
    /// An argument after the base path.
    UnexpectedArgument,
    /// The version index is not an unsigned integer.
    InvalidIndex,
}

/// The subcommand named `s`.
pub open spec fn subcommand_of(s: Seq<char>) -> Option<InstallsCommand> {
    if s == "list"@ {
        Some(InstallsCommand::List)
    } else if s == "new"@ {
        Some(InstallsCommand::New)
    } else if s == "set_current"@ {
        Some(InstallsCommand::SetCurrent)
    } else {
        None
    }
}

/// The command line `args` (the program's name first) read as
/// `installs <subcommand> <rest>`: the subcommand and where its arguments start.
pub open spec fn command_line(args: Seq<Seq<char>>) -> Result<(InstallsCommand, nat), CliError> {
    if args.len() <= 1 {
        Err(CliError::NotEnoughArguments)
    } else if args[1] != "installs"@ {
        Err(CliError::InvalidCommand)
    } else if args.len() < 3 {
        Err(CliError::NotEnoughArguments)
    } else {
        match subcommand_of(args[2]) {
            Some(c) => Ok((c, 3)),
            None => Err(CliError::UnknownSubcommand),
        }
    }
}

/// Read the command line: the subcommand of `installs` and its arguments.
pub fn parse_command_line(args: &Vec<String>) -> (r: Result<(InstallsCommand, Vec<String>), CliError>)
    ensures
        match command_line(strings_view(args@)) {
            Ok((c, k)) => r matches Ok((rc, rest)) && rc == c && strings_view(rest@) == strings_view(args@).skip(
                k as int,
            ),
            Err(e) => r == Err::<(InstallsCommand, Vec<String>), CliError>(e),
        },
{
    if args.len() <= 1 {
        return Err(CliError::NotEnoughArguments);
    }
    assert(strings_view(args@)[1] == args@[1]@);
    if !str_eq(args[1].as_str(), "installs") {
        return Err(CliError::InvalidCommand);
    }
    if args.len() < 3 {
        return Err(CliError::NotEnoughArguments);
    }
    assert(strings_view(args@)[2] == args@[2]@);
    let sub = args[2].as_str();
    let c = if str_eq(sub, "list") {
        InstallsCommand::List
    } else if str_eq(sub, "new") {
        InstallsCommand::New
    } else if str_eq(sub, "set_current") {
        InstallsCommand::SetCurrent
    } else {
        return Err(CliError::UnknownSubcommand);
    };
    let mut rest: Vec<String> = Vec::new();
    let mut i: usize = 3;
    while i < args.len()
        invariant
            3 <= i <= args@.len(),
            strings_view(rest@) == strings_view(args@).subrange(3, i as int),
        decreases args@.len() - i,
    {
        let ghost before = rest@;
        rest.push(args[i].clone());
        assert(strings_view(rest@) =~= strings_view(before).push(args@[i as int]@));
        assert(strings_view(args@).subrange(3, i as int + 1) =~= strings_view(args@).subrange(3, i as int).push(
            args@[i as int]@,
        ));
        i = i + 1;
    }
    assert(strings_view(args@).subrange(3, args@.len() as int) =~= strings_view(args@).skip(3));
    Ok((c, rest))
}

/// The base path of `installs list`: the only argument, `.` when there is none.
pub open spec fn list_args(args: Seq<Seq<char>>) -> Result<Seq<char>, CliError> {
    if args.len() == 0 {
        Ok("."@)
    } else if starts_with(args[0], "--"@) {
        Err(CliError::UnexpectedFlag)
    } else if args.len() > 1 {
        Err(CliError::UnexpectedArgument)
    } else {
        Ok(args[0])
    }
}

pub fn parse_list_args(args: &Vec<String>) -> (r: Result<String, CliError>)
    ensures
        match list_args(strings_view(args@)) {
            Ok(p) => r matches Ok(rp) && rp@ == p,
            Err(e) => r == Err::<String, CliError>(e),
        },
{
    if args.len() == 0 {
        return Ok(".".to_owned());
    }
    assert(strings_view(args@)[0] == args@[0]@);
    let a = to_chars(args[0].as_str());
    let dashes = to_chars("--");
    if chars_start_with(&a, &dashes) {
        return Err(CliError::UnexpectedFlag);
    }
    if args.len() > 1 {
        return Err(CliError::UnexpectedArgument);
    }
    Ok(args[0].clone())
}

/// Where the reading of the arguments of `installs new` stands.
#[derive(Clone, Copy, Debug, PartialEq, Eq, Structural)]
pub enum NewArgsState {
    ExpectPathOrFlag,
    ExpectingBranch,
    NotExpectingAnything,
}

/// What the arguments of `installs new` read so far say: the state, the
/// branch, the base path and whether the viewer is installed.
pub type NewArgs = (NewArgsState, Seq<char>, Seq<char>, bool);

/// One argument of `installs new`: `--branch <name>`, `--no-viewer`, or the
/// base path, after which nothing may follow.
pub open spec fn new_args_step(s: NewArgs, arg: Seq<char>) -> Result<NewArgs, CliError> {
    match s.0 {
        NewArgsState::ExpectPathOrFlag => if arg == "--branch"@ {
            Ok((NewArgsState::ExpectingBranch, s.1, s.2, s.3))
        } else if arg == "--no-viewer"@ {
            Ok((NewArgsState::ExpectPathOrFlag, s.1, s.2, false))
        } else {
            Ok((NewArgsState::NotExpectingAnything, s.1, arg, s.3))
        },
        NewArgsState::ExpectingBranch => Ok((NewArgsState::ExpectPathOrFlag, arg, s.2, s.3)),
        NewArgsState::NotExpectingAnything => Err(CliError::UnexpectedArgument),
    }
}

/// The arguments of `installs new` read in turn; the branch is `dev`, the
/// base path `.` and the viewer installed unless the arguments say otherwise.
pub open spec fn new_args(args: Seq<Seq<char>>) -> Result<NewArgs, CliError>
    decreases args.len(),
{
    if args.len() == 0 {
        Ok((NewArgsState::ExpectPathOrFlag, "dev"@, "."@, true))
    } else {
        match new_args(args.drop_last()) {
            Ok(s) => new_args_step(s, args.last()),
            Err(e) => Err(e),
        }
    }
}

/// Read the arguments of `installs new`: the branch, the base path and
/// whether to install the viewer.
pub fn parse_new_args(args: &Vec<String>) -> (r: Result<(String, String, bool), CliError>)
    ensures
        match new_args(strings_view(args@)) {
            Ok(s) => r matches Ok((b, p, v)) && b@ == s.1 && p@ == s.2 && v == s.3,
            Err(e) => r == Err::<(String, String, bool), CliError>(e),
        },
{
    let mut state = NewArgsState::ExpectPathOrFlag;
    let mut branch = "dev".to_owned();
    let mut base_path = ".".to_owned();
    let mut viewer = true;
    let mut i: usize = 0;
    while i < args.len()
        invariant
            i <= args@.len(),
            new_args(strings_view(args@).take(i as int)) == Ok::<NewArgs, CliError>(
                (state, branch@, base_path@, viewer),
            ),
        decreases args@.len() - i,
    {
        assert(strings_view(args@).take(i as int + 1).drop_last() =~= strings_view(args@).take(i as int));
        assert(strings_view(args@).take(i as int + 1).last() == args@[i as int]@);
        let arg = args[i].as_str();
        match state {
            NewArgsState::ExpectPathOrFlag => {
                if str_eq(arg, "--branch") {
                    state = NewArgsState::ExpectingBranch;
                } else if str_eq(arg, "--no-viewer") {
                    viewer = false;
                } else {
                    base_path = arg.to_owned();
                    state = NewArgsState::NotExpectingAnything;
                }
            },
            NewArgsState::ExpectingBranch => {
                branch = arg.to_owned();
                state = NewArgsState::ExpectPathOrFlag;
            },
            NewArgsState::NotExpectingAnything => {
                proof {
                    lemma_new_args_error_sticks(strings_view(args@), i as int + 1);
                }
                return Err(CliError::UnexpectedArgument);
            },
        }
        i = i + 1;
    }
    assert(strings_view(args@).take(args@.len() as int) =~= strings_view(args@));
    Ok((branch, base_path, viewer))
}

/// Once the reading of `installs new` fails, it stays failed.
proof fn lemma_new_args_error_sticks(args: Seq<Seq<char>>, k: int)
    requires
        0 <= k <= args.len(),
        new_args(args.take(k)) is Err,
    ensures
        new_args(args) == new_args(args.take(k)),
    decreases args.len() - k,
{
    if k == args.len() {
        assert(args.take(k) =~= args);
    } else {
        assert(args.take(k + 1).drop_last() =~= args.take(k));
        lemma_new_args_error_sticks(args, k + 1);
    }
}

/// The arguments of `installs set_current`: an optional version index and
/// then the base path (`.` when there is none).
pub open spec fn set_current_args(args: Seq<Seq<char>>) -> Result<(Option<usize>, Seq<char>), CliError> {
    if args.len() == 0 {
        Ok((None, "."@))
    } else if parse_unsigned(args[0], usize::MAX as nat) is None {
        Err(CliError::InvalidIndex)
    } else if args.len() > 2 {
        Err(CliError::UnexpectedArgument)
    } else {
        Ok(
            (
                Some(parse_unsigned(args[0], usize::MAX as nat)->0 as usize),
                if args.len() == 2 {
                    args[1]
                } else {
                    "."@
                },
            ),
        )
    }
}

pub fn parse_set_current_args(args: &Vec<String>) -> (r: Result<(Option<usize>, String), CliError>)
    ensures
        match set_current_args(strings_view(args@)) {
            Ok((idx, p)) => r matches Ok((ri, rp)) && ri == idx && rp@ == p,
            Err(e) => r == Err::<(Option<usize>, String), CliError>(e),
        },
{
    if args.len() == 0 {
        return Ok((None, ".".to_owned()));
    }
    assert(strings_view(args@)[0] == args@[0]@);
    let a = to_chars(args[0].as_str());
    let index = match parse_usize_chars(&a) {
        Some(i) => i,
        None => {
            return Err(CliError::InvalidIndex);
        },
    };
    if args.len() > 2 {
        return Err(CliError::UnexpectedArgument);
    }
    if args.len() == 2 {
        assert(strings_view(args@)[1] == args@[1]@);
        Ok((Some(index), args[1].clone()))
    } else {
        Ok((Some(index), ".".to_owned()))
    }
}

/// The version that `set_current` makes current among `count` versions: the
/// given index, or the last version when none is given; `None` when out of range.
pub open spec fn version_to_make_current(index: Option<usize>, count: usize) -> Option<usize> {
    let i = match index {
        Some(i) => i as int,
        None => if count > 0 {
            count - 1
        } else {
            0
        },
    };
    if i < count {
        Some(i as usize)
    } else {
        None
    }
}

pub fn resolve_version_index(index: Option<usize>, count: usize) -> (r: Option<usize>)
    ensures
        r == version_to_make_current(index, count),
{
    let i = match index {
        Some(i) => i,
        None => if count > 0 {
            count - 1
        } else {
            0
        },
    };
    if i < count {
        Some(i)
    } else {
        None
    }
}

} // verus!
