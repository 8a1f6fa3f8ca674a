//! The command line: at most one argument, which names a mode or an option.

use crate::text::{chars_of, same_text};
use vstd::prelude::*;
use vstd::string::*;

verus! {

pub const SHORT_USAGE: &'static str = "Usage: ami-code [shell|nvim|pi]";

#[derive(Debug, Clone, Copy, PartialEq, Eq, Structural)]
pub enum LaunchMode {
    Shell,
    Nvim,
    Pi,
    Workbench,
}

impl LaunchMode {
    pub fn is_workbench(self) -> (workbench: bool)
        ensures
            workbench == (self == LaunchMode::Workbench),
    {
        self == LaunchMode::Workbench
    }
}

#[derive(Debug, Clone, PartialEq, Eq)]
pub enum Command {
    Run { mode: LaunchMode, warning: Option<&'static str> },
    Help,
    Version,
}

/// A command, with the warning as text.
pub enum CommandView {
    Run { mode: LaunchMode, warning: Option<Seq<char>> },
    Help,
    Version,
}

impl View for Command {
    type V = CommandView;

    open spec fn view(&self) -> CommandView {
        match self {
            Command::Run { mode, warning } => CommandView::Run {
                mode: *mode,
                warning: match warning {
                    Some(text) => Some(text@),
                    None => None,
                },
            },
            Command::Help => CommandView::Help,
            Command::Version => CommandView::Version,
        }
    }
}

#[derive(Debug, Clone, PartialEq, Eq)]
pub struct ParseError(String);

impl View for ParseError {
    type V = Seq<char>;

    closed spec fn view(&self) -> Seq<char> {
        self.0@
    }
}

impl ParseError {
    fn new(message: String) -> (error: ParseError)
        ensures
            error@ == message@,
    {
        ParseError(message)
    }

    /// The message to show to the user.
    pub fn message(&self) -> (message: String)
        ensures
            message@ == self@,
    {
        self.0.clone()
    }
}

/// The arguments as texts.
pub open spec fn texts(args: Seq<&str>) -> Seq<Seq<char>> {
    args.map_values(|arg: &str| arg@)
}

/// Whether an argument selects a mode, under its name or an alias.
pub open spec fn is_mode_name(arg: Seq<char>) -> bool {
    ||| arg == "shell"@
    ||| arg == "nvim"@
    ||| arg == "pi"@
    ||| arg == "multi"@
    ||| arg == "--multi"@
    ||| arg == "--nvim"@
    ||| arg == "--pi"@
}

/// The run command of a mode, with the warning that an alias brings.
pub open spec fn run_command(mode: LaunchMode, warning: Option<Seq<char>>) -> Result<
    CommandView,
    Seq<char>,
> {
    Ok(CommandView::Run { mode, warning })
}

/// What a single argument means, or the message that refuses it.
pub open spec fn single_argument(arg: Seq<char>) -> Result<CommandView, Seq<char>> {
    if arg == "shell"@ {
        run_command(LaunchMode::Shell, None)
    } else if arg == "nvim"@ {
        run_command(LaunchMode::Nvim, None)
    } else if arg == "pi"@ {
        run_command(LaunchMode::Pi, None)
    } else if arg == "multi"@ {
        run_command(
            LaunchMode::Workbench,
            Some("`multi` is deprecated; use `ami-code` (with no mode)"@),
        )
    } else if arg == "--multi"@ {
        run_command(
            LaunchMode::Workbench,
            Some("`--multi` is deprecated; use `ami-code` (with no mode)"@),
        )
    } else if arg == "--nvim"@ {
        run_command(LaunchMode::Nvim, Some("`--nvim` is deprecated; use `ami-code nvim`"@))
    } else if arg == "--pi"@ {
        run_command(LaunchMode::Pi, Some("`--pi` is deprecated; use `ami-code pi`"@))
    } else if arg == "-h"@ || arg == "--help"@ {
        Ok(CommandView::Help)
    } else if arg == "-V"@ || arg == "--version"@ {
        Ok(CommandView::Version)
    } else if arg.len() > 0 && arg[0] == '-' {
        Err("unknown option `"@ + arg + "`"@)
    } else {
        Err("unknown mode `"@ + arg + "`"@)
    }
}

/// What the arguments after the executable name mean.
pub open spec fn parsed(args: Seq<Seq<char>>) -> Result<CommandView, Seq<char>> {
    if args.len() == 0 {
        run_command(LaunchMode::Workbench, None)
    } else if args.len() == 1 {
        single_argument(args[0])
    } else if is_mode_name(args[0]) && is_mode_name(args[1]) {
        Err("mode specified more than once: `"@ + args[0] + "` and `"@ + args[1] + "`"@)
    } else {
        Err("unexpected extra argument `"@ + args[1] + "`"@)
    }
}

/// Parses arguments after the executable name.
///
/// Exactly zero or one argument is accepted: backend arguments are not passed
/// through.
pub fn parse_args(args: &[&str]) -> (result: Result<Command, ParseError>)
    ensures
        match result {
            Ok(command) => parsed(texts(args@)) == Ok::<CommandView, Seq<char>>(command@),
            Err(error) => parsed(texts(args@)) == Err::<CommandView, Seq<char>>(error@),
        },
{
    if args.len() == 0 {
        return Ok(Command::Run { mode: LaunchMode::Workbench, warning: None });
    }
    let first: &str = args[0];
    if args.len() > 1 {
        let second: &str = args[1];
        if is_mode(first) && is_mode(second) {
            let mut message = "mode specified more than once: `".to_owned();
            message.append(first);
            message.append("` and `");
            message.append(second);
            message.append("`");
            return Err(ParseError::new(message));
        }
        return Err(ParseError::new(quoted("unexpected extra argument `", second)));
    }
    parse_single(first)
}

/// Parses the only argument of the command line.
fn parse_single(argument: &str) -> (result: Result<Command, ParseError>)
    ensures
        match result {
            Ok(command) => single_argument(argument@) == Ok::<CommandView, Seq<char>>(command@),
            Err(error) => single_argument(argument@) == Err::<CommandView, Seq<char>>(error@),
        },
{
    let (mode, warning): (LaunchMode, Option<&'static str>) = if same_text(argument, "shell") {
        (LaunchMode::Shell, None)
    } else if same_text(argument, "nvim") {
        (LaunchMode::Nvim, None)
    } else if same_text(argument, "pi") {
        (LaunchMode::Pi, None)
    } else if same_text(argument, "multi") {
        (LaunchMode::Workbench, Some("`multi` is deprecated; use `ami-code` (with no mode)"))
    } else if same_text(argument, "--multi") {
        (LaunchMode::Workbench, Some("`--multi` is deprecated; use `ami-code` (with no mode)"))
    } else if same_text(argument, "--nvim") {
        (LaunchMode::Nvim, Some("`--nvim` is deprecated; use `ami-code nvim`"))
    } else if same_text(argument, "--pi") {
        (LaunchMode::Pi, Some("`--pi` is deprecated; use `ami-code pi`"))
    } else if same_text(argument, "-h") || same_text(argument, "--help") {
        return Ok(Command::Help);
    } else if same_text(argument, "-V") || same_text(argument, "--version") {
        return Ok(Command::Version);
    } else {
        let chars = chars_of(argument);
        if chars.len() > 0 && chars[0] == '-' {
            return Err(ParseError::new(quoted("unknown option `", argument)));
        }
        return Err(ParseError::new(quoted("unknown mode `", argument)));
    };
    Ok(Command::Run { mode, warning })
}

/// `lead`, which opens a quotation, then the argument and the closing quote.
fn quoted(lead: &str, argument: &str) -> (message: String)
    ensures
        message@ == lead@ + argument@ + "`"@,
{
    let mut message = lead.to_owned();
    message.append(argument);
    message.append("`");
    message
}

fn is_mode(argument: &str) -> (mode: bool)
    ensures
        mode == is_mode_name(argument@),
{
    same_text(argument, "shell") || same_text(argument, "nvim") || same_text(argument, "pi")
        || same_text(argument, "multi") || same_text(argument, "--multi")
        || same_text(argument, "--nvim") || same_text(argument, "--pi")
}

/// An argument that names a mode is accepted alone, and a second one is never
/// accepted, whatever the two are.
pub proof fn at_most_one_argument(args: Seq<Seq<char>>)
    ensures
        args.len() >= 2 ==> parsed(args) is Err,
        args.len() == 1 && is_mode_name(args[0]) ==> (parsed(args) matches Ok(command)
            && command is Run),
{
}

/// The three modes have no warning under their own names; every alias has one.
pub proof fn only_aliases_warn(arg: Seq<char>, mode: LaunchMode, warning: Option<Seq<char>>)
    requires
        single_argument(arg) == run_command(mode, warning),
    ensures
        is_mode_name(arg),
        warning is None <==> (arg == "shell"@ || arg == "nvim"@ || arg == "pi"@),
{
}

/// A mode is chosen by its name, and by the older name after two dashes, which
/// warns. Without an argument, and under the older names for it, the workbench
/// is chosen. Nothing else chooses a mode.
pub proof fn modes_are_chosen_by_name(arg: Seq<char>, mode: LaunchMode)
    ensures
        (parsed(seq![arg]) matches Ok(CommandView::Run { mode: chosen, .. }) && chosen == mode)
            <==> match mode {
            LaunchMode::Shell => arg == "shell"@,
            LaunchMode::Nvim => arg == "nvim"@ || arg == "--nvim"@,
            LaunchMode::Pi => arg == "pi"@ || arg == "--pi"@,
            LaunchMode::Workbench => arg == "multi"@ || arg == "--multi"@,
        },
        parsed(Seq::empty()) == run_command(LaunchMode::Workbench, None),
{
    reveal_strlit("shell");
    reveal_strlit("nvim");
    reveal_strlit("pi");
    reveal_strlit("multi");
    reveal_strlit("--multi");
    reveal_strlit("--nvim");
    reveal_strlit("--pi");
    assert("shell"@.len() == 5 && "nvim"@.len() == 4 && "pi"@.len() == 2 && "multi"@.len() == 5);
    assert("--multi"@.len() == 7 && "--nvim"@.len() == 6 && "--pi"@.len() == 4);
    assert("shell"@[0] == 's' && "multi"@[0] == 'm' && "nvim"@[0] == 'n' && "--pi"@[0] == '-');
}

/// What is not understood is quoted in the message that refuses it: as an option
/// if it starts with a dash, and as a mode otherwise.
pub proof fn refusals_quote_the_argument(arg: Seq<char>)
    requires
        parsed(seq![arg]) is Err,
    ensures
        ({
            let message = parsed(seq![arg])->Err_0;
            &&& arg.len() > 0 && arg[0] == '-' ==> message == "unknown option `"@ + arg + "`"@
            &&& !(arg.len() > 0 && arg[0] == '-') ==> message == "unknown mode `"@ + arg + "`"@
            &&& !is_mode_name(arg)
        }),
{
}

/// Of two arguments the second is quoted in the refusal, and the first too where
/// both are modes.
pub proof fn second_arguments_are_quoted(first: Seq<char>, second: Seq<char>)
    ensures
        ({
            let message = parsed(seq![first, second])->Err_0;
            &&& is_mode_name(first) && is_mode_name(second) ==> message
                == "mode specified more than once: `"@ + first + "` and `"@ + second + "`"@
            &&& !(is_mode_name(first) && is_mode_name(second)) ==> message
                == "unexpected extra argument `"@ + second + "`"@
        }),
{
}

} // verus!
