//! Parsing of the administrative client's command-line arguments.

use vstd::prelude::*;

verus! {

/// What the administrative client was asked to do.
#[derive(Clone, Debug, PartialEq, Eq)]
pub enum Command {
    /// Change one named setting to the given value.
    Configure { setting: String, value: String },
    /// Check for and install a newer release.
    Update,
    /// Report the daemon's status.
    Status,
}

/// The mathematical value of a [`Command`].
#[verifier::ext_equal]
pub enum CommandView {
    Configure { setting: Seq<char>, value: Seq<char> },
    Update,
    Status,
}

impl View for Command {
    type V = CommandView;

    open spec fn view(&self) -> CommandView {
        match *self {
            Command::Configure { setting, value } => CommandView::Configure {
                setting: setting@,
                value: value@,
            },
            Command::Update => CommandView::Update,
            Command::Status => CommandView::Status,
        }
    }
}

/// Why the arguments did not parse.
#[derive(Clone, Debug, PartialEq, Eq)]
pub enum ParseError {
    /// A command was given without one of its required arguments.
    MissingArgument { name: String },
    /// No command argument was given at all.
    MissingCommand,
    /// The command word is not one the client knows.
    UnknownCommand(String),
}

/// The mathematical value of a [`ParseError`].
#[verifier::ext_equal]
pub enum ParseErrorView {
    MissingArgument { name: Seq<char> },
    MissingCommand,
    UnknownCommand(Seq<char>),
}

impl View for ParseError {
    type V = ParseErrorView;

    open spec fn view(&self) -> ParseErrorView {
        match *self {
            ParseError::MissingArgument { name } => ParseErrorView::MissingArgument {
                name: name@,
            },
            ParseError::MissingCommand => ParseErrorView::MissingCommand,
            ParseError::UnknownCommand(word) => ParseErrorView::UnknownCommand(word@),
        }
    }
}

/// The views of the argument strings, in order.
pub open spec fn args_view(args: Seq<String>) -> Seq<Seq<char>> {
    args.map(|i: int, s: String| s@)
}

/// What parsing the arguments yields; arguments past those a command needs
/// are ignored.
pub open spec fn parse_spec(args: Seq<Seq<char>>) -> Result<CommandView, ParseErrorView> {
    if args.len() == 0 {
        Err(ParseErrorView::MissingCommand)
    } else if args[0] == "configure"@ {
        if args.len() < 2 {
            Err(ParseErrorView::MissingArgument { name: "setting"@ })
        } else if args.len() < 3 {
            Err(ParseErrorView::MissingArgument { name: "value"@ })
        } else {
            Ok(CommandView::Configure { setting: args[1], value: args[2] })
        }
    } else if args[0] == "status"@ {
        Ok(CommandView::Status)
    } else if args[0] == "update"@ {
        Ok(CommandView::Update)
    } else {
        Err(ParseErrorView::UnknownCommand(args[0]))
    }
}

/// Whether the string equals the literal.
fn word_is(word: &String, lit: &str) -> (r: bool)
    ensures
        r == (word@ == lit@),
{
    let other: String = lit.to_owned();
    *word == other
}

impl Command {
    /// Parses the command-line arguments, program name excluded.
    pub fn parse(arguments: &Vec<String>) -> (r: Result<Command, ParseError>)
        ensures
            match r {
                Ok(c) => parse_spec(args_view(arguments@)) == Ok::<CommandView, ParseErrorView>(
                    c@,
                ),
                Err(e) => parse_spec(args_view(arguments@)) == Err::<CommandView, ParseErrorView>(
                    e@,
                ),
            },
    {
        if arguments.len() == 0 {
            return Err(ParseError::MissingCommand);
        }
        let word = &arguments[0];
        proof {
            assert(args_view(arguments@)[0] == word@);
        }
        if word_is(word, "configure") {
            if arguments.len() < 2 {
                return Err(ParseError::MissingArgument { name: "setting".to_owned() });
            }
            if arguments.len() < 3 {
                return Err(ParseError::MissingArgument { name: "value".to_owned() });
            }
            proof {
                assert(args_view(arguments@)[1] == arguments@[1]@);
                assert(args_view(arguments@)[2] == arguments@[2]@);
            }
            Ok(
                Command::Configure {
                    setting: arguments[1].clone(),
                    value: arguments[2].clone(),
                },
            )
        } else if word_is(word, "status") {
            Ok(Command::Status)
        } else if word_is(word, "update") {
            Ok(Command::Update)
        } else {
            Err(ParseError::UnknownCommand(word.clone()))
        }
    }
}

} // verus!
