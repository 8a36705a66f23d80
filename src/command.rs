//! The command to run once everything is ready: a program and its arguments,
//! split from one command line by shell rules.
use crate::text::{trim, trimmed, views};
use vstd::prelude::*;

verus! {

#[verifier::external_type_specification]
#[verifier::external_body]
pub struct ExShellParseError(shell_words::ParseError);

/// The words that `shell_words::split` makes of a text, or `None` where it
/// refuses the text.
pub uninterp spec fn shell_words_of(s: Seq<char>) -> Option<Seq<Seq<char>>>;

/// Relies on `shell_words::split`: it splits a text into words by POSIX shell
/// rules (quotes grouped and stripped, backslash escapes), and fails only on a
/// quote left open. Its result depends on the text alone.
#[verifier::external_body]
fn split_shell_words(s: &str) -> (r: Result<Vec<String>, shell_words::ParseError>)
    ensures
        match r {
            Ok(words) => shell_words_of(s@) == Some(views(words@)),
            Err(_) => shell_words_of(s@) is None,
        },
{
    shell_words::split(s)
}

/// A program to run and the arguments it gets, the program not among them.
pub struct Command {
    pub program: String,
    pub argv: Vec<String>,
}

/// A command line that cannot be split into words: a quote is left open.
#[derive(Debug, Clone, Copy, PartialEq, Eq)]
pub struct CommandParseError {}

impl CommandParseError {
    /// What went wrong, for a person to read.
    pub fn message(&self) -> (r: String)
        ensures
            r@ == "missing closing quote"@,
    {
        String::from_str("missing closing quote")
    }
}

/// What `parse_command` owes for the command line `raw`.
///
/// A line that is empty or all whitespace is no command. Otherwise the
/// trimmed line is split into shell words: where that fails the line is an
/// error; where it gives no word (a line that is all comment) it is no
/// command; else the first word is the program, the others are its
/// arguments, and the trimmed line is kept beside them as it was written.
pub open spec fn parsed_command(
    raw: Seq<char>,
    r: Result<Option<(Command, String)>, CommandParseError>,
) -> bool {
    let line = trimmed(raw);
    if line.len() == 0 {
        r == Ok::<Option<(Command, String)>, CommandParseError>(None)
    } else {
        match shell_words_of(line) {
            None => r is Err,
            Some(words) => if words.len() == 0 {
                r == Ok::<Option<(Command, String)>, CommandParseError>(None)
            } else {
                &&& r is Ok
                &&& r->Ok_0 is Some
                &&& r->Ok_0->Some_0.0.program@ == words[0]
                &&& views(r->Ok_0->Some_0.0.argv@) == words.drop_first()
                &&& r->Ok_0->Some_0.1@ == line
            },
        }
    }
}

/// Parses a command line into the program to run, its arguments and the
/// trimmed line itself (kept for display, quotes and all).
pub fn parse_command(raw_cmd: &str) -> (r: Result<Option<(Command, String)>, CommandParseError>)
    ensures
        parsed_command(raw_cmd@, r),
{
    let command_string = trim(raw_cmd);
    if command_string.unicode_len() == 0 {
        return Ok(None);
    }
    let mut argv = match split_shell_words(command_string.as_str()) {
        Ok(words) => words,
        Err(_) => {
            return Err(CommandParseError {});
        },
    };
    if argv.len() == 0 {
        return Ok(None);
    }
    let ghost words = argv@;
    let program = argv.remove(0);
    assert(views(argv@) =~= views(words).drop_first());
    Ok(Some((Command { program, argv }, command_string)))
}

} // verus!
