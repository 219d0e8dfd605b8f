//! The commands a client sends, and the replies the server writes for them.

use vstd::prelude::*;
use vstd::string::{StrSliceExecFns, StringExecFns};
use crate::text::{chars_of, equals_at, has_prefix_at, trim, trim_bounds};

verus! {

broadcast use vstd::string::group_string_axioms;

/// A command a client can send.
#[derive(Debug, PartialEq)]
pub enum Command {
    /// `ECHO <message>`: the message to send back.
    Echo(String),
    /// `LS`: list the server's current directory.
    Ls,
    /// Anything else.
    Unknown,
}

/// The mathematical value of a [`Command`].
pub enum CommandView {
    Echo(Seq<char>),
    Ls,
    Unknown,
}

impl View for Command {
    type V = CommandView;

    open spec fn view(&self) -> CommandView {
        match self {
            Command::Echo(m) => CommandView::Echo(m@),
            Command::Ls => CommandView::Ls,
            Command::Unknown => CommandView::Unknown,
        }
    }
}

/// An error met while parsing a command line.
#[derive(Debug, PartialEq)]
pub struct ParseError(String);

/// `"ECHO "`, the prefix of an echo command with a message.
pub open spec fn echo_prefix() -> Seq<char> {
    seq!['E', 'C', 'H', 'O', ' ']
}

/// `"ECHO"`, an echo command without a message.
pub open spec fn echo_word() -> Seq<char> {
    seq!['E', 'C', 'H', 'O']
}

/// `"LS"`.
pub open spec fn ls_word() -> Seq<char> {
    seq!['L', 'S']
}

/// The command that a line denotes. Surrounding whitespace does not count;
/// the words are case-sensitive.
pub open spec fn command_of(line: Seq<char>) -> CommandView {
    let t = trim(line);
    if t.len() >= 5 && t.subrange(0, 5) == echo_prefix() {
        CommandView::Echo(t.subrange(5, t.len() as int))
    } else if t == echo_word() {
        CommandView::Echo(Seq::empty())
    } else if t == ls_word() {
        CommandView::Ls
    } else {
        CommandView::Unknown
    }
}

/// Parses a line received from a client into a [`Command`].
///
/// The line is trimmed of surrounding whitespace first. `ECHO <message>`
/// gives the message, `ECHO` alone an empty one, `LS` a listing request, and
/// everything else [`Command::Unknown`]; no line is rejected with an error.
pub fn parse_command(line: &str) -> (res: Result<Command, ParseError>)
    ensures
        res matches Ok(c) && c@ == command_of(line@),
{
    let v = chars_of(line);
    let (lo, hi) = trim_bounds(&v);
    let ghost t = trim(line@);
    let prefix: [char; 5] = ['E', 'C', 'H', 'O', ' '];
    let echo: [char; 4] = ['E', 'C', 'H', 'O'];
    let ls: [char; 2] = ['L', 'S'];
    assert(prefix@ =~= echo_prefix());
    assert(echo@ =~= echo_word());
    assert(ls@ =~= ls_word());
    if has_prefix_at(&v, lo, hi, prefix.as_slice()) {
        assert(t.subrange(0, 5) =~= v@.subrange(lo as int, lo + 5));
        assert(t.subrange(5, t.len() as int) =~= line@.subrange(lo + 5, hi as int));
        let msg = line.substring_char(lo + 5, hi);
        Ok(Command::Echo(msg.to_owned()))
    } else {
        assert(!(t.len() >= 5 && t.subrange(0, 5) == echo_prefix())) by {
            if t.len() >= 5 {
                assert(t.subrange(0, 5) =~= v@.subrange(lo as int, lo + 5));
            }
        }
        if equals_at(&v, lo, hi, echo.as_slice()) {
            Ok(Command::Echo(String::new()))
        } else if equals_at(&v, lo, hi, ls.as_slice()) {
            Ok(Command::Ls)
        } else {
            Ok(Command::Unknown)
        }
    }
}

/// The reply line to an echo: the message and a newline.
pub open spec fn echo_reply(message: Seq<char>) -> Seq<char> {
    message + seq!['\n']
}

/// The reply line that reports an error: `ERR `, the message and a newline.
pub open spec fn error_reply(message: Seq<char>) -> Seq<char> {
    seq!['E', 'R', 'R', ' '] + message + seq!['\n']
}

/// The reply to an `ECHO` command: `message` followed by a newline.
pub fn prepare_echo_response(message: &str) -> (res: String)
    ensures
        res@ == echo_reply(message@),
{
    let mut res = message.to_owned();
    res.append("\n");
    proof {
        reveal_strlit("\n");
    }
    res
}

/// The reply that reports an error to the client: `ERR <message>` and a newline.
pub fn prepare_error_response(message: &str) -> (res: String)
    ensures
        res@ == error_reply(message@),
{
    let mut res = String::from_str("ERR ");
    res.append(message);
    res.append("\n");
    proof {
        reveal_strlit("ERR ");
        reveal_strlit("\n");
    }
    res
}

} // verus!
