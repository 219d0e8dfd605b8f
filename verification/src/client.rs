//! The decisions of the interactive client: what a typed line asks for, what
//! goes on the wire, and when the reply to a command is complete.

use vstd::prelude::*;
use vstd::string::{StrSliceExecFns, StringExecFns};
use crate::command::{command_of, parse_command, Command};
use crate::text::{chars_of, equals_at, newline_trim_end, trim, trim_bounds, trim_newlines_end};

verus! {

broadcast use vstd::string::group_string_axioms;

/// What a line typed by the user asks for.
#[derive(Debug, PartialEq)]
pub enum Input {
    /// `exit` or `quit`: disconnect and stop.
    Quit,
    /// Nothing but whitespace: ask again.
    Skip,
    /// A command to send, trimmed of surrounding whitespace.
    Send(String),
}

pub enum InputView {
    Quit,
    Skip,
    Send(Seq<char>),
}

impl View for Input {
    type V = InputView;

    open spec fn view(&self) -> InputView {
        match self {
            Input::Quit => InputView::Quit,
            Input::Skip => InputView::Skip,
            Input::Send(c) => InputView::Send(c@),
        }
    }
}

/// `exit`.
pub open spec fn exit_word() -> Seq<char> {
    seq!['e', 'x', 'i', 't']
}

/// `quit`.
pub open spec fn quit_word() -> Seq<char> {
    seq!['q', 'u', 'i', 't']
}

/// What a typed line asks for: the words are matched once the line is trimmed.
pub open spec fn input_of(typed: Seq<char>) -> InputView {
    let c = trim(typed);
    if c == exit_word() || c == quit_word() {
        InputView::Quit
    } else if c.len() == 0 {
        InputView::Skip
    } else {
        InputView::Send(c)
    }
}

/// Whether the server answers `command` with a listing that ends at an empty
/// line: whether the command is `LS`.
pub open spec fn expects_listing(command: Seq<char>) -> bool {
    command_of(command) is Ls
}

/// Whether the reply to `command` is complete once the line `shown` came.
pub open spec fn completes_reply(command: Seq<char>, shown: Seq<char>) -> bool {
    expects_listing(command) ==> shown.len() == 0
}

/// What a typed line asks for.
pub fn classify_input(typed: &str) -> (r: Input)
    ensures
        r@ == input_of(typed@),
{
    let v = chars_of(typed);
    let (lo, hi) = trim_bounds(&v);
    let exit: [char; 4] = ['e', 'x', 'i', 't'];
    let quit: [char; 4] = ['q', 'u', 'i', 't'];
    assert(exit@ =~= exit_word());
    assert(quit@ =~= quit_word());
    if equals_at(&v, lo, hi, exit.as_slice()) || equals_at(&v, lo, hi, quit.as_slice()) {
        Input::Quit
    } else if lo == hi {
        Input::Skip
    } else {
        let command = typed.substring_char(lo, hi);
        Input::Send(command.to_owned())
    }
}

/// The line that carries `command` to the server: the command and a newline.
pub fn request_line(command: &str) -> (line: String)
    ensures
        line@ == command@ + seq!['\n'],
{
    let mut line = command.to_owned();
    line.append("\n");
    proof {
        reveal_strlit("\n");
    }
    line
}

/// A line read from the server as it is shown: without its trailing newlines.
pub fn shown_line(received: &str) -> (shown: String)
    ensures
        shown@ == trim_newlines_end(received@),
{
    let v = chars_of(received);
    let e = newline_trim_end(&v);
    received.substring_char(0, e).to_owned()
}

/// Whether the reply to `command` is complete once the line `shown` came:
/// after an empty line for `LS`, whose reply is a listing, and after the
/// first line for any other command, whose reply is a single line.
pub fn reply_complete(command: &str, shown: &str) -> (b: bool)
    ensures
        b == completes_reply(command@, shown@),
{
    match parse_command(command) {
        Ok(Command::Ls) => shown.is_empty(),
        _ => true,
    }
}

} // verus!
