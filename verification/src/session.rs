//! The decisions of the server's per-connection loop.
//!
//! The connection handler reads a line, answers it, and goes on until the
//! client goes away or a write fails. The reading, the directory listing and
//! the writing happen outside; [`step`] takes what came of the last of them
//! and says what to do next.

use vstd::prelude::*;
use crate::command::{
    command_of, echo_reply, error_reply, parse_command, prepare_echo_response,
    prepare_error_response, Command, CommandView,
};

verus! {

broadcast use vstd::string::group_string_axioms;

/// Where a connection stands.
#[derive(Clone, Copy, Debug, PartialEq, Eq, Structural)]
pub enum Phase {
    /// Waiting for the next line from the client.
    AwaitingLine,
    /// Waiting for the listing of the current directory.
    AwaitingListing,
    /// Writing the reply, one line at a time.
    Replying,
    /// The connection is over.
    Closed,
}

/// What came of the last action.
pub enum Event {
    /// A line was read; it holds its newline, if any.
    LineRead(String),
    /// The client closed the connection.
    EndOfStream,
    /// Reading from the connection failed.
    ReadFailed,
    /// The names of the entries of the current directory.
    Listed(Vec<String>),
    /// The current directory could not be read.
    ListingFailed,
    /// The line of the reply was written.
    Sent,
    /// Writing the line of the reply failed.
    SendFailed,
}

/// What to do next.
pub enum Action {
    /// Read the next line from the client.
    ReadLine,
    /// List the entries of the current directory.
    ListDirectory,
    /// Write this line of the reply to the client.
    Send(String),
    /// End the connection.
    Close,
}

/// A connection: its phase and, while replying, the lines of the reply that
/// are still to be written.
pub struct Connection {
    phase: Phase,
    lines: Vec<String>,
    written: usize,
}

/// The mathematical value of a [`Connection`].
pub struct ConnectionView {
    pub phase: Phase,
    pub pending: Seq<Seq<char>>,
}

impl View for Connection {
    type V = ConnectionView;

    closed spec fn view(&self) -> ConnectionView {
        ConnectionView {
            phase: self.phase,
            pending: self.lines.deep_view().skip(self.written as int),
        }
    }
}

impl Connection {
    #[verifier::type_invariant]
    spec fn written_within(self) -> bool {
        self.written <= self.lines@.len()
    }

    /// The phase of the connection.
    pub fn phase(&self) -> (p: Phase)
        ensures
            p == self@.phase,
    {
        self.phase
    }
}

pub enum EventView {
    LineRead(Seq<char>),
    EndOfStream,
    ReadFailed,
    Listed(Seq<Seq<char>>),
    ListingFailed,
    Sent,
    SendFailed,
}

pub enum ActionView {
    ReadLine,
    ListDirectory,
    Send(Seq<char>),
    Close,
}

impl View for Event {
    type V = EventView;

    open spec fn view(&self) -> EventView {
        match self {
            Event::LineRead(l) => EventView::LineRead(l@),
            Event::EndOfStream => EventView::EndOfStream,
            Event::ReadFailed => EventView::ReadFailed,
            Event::Listed(names) => EventView::Listed(names.deep_view()),
            Event::ListingFailed => EventView::ListingFailed,
            Event::Sent => EventView::Sent,
            Event::SendFailed => EventView::SendFailed,
        }
    }
}

impl View for Action {
    type V = ActionView;

    open spec fn view(&self) -> ActionView {
        match self {
            Action::ReadLine => ActionView::ReadLine,
            Action::ListDirectory => ActionView::ListDirectory,
            Action::Send(line) => ActionView::Send(line@),
            Action::Close => ActionView::Close,
        }
    }
}

/// `Unknown command`.
pub open spec fn unknown_command_message() -> Seq<char> {
    seq!['U', 'n', 'k', 'n', 'o', 'w', 'n', ' ', 'c', 'o', 'm', 'm', 'a', 'n', 'd']
}

/// `Error reading directory`.
pub open spec fn listing_error_message() -> Seq<char> {
    seq![
        'E', 'r', 'r', 'o', 'r', ' ', 'r', 'e', 'a', 'd', 'i', 'n', 'g', ' ',
        'd', 'i', 'r', 'e', 'c', 't', 'o', 'r', 'y',
    ]
}

/// The reply line when the directory cannot be read.
pub open spec fn error_reply_line() -> Seq<char> {
    error_reply(listing_error_message())
}

/// The reply to `LS`: each name on a line of its own, then an empty line.
pub open spec fn listing_reply(names: Seq<Seq<char>>) -> Seq<Seq<char>> {
    names.map_values(|n: Seq<char>| echo_reply(n)).push(seq!['\n'])
}

/// The reply to a line, or `None` where the line asks for a listing.
pub open spec fn reply_to_line(line: Seq<char>) -> Option<Seq<Seq<char>>> {
    match command_of(line) {
        CommandView::Echo(m) => Some(seq![echo_reply(m)]),
        CommandView::Ls => None,
        CommandView::Unknown => Some(seq![error_reply(unknown_command_message())]),
    }
}

/// A connection in `phase` with nothing left to write.
pub open spec fn idle(phase: Phase) -> ConnectionView {
    ConnectionView { phase, pending: Seq::empty() }
}

/// Start writing the reply `lines`, which is never empty: its first line now,
/// the others after it, one at a time.
pub open spec fn start_reply(lines: Seq<Seq<char>>) -> (ConnectionView, ActionView) {
    (ConnectionView { phase: Phase::Replying, pending: lines.drop_first() }, ActionView::Send(lines[0]))
}

/// The next state and action of connection `c` once `event` came. Nothing
/// more is written after a write fails, and an event that does not answer
/// the pending action ends the connection.
pub open spec fn next(c: ConnectionView, event: EventView) -> (ConnectionView, ActionView) {
    match (c.phase, event) {
        (Phase::AwaitingLine, EventView::LineRead(l)) => match reply_to_line(l) {
            Some(lines) => start_reply(lines),
            None => (idle(Phase::AwaitingListing), ActionView::ListDirectory),
        },
        (Phase::AwaitingListing, EventView::Listed(names)) => start_reply(listing_reply(names)),
        (Phase::AwaitingListing, EventView::ListingFailed) => start_reply(seq![error_reply_line()]),
        (Phase::Replying, EventView::Sent) => if c.pending.len() > 0 {
            (
                ConnectionView { phase: Phase::Replying, pending: c.pending.drop_first() },
                ActionView::Send(c.pending[0]),
            )
        } else {
            (idle(Phase::AwaitingLine), ActionView::ReadLine)
        },
        _ => (idle(Phase::Closed), ActionView::Close),
    }
}

/// A new connection: wait for the first line.
pub fn open_connection() -> (r: (Connection, Action))
    ensures
        r.0@ == idle(Phase::AwaitingLine),
        r.1@ == ActionView::ReadLine,
{
    let c = Connection { phase: Phase::AwaitingLine, lines: Vec::new(), written: 0 };
    assert(c@.pending =~= Seq::<Seq<char>>::empty());
    (c, Action::ReadLine)
}

fn idle_connection(phase: Phase) -> (c: Connection)
    ensures
        c@ == idle(phase),
{
    let c = Connection { phase, lines: Vec::new(), written: 0 };
    assert(c@.pending =~= Seq::<Seq<char>>::empty());
    c
}

/// Begins writing a reply of one or more lines.
fn start_writing(lines: Vec<String>) -> (r: (Connection, Action))
    requires
        lines@.len() > 0,
    ensures
        (r.0@, r.1@) == start_reply(lines.deep_view()),
{
    let first = lines[0].clone();
    let c = Connection { phase: Phase::Replying, lines, written: 1 };
    assert(c@.pending =~= lines.deep_view().drop_first());
    (c, Action::Send(first))
}

/// A reply of exactly one line.
fn one_line(line: String) -> (lines: Vec<String>)
    ensures
        lines.deep_view() == seq![line@],
{
    let mut lines: Vec<String> = Vec::new();
    lines.push(line);
    assert(lines.deep_view() =~= seq![line@]);
    lines
}

/// The lines of the reply to `LS`: each name followed by a newline, then a
/// line holding only a newline that ends the listing.
pub fn listing_lines(names: &Vec<String>) -> (lines: Vec<String>)
    ensures
        lines.deep_view() == listing_reply(names.deep_view()),
{
    let mut lines: Vec<String> = Vec::new();
    for i in 0..names.len()
        invariant
            lines@.len() == i,
            forall|j: int| 0 <= j < i ==> #[trigger] lines@[j]@ == echo_reply(names@[j]@),
    {
        let line = prepare_echo_response(names[i].as_str());
        lines.push(line);
    }
    let end = prepare_echo_response("");
    proof {
        reveal_strlit("");
    }
    lines.push(end);
    assert(lines.deep_view() =~= listing_reply(names.deep_view()));
    lines
}

/// The next state and action of connection `conn` once `event` came.
pub fn step(conn: Connection, event: Event) -> (r: (Connection, Action))
    ensures
        (r.0@, r.1@) == next(conn@, event@),
{
    proof {
        use_type_invariant(&conn);
    }
    match (conn.phase, event) {
        (Phase::AwaitingLine, Event::LineRead(line)) => {
            match parse_command(line.as_str()) {
                Ok(Command::Echo(message)) => {
                    start_writing(one_line(prepare_echo_response(message.as_str())))
                },
                Ok(Command::Ls) => (idle_connection(Phase::AwaitingListing), Action::ListDirectory),
                _ => {
                    let reply = prepare_error_response("Unknown command");
                    proof {
                        reveal_strlit("Unknown command");
                        assert("Unknown command"@ =~= unknown_command_message());
                    }
                    start_writing(one_line(reply))
                },
            }
        },
        (Phase::AwaitingListing, Event::Listed(names)) => start_writing(listing_lines(&names)),
        (Phase::AwaitingListing, Event::ListingFailed) => {
            let reply = prepare_error_response("Error reading directory");
            proof {
                reveal_strlit("Error reading directory");
                assert("Error reading directory"@ =~= listing_error_message());
            }
            start_writing(one_line(reply))
        },
        (Phase::Replying, Event::Sent) => {
            if conn.written < conn.lines.len() {
                let line = conn.lines[conn.written].clone();
                let c = Connection { phase: Phase::Replying, lines: conn.lines, written: conn.written + 1 };
                assert(c@.pending =~= conn@.pending.drop_first());
                (c, Action::Send(line))
            } else {
                (idle_connection(Phase::AwaitingLine), Action::ReadLine)
            }
        },
        _ => (idle_connection(Phase::Closed), Action::Close),
    }
}

} // verus!
