//! What the lines of the protocol mean, stated on the lines themselves: a
//! command word surrounded by any whitespace, and the exact reply to it.

use vstd::prelude::*;
use crate::client::{input_of, InputView};
use crate::command::{command_of, echo_word, CommandView};
use crate::laws::{all_whitespace, law_surrounding_whitespace_ignored};
use crate::session::{idle, next, ActionView, ConnectionView, EventView, Phase};
use crate::text::{is_whitespace, trim, trim_end, trim_start};

verus! {

/// Whether `core` has no whitespace at either end.
pub open spec fn tight(core: Seq<char>) -> bool {
    core.len() == 0 || (!is_whitespace(core[0]) && !is_whitespace(core.last()))
}

/// The reply to a line that is not a command.
pub open spec fn unknown_command_reply() -> Seq<char> {
    seq![
        'E', 'R', 'R', ' ', 'U', 'n', 'k', 'n', 'o', 'w', 'n', ' ', 'c', 'o', 'm', 'm', 'a', 'n',
        'd', '\n',
    ]
}

/// A reply of one line, written at once, with nothing left to write.
pub open spec fn one_line_reply(line: Seq<char>) -> (ConnectionView, ActionView) {
    (ConnectionView { phase: Phase::Replying, pending: Seq::empty() }, ActionView::Send(line))
}

/// Trimming takes off exactly the whitespace around a part with no
/// whitespace at its ends.
pub proof fn law_trim_takes_off_surrounding_whitespace(
    pre: Seq<char>,
    core: Seq<char>,
    post: Seq<char>,
)
    requires
        all_whitespace(pre),
        all_whitespace(post),
        tight(core),
    ensures
        trim(pre + core + post) == core,
{
    law_surrounding_whitespace_ignored(pre, core, post);
    if core.len() > 0 {
        assert(trim_start(core) == core);
        assert(trim_end(core) == core);
    } else {
        assert(trim_start(core) == core);
    }
}

proof fn lemma_space_then_whitespace(post: Seq<char>)
    requires
        all_whitespace(post),
    ensures
        all_whitespace(seq![' '] + post),
{
    assert forall|i: int| 0 <= i < (seq![' '] + post).len() implies is_whitespace(
        #[trigger] (seq![' '] + post)[i],
    ) by {
        if i > 0 {
            assert((seq![' '] + post)[i] == post[i - 1]);
        }
    }
}

/// `ECHO`, a space and a message, with any whitespace around: the command
/// echoes the message, whatever its length and content; `ECHO` with no
/// message (or only whitespace after it) echoes the empty message.
pub proof fn law_echo_carries_its_message(pre: Seq<char>, message: Seq<char>, post: Seq<char>)
    requires
        all_whitespace(pre),
        all_whitespace(post),
        message.len() == 0 || !is_whitespace(message.last()),
    ensures
        command_of(pre + seq!['E', 'C', 'H', 'O', ' '] + message + post) == CommandView::Echo(
            message,
        ),
{
    let line = pre + seq!['E', 'C', 'H', 'O', ' '] + message + post;
    if message.len() > 0 {
        let core = seq!['E', 'C', 'H', 'O', ' '] + message;
        assert(core[0] == 'E');
        assert(core.last() == message.last());
        assert(line =~= pre + core + post);
        law_trim_takes_off_surrounding_whitespace(pre, core, post);
        assert(core.subrange(0, 5) =~= seq!['E', 'C', 'H', 'O', ' ']);
        assert(core.subrange(5, core.len() as int) =~= message);
    } else {
        let core = seq!['E', 'C', 'H', 'O'];
        lemma_space_then_whitespace(post);
        assert(line =~= pre + core + (seq![' '] + post));
        law_trim_takes_off_surrounding_whitespace(pre, core, seq![' '] + post);
        assert(!(core.len() >= 5));
        assert(message =~= Seq::<char>::empty());
        assert(core =~= echo_word());
    }
}

/// `LS`, with any whitespace around, asks for a listing.
pub proof fn law_ls_asks_for_listing(pre: Seq<char>, post: Seq<char>)
    requires
        all_whitespace(pre),
        all_whitespace(post),
    ensures
        command_of(pre + seq!['L', 'S'] + post) == CommandView::Ls,
{
    law_trim_takes_off_surrounding_whitespace(pre, seq!['L', 'S'], post);
}

/// Whether a trimmed line is one of the commands: `ECHO` followed by a space,
/// `ECHO`, or `LS`.
pub open spec fn is_command_shape(t: Seq<char>) -> bool {
    ||| (t.len() >= 5 && t.subrange(0, 5) == seq!['E', 'C', 'H', 'O', ' '])
    ||| t == seq!['E', 'C', 'H', 'O']
    ||| t == seq!['L', 'S']
}

/// Every other line (lower case, `LS` with arguments, words run together,
/// blank lines) is an unknown command.
pub proof fn law_other_lines_unknown(line: Seq<char>)
    requires
        !is_command_shape(trim(line)),
    ensures
        command_of(line) == CommandView::Unknown,
{
}

/// The server answers `ECHO <message>`, whatever whitespace surrounds it, by
/// writing the message and a newline, and then reads the next line.
pub proof fn law_server_echoes(pre: Seq<char>, message: Seq<char>, post: Seq<char>)
    requires
        all_whitespace(pre),
        all_whitespace(post),
        message.len() == 0 || !is_whitespace(message.last()),
    ensures
        next(
            idle(Phase::AwaitingLine),
            EventView::LineRead(pre + seq!['E', 'C', 'H', 'O', ' '] + message + post),
        ) == one_line_reply(message + seq!['\n']),
        next(one_line_reply(message + seq!['\n']).0, EventView::Sent) == (
            idle(Phase::AwaitingLine),
            ActionView::ReadLine,
        ),
{
    law_echo_carries_its_message(pre, message, post);
    assert(seq![message + seq!['\n']].drop_first() =~= Seq::<Seq<char>>::empty());
}

/// The server answers `LS`, whatever whitespace surrounds it, by reading the
/// directory, and then writes each name on its own line and an empty line.
pub proof fn law_server_lists_on_ls(pre: Seq<char>, post: Seq<char>, names: Seq<Seq<char>>)
    requires
        all_whitespace(pre),
        all_whitespace(post),
    ensures
        next(idle(Phase::AwaitingLine), EventView::LineRead(pre + seq!['L', 'S'] + post)) == (
            idle(Phase::AwaitingListing),
            ActionView::ListDirectory,
        ),
        ({
            let r = next(idle(Phase::AwaitingListing), EventView::Listed(names));
            let all = r.0.pending.insert(0, r.1->Send_0);
            &&& r.0.phase == Phase::Replying
            &&& r.1 is Send
            &&& all.len() == names.len() + 1
            &&& forall|i: int| 0 <= i < names.len() ==> #[trigger] all[i] == names[i] + seq!['\n']
            &&& all[names.len() as int] == seq!['\n']
        }),
{
    law_ls_asks_for_listing(pre, post);
    let r = next(idle(Phase::AwaitingListing), EventView::Listed(names));
    let lines = names.map_values(|n: Seq<char>| n + seq!['\n']).push(seq!['\n']);
    assert(r.0.pending.insert(0, r.1->Send_0) =~= lines);
}

/// The server answers every other line with `ERR Unknown command` and a
/// newline, and then reads the next line.
pub proof fn law_server_rejects_other_lines(line: Seq<char>)
    requires
        !is_command_shape(trim(line)),
    ensures
        next(idle(Phase::AwaitingLine), EventView::LineRead(line)) == one_line_reply(
            unknown_command_reply(),
        ),
{
    law_other_lines_unknown(line);
    assert(seq!['E', 'R', 'R', ' '] + seq![
        'U', 'n', 'k', 'n', 'o', 'w', 'n', ' ', 'c', 'o', 'm', 'm', 'a', 'n', 'd',
    ] + seq!['\n'] =~= unknown_command_reply());
    assert(seq![unknown_command_reply()].drop_first() =~= Seq::<Seq<char>>::empty());
}

/// `exit` or `quit`, with any whitespace around, ends the client.
pub proof fn law_quit_words(pre: Seq<char>, post: Seq<char>)
    requires
        all_whitespace(pre),
        all_whitespace(post),
    ensures
        input_of(pre + seq!['e', 'x', 'i', 't'] + post) == InputView::Quit,
        input_of(pre + seq!['q', 'u', 'i', 't'] + post) == InputView::Quit,
{
    law_trim_takes_off_surrounding_whitespace(pre, seq!['e', 'x', 'i', 't'], post);
    law_trim_takes_off_surrounding_whitespace(pre, seq!['q', 'u', 'i', 't'], post);
}

/// A line of nothing but whitespace is skipped.
pub proof fn law_blank_input_skipped(typed: Seq<char>)
    requires
        all_whitespace(typed),
    ensures
        input_of(typed) == InputView::Skip,
{
    law_trim_takes_off_surrounding_whitespace(typed, Seq::empty(), Seq::empty());
    assert(typed + Seq::<char>::empty() + Seq::<char>::empty() =~= typed);
}

/// Any other typed line is sent as it is, without the whitespace around it:
/// a line that merely contains or ends with `exit` or `quit` is sent too.
pub proof fn law_other_input_sent(pre: Seq<char>, command: Seq<char>, post: Seq<char>)
    requires
        all_whitespace(pre),
        all_whitespace(post),
        tight(command),
        command.len() > 0,
        command != seq!['e', 'x', 'i', 't'],
        command != seq!['q', 'u', 'i', 't'],
    ensures
        input_of(pre + command + post) == InputView::Send(command),
{
    law_trim_takes_off_surrounding_whitespace(pre, command, post);
}

} // verus!
