//! Properties of the protocol that span several functions.

use vstd::prelude::*;
use crate::client::{completes_reply, input_of};
use crate::conversation::reply_lines;
use crate::command::{command_of, echo_reply};
use crate::session::{
    idle, listing_reply, next, reply_to_line, ActionView, ConnectionView, EventView, Phase,
};
use crate::text::{is_whitespace, trim, trim_end, trim_newlines_end, trim_start};

verus! {

/// Whether every character of `s` is whitespace.
pub open spec fn all_whitespace(s: Seq<char>) -> bool {
    forall|i: int| 0 <= i < s.len() ==> is_whitespace(#[trigger] s[i])
}

proof fn lemma_trim_start_all_whitespace(s: Seq<char>)
    requires
        all_whitespace(s),
    ensures
        trim_start(s) == Seq::<char>::empty(),
    decreases s.len(),
{
    if s.len() > 0 {
        assert(is_whitespace(s[0]));
        lemma_trim_start_all_whitespace(s.drop_first());
    }
}

proof fn lemma_trim_start_whitespace_prefix(pre: Seq<char>, s: Seq<char>)
    requires
        all_whitespace(pre),
    ensures
        trim_start(pre + s) == trim_start(s),
    decreases pre.len(),
{
    if pre.len() > 0 {
        assert(is_whitespace(pre[0]));
        assert((pre + s)[0] == pre[0]);
        assert((pre + s).drop_first() =~= pre.drop_first() + s);
        lemma_trim_start_whitespace_prefix(pre.drop_first(), s);
    } else {
        assert(pre + s =~= s);
    }
}

proof fn lemma_trim_end_whitespace_suffix(s: Seq<char>, post: Seq<char>)
    requires
        all_whitespace(post),
    ensures
        trim_end(s + post) == trim_end(s),
    decreases post.len(),
{
    if post.len() > 0 {
        assert(is_whitespace(post[post.len() - 1]));
        assert((s + post).last() == post.last());
        assert((s + post).drop_last() =~= s + post.drop_last());
        lemma_trim_end_whitespace_suffix(s, post.drop_last());
    } else {
        assert(s + post =~= s);
    }
}

/// `trim_start` of a concatenation: the second part is kept whole once the
/// first holds a character that is not whitespace.
proof fn lemma_trim_start_concat(s: Seq<char>, t: Seq<char>)
    ensures
        trim_start(s).len() > 0 ==> trim_start(s + t) == trim_start(s) + t,
        trim_start(s).len() == 0 ==> trim_start(s + t) == trim_start(t),
    decreases s.len(),
{
    if s.len() == 0 {
        assert(s + t =~= t);
    } else if is_whitespace(s[0]) {
        assert((s + t)[0] == s[0]);
        assert((s + t).drop_first() =~= s.drop_first() + t);
        lemma_trim_start_concat(s.drop_first(), t);
    } else {
        assert((s + t)[0] == s[0]);
    }
}

proof fn lemma_trim_start_no_leading(s: Seq<char>)
    ensures
        trim_start(s).len() > 0 ==> !is_whitespace(trim_start(s)[0]),
    decreases s.len(),
{
    if s.len() > 0 && is_whitespace(s[0]) {
        lemma_trim_start_no_leading(s.drop_first());
    }
}

proof fn lemma_trim_end_no_trailing(s: Seq<char>)
    ensures
        trim_end(s).len() > 0 ==> !is_whitespace(trim_end(s).last()),
    decreases s.len(),
{
    if s.len() > 0 && is_whitespace(s.last()) {
        lemma_trim_end_no_trailing(s.drop_last());
    }
}

/// `trim_end` keeps a prefix, and does not touch a first character that is
/// not whitespace.
proof fn lemma_trim_end_prefix(s: Seq<char>)
    ensures
        trim_end(s).len() <= s.len(),
        trim_end(s) == s.subrange(0, trim_end(s).len() as int),
        s.len() > 0 && !is_whitespace(s[0]) ==> trim_end(s).len() > 0,
    decreases s.len(),
{
    if s.len() > 0 && is_whitespace(s.last()) {
        lemma_trim_end_prefix(s.drop_last());
        assert(s.drop_last().subrange(0, trim_end(s).len() as int) =~= s.subrange(
            0,
            trim_end(s).len() as int,
        ));
        if s.len() > 1 && !is_whitespace(s[0]) {
            assert(s.drop_last()[0] == s[0]);
        }
    } else {
        assert(s.subrange(0, s.len() as int) =~= s);
    }
}

/// What is left after trimming has no whitespace at either end.
pub proof fn lemma_trim_ends(s: Seq<char>)
    ensures
        trim(s).len() > 0 ==> !is_whitespace(trim(s)[0]) && !is_whitespace(trim(s).last()),
{
    lemma_trim_start_no_leading(trim_start(s));
    lemma_trim_start_no_leading(s);
    lemma_trim_end_prefix(trim_start(s));
    lemma_trim_end_no_trailing(trim_start(s));
    if trim(s).len() > 0 {
        assert(trim(s)[0] == trim_start(s)[0]);
    }
}

/// Trimming a line twice leaves what trimming it once does.
pub proof fn lemma_trim_idempotent(s: Seq<char>)
    ensures
        trim(trim(s)) == trim(s),
{
    lemma_trim_ends(s);
    let t = trim(s);
    if t.len() > 0 {
        assert(trim_start(t) == t);
        assert(trim_end(t) == t);
    }
}

/// Whitespace around a line does not change what it says: a line padded on
/// either side with whitespace parses as the line itself.
pub proof fn law_surrounding_whitespace_ignored(pre: Seq<char>, line: Seq<char>, post: Seq<char>)
    requires
        all_whitespace(pre),
        all_whitespace(post),
    ensures
        trim(pre + line + post) == trim(line),
        command_of(pre + line + post) == command_of(line),
{
    assert(pre + line + post =~= pre + (line + post));
    lemma_trim_start_whitespace_prefix(pre, line + post);
    lemma_trim_start_concat(line, post);
    if trim_start(line).len() > 0 {
        lemma_trim_end_whitespace_suffix(trim_start(line), post);
    } else {
        assert(trim_start(line) =~= Seq::<char>::empty());
        lemma_trim_start_all_whitespace(post);
        assert(trim_end(Seq::<char>::empty()) == Seq::<char>::empty());
    }
}

/// A line that is already trimmed parses the same once a newline is added,
/// as it is when it travels to the server.
proof fn lemma_newline_terminated(c: Seq<char>)
    ensures
        command_of(c + seq!['\n']) == command_of(c),
{
    assert(all_whitespace(seq!['\n'])) by {
        assert forall|i: int| 0 <= i < seq!['\n'].len() implies is_whitespace(
            #[trigger] seq!['\n'][i],
        ) by {}
    }
    assert(all_whitespace(Seq::<char>::empty()));
    law_surrounding_whitespace_ignored(Seq::empty(), c, seq!['\n']);
    assert(Seq::<char>::empty() + c + seq!['\n'] =~= c + seq!['\n']);
}

proof fn lemma_strip_reply_line(m: Seq<char>)
    requires
        m.len() > 0 ==> m.last() != '\n',
    ensures
        trim_newlines_end(m + seq!['\n']) == m,
{
    let l = m + seq!['\n'];
    assert(l.drop_last() =~= m);
    assert(l.last() == '\n');
    assert(trim_newlines_end(l) == trim_newlines_end(m));
    assert(trim_newlines_end(m) == m);
}

/// What the user types as an echo command comes back to the user: the server
/// answers the request line of the command with the message and a newline,
/// the client shows exactly the message, and that one line ends the reply.
pub proof fn law_echo_round_trip(typed: Seq<char>)
    requires
        input_of(typed) is Send,
        command_of(input_of(typed)->Send_0) is Echo,
    ensures
        ({
            let c = input_of(typed)->Send_0;
            let m = command_of(c)->Echo_0;
            &&& reply_to_line(c + seq!['\n']) == Some(seq![echo_reply(m)])
            &&& trim_newlines_end(echo_reply(m)) == m
            &&& completes_reply(c, m)
        }),
{
    let c = input_of(typed)->Send_0;
    let m = command_of(c)->Echo_0;
    lemma_newline_terminated(c);
    lemma_trim_idempotent(typed);
    lemma_trim_ends(typed);
    assert(trim(c) == c);
    if m.len() > 0 {
        assert(c.len() >= 5 && m == c.subrange(5, c.len() as int));
        assert(m.last() == c.last());
        assert(!is_whitespace(c.last()));
    }
    lemma_strip_reply_line(m);
}

/// A directory listing is read by the client line by line: each name is
/// shown as it is and leaves the reply open, and the empty line after the
/// last name shows nothing and ends the reply. This holds for names that
/// are not empty and hold no newline.
pub proof fn law_listing_read_back(typed: Seq<char>, names: Seq<Seq<char>>)
    requires
        input_of(typed) is Send,
        command_of(input_of(typed)->Send_0) is Ls,
        listable(names),
    ensures
        ({
            let c = input_of(typed)->Send_0;
            let lines = listing_reply(names);
            &&& reply_to_line(c + seq!['\n']) is None
            &&& lines.len() == names.len() + 1
            &&& forall|i: int|
                0 <= i < names.len() ==> trim_newlines_end(#[trigger] lines[i]) == names[i]
                    && !completes_reply(c, names[i])
            &&& trim_newlines_end(lines[names.len() as int]) == Seq::<char>::empty()
            &&& completes_reply(c, Seq::<char>::empty())
        }),
{
    let c = input_of(typed)->Send_0;
    let lines = listing_reply(names);
    lemma_newline_terminated(c);
    lemma_trim_idempotent(typed);
    assert(trim(c) == c);
    assert(c == seq!['L', 'S']);
    assert forall|i: int| 0 <= i < names.len() implies trim_newlines_end(#[trigger] lines[i])
        == names[i] && !completes_reply(c, names[i]) by {
        assert(lines[i] == echo_reply(names[i]));
        assert(names[i][names[i].len() - 1] != '\n');
        lemma_strip_reply_line(names[i]);
    }
    assert(lines[names.len() as int] == seq!['\n']);
    lemma_strip_reply_line(Seq::empty());
    assert(Seq::<char>::empty() + seq!['\n'] =~= seq!['\n']);
}

/// Whether `names` can be listed line by line: none is empty and none
/// holds a newline.
pub open spec fn listable(names: Seq<Seq<char>>) -> bool {
    &&& forall|i: int| 0 <= i < names.len() ==> #[trigger] names[i].len() > 0
    &&& forall|i: int, j: int|
        0 <= i < names.len() && 0 <= j < names[i].len() ==> #[trigger] names[i][j] != '\n'
}

/// The client reads every reply to its end and no further: whatever the
/// user sends, each line of the server's reply but the last leaves the reply
/// open, and the last closes it. For `LS` this holds where the directory is
/// read and its names are listable.
pub proof fn law_every_reply_read_to_its_end(typed: Seq<char>, listing: Option<Seq<Seq<char>>>)
    requires
        input_of(typed) is Send,
        command_of(input_of(typed)->Send_0) is Ls ==> (listing is Some && listable(
            listing->Some_0,
        )),
    ensures
        ({
            let c = input_of(typed)->Send_0;
            let lines = reply_lines(c + seq!['\n'], listing);
            &&& lines.len() > 0
            &&& forall|i: int|
                0 <= i < lines.len() - 1 ==> !completes_reply(
                    c,
                    trim_newlines_end(#[trigger] lines[i]),
                )
            &&& completes_reply(c, trim_newlines_end(lines[lines.len() - 1]))
        }),
{
    let c = input_of(typed)->Send_0;
    lemma_newline_terminated(c);
    if command_of(c) is Ls {
        let names = listing->Some_0;
        law_listing_read_back(typed, names);
    }
}

/// Whether every line of `lines` ends with a newline.
pub open spec fn whole_lines(lines: Seq<Seq<char>>) -> bool {
    forall|i: int| 0 <= i < lines.len() ==> #[trigger] lines[i].len() > 0 && lines[i].last() == '\n'
}

/// Every line the server writes is a whole line, ending with a newline: a
/// connection whose pending lines are whole keeps them whole, and what it
/// sends is whole.
pub proof fn law_replies_are_lines(c: ConnectionView, event: EventView)
    requires
        whole_lines(c.pending),
    ensures
        whole_lines(next(c, event).0.pending),
        next(c, event).1 matches ActionView::Send(line) ==> line.len() > 0 && line.last() == '\n',
{
    let r = next(c, event);
    if let (Phase::AwaitingListing, EventView::Listed(names)) = (c.phase, event) {
        let lines = listing_reply(names);
        assert forall|i: int| 0 <= i < lines.len() implies #[trigger] lines[i].len() > 0
            && lines[i].last() == '\n' by {
            if i < names.len() {
                assert(lines[i] == echo_reply(names[i]));
            }
        }
        assert forall|i: int| 0 <= i < r.0.pending.len() implies #[trigger] r.0.pending[i].len()
            > 0 && r.0.pending[i].last() == '\n' by {
            assert(r.0.pending[i] == lines[i + 1]);
        }
    }
    if let (Phase::Replying, EventView::Sent) = (c.phase, event) {
        if c.pending.len() > 0 {
            assert(c.pending[0].len() > 0);
            assert forall|i: int| 0 <= i < r.0.pending.len() implies #[trigger] r.0.pending[
                i
            ].len() > 0 && r.0.pending[i].last() == '\n' by {
                assert(r.0.pending[i] == c.pending[i + 1]);
            }
        }
    }
}

/// A closed connection stays closed, whatever comes.
pub proof fn law_closed_stays_closed(pending: Seq<Seq<char>>, event: EventView)
    ensures
        next(ConnectionView { phase: Phase::Closed, pending }, event) == (
            idle(Phase::Closed),
            ActionView::Close,
        ),
{
}

} // verus!
