//! A whole connection at once: what the server does when a client sends a
//! sequence of lines and then closes, every write succeeds, and each listing
//! of the directory gives some names or fails.

use vstd::prelude::*;
use crate::session::{
    error_reply_line, idle, listing_reply, next, reply_to_line, ActionView, ConnectionView,
    EventView, Phase,
};

verus! {

/// An effect of the connection handler on the world.
pub enum Effect {
    /// A line was read from the client.
    Read(Seq<char>),
    /// The client was found to have closed the connection.
    EndOfStream,
    /// The current directory was read.
    List,
    /// A line was written to the client.
    Write(Seq<char>),
}

/// A line the client sends, with what reading the directory gives if the
/// line asks for a listing: the names, or `None` where reading fails.
pub struct Turn {
    pub line: Seq<char>,
    pub listing: Option<Seq<Seq<char>>>,
}

/// Orders phases so that serving a connection comes to an end.
pub open spec fn phase_rank(p: Phase) -> nat {
    match p {
        Phase::Closed => 0,
        Phase::AwaitingLine => 1,
        Phase::Replying => 2,
        Phase::AwaitingListing => 3,
    }
}

/// What the handler hears back when it reads the directory.
pub open spec fn listing_event(listing: Option<Seq<Seq<char>>>) -> EventView {
    match listing {
        Some(names) => EventView::Listed(names),
        None => EventView::ListingFailed,
    }
}

/// The effects of connection `c`, which has just asked for `a`, when the client
/// still sends the lines of `turns` and then closes, every write succeeds,
/// and reading the directory gives `listing` for the line being answered and
/// the listing of its turn for each later line.
pub open spec fn serve(
    c: ConnectionView,
    a: ActionView,
    turns: Seq<Turn>,
    listing: Option<Seq<Seq<char>>>,
) -> Seq<Effect>
    decreases turns.len(), phase_rank(c.phase), c.pending.len(),
{
    if c.phase == Phase::Closed {
        Seq::empty()
    } else {
        match a {
            ActionView::ReadLine => if turns.len() > 0 {
                let r = next(c, EventView::LineRead(turns[0].line));
                seq![Effect::Read(turns[0].line)] + serve(
                    r.0,
                    r.1,
                    turns.drop_first(),
                    turns[0].listing,
                )
            } else {
                let r = next(c, EventView::EndOfStream);
                seq![Effect::EndOfStream] + serve(r.0, r.1, turns, listing)
            },
            ActionView::ListDirectory => {
                let r = next(c, listing_event(listing));
                seq![Effect::List] + serve(r.0, r.1, turns, listing)
            },
            ActionView::Send(w) => {
                let r = next(c, EventView::Sent);
                seq![Effect::Write(w)] + serve(r.0, r.1, turns, listing)
            },
            ActionView::Close => Seq::empty(),
        }
    }
}

/// The effects of a connection from its start.
pub open spec fn served(turns: Seq<Turn>) -> Seq<Effect> {
    serve(idle(Phase::AwaitingLine), ActionView::ReadLine, turns, None)
}

/// The lines of the reply to line `l` when reading the directory gives `listing`.
pub open spec fn reply_lines(l: Seq<char>, listing: Option<Seq<Seq<char>>>) -> Seq<Seq<char>> {
    match reply_to_line(l) {
        Some(r) => r,
        None => match listing {
            Some(names) => listing_reply(names),
            None => seq![error_reply_line()],
        },
    }
}

/// Writes of each of `ws`, in order.
pub open spec fn writes(ws: Seq<Seq<char>>) -> Seq<Effect> {
    ws.map_values(|w: Seq<char>| Effect::Write(w))
}

/// Reading the line of turn `t`, reading the directory where the line asks
/// for it, then writing the whole reply.
pub open spec fn answer(t: Turn) -> Seq<Effect> {
    seq![Effect::Read(t.line)] + (if reply_to_line(t.line) is None {
        seq![Effect::List]
    } else {
        Seq::empty()
    }) + writes(reply_lines(t.line, t.listing))
}

/// The answers to each of `turns`, one after the other.
pub open spec fn answers(turns: Seq<Turn>) -> Seq<Effect>
    decreases turns.len(),
{
    if turns.len() == 0 {
        Seq::empty()
    } else {
        answer(turns[0]) + answers(turns.drop_first())
    }
}

/// The lines written among `effects`, in order.
pub open spec fn written(effects: Seq<Effect>) -> Seq<Seq<char>>
    decreases effects.len(),
{
    if effects.len() == 0 {
        Seq::empty()
    } else {
        let rest = written(effects.drop_first());
        match effects[0] {
            Effect::Write(w) => seq![w] + rest,
            _ => rest,
        }
    }
}

/// Writing `w` and then the pending lines `p`, and then reading again.
proof fn lemma_finish_reply(
    p: Seq<Seq<char>>,
    w: Seq<char>,
    turns: Seq<Turn>,
    listing: Option<Seq<Seq<char>>>,
)
    ensures
        serve(
            ConnectionView { phase: Phase::Replying, pending: p },
            ActionView::Send(w),
            turns,
            listing,
        ) == writes(seq![w] + p) + served(turns),
    decreases p.len(),
{
    let c = ConnectionView { phase: Phase::Replying, pending: p };
    let r = next(c, EventView::Sent);
    if p.len() > 0 {
        lemma_finish_reply(p.drop_first(), p[0], turns, listing);
        assert(seq![p[0]] + p.drop_first() =~= p);
        assert(writes(seq![w] + p) =~= seq![Effect::Write(w)] + writes(p));
    } else {
        lemma_serve_from_start(turns, listing);
        assert(writes(seq![w] + p) =~= seq![Effect::Write(w)]);
    }
}

/// Serving from the start does not depend on the listing of a line before.
proof fn lemma_serve_from_start(turns: Seq<Turn>, listing: Option<Seq<Seq<char>>>)
    ensures
        serve(idle(Phase::AwaitingLine), ActionView::ReadLine, turns, listing) == served(turns),
{
    let start = idle(Phase::AwaitingLine);
    if turns.len() == 0 {
        let r = next(start, EventView::EndOfStream);
        assert(serve(r.0, r.1, turns, listing) == Seq::<Effect>::empty());
        assert(serve(r.0, r.1, turns, None) == Seq::<Effect>::empty());
    }
}

/// A connection answers each line in turn: it reads the line, reads the
/// directory if the line asks for it, writes the whole reply (the names, or
/// the error reply where reading the directory fails), and only then reads
/// the next line; it writes nothing before the first line is read, and once
/// the client has closed it does nothing more.
pub proof fn law_lines_answered_in_turn(turns: Seq<Turn>)
    ensures
        served(turns) == answers(turns) + seq![Effect::EndOfStream],
    decreases turns.len(),
{
    let start = idle(Phase::AwaitingLine);
    if turns.len() == 0 {
        let r = next(start, EventView::EndOfStream);
        assert(r.0.phase == Phase::Closed);
        assert(serve(r.0, r.1, turns, None) == Seq::<Effect>::empty());
        assert(served(turns) == seq![Effect::EndOfStream] + Seq::<Effect>::empty());
        assert(served(turns) =~= seq![Effect::EndOfStream]);
        assert(answers(turns) + seq![Effect::EndOfStream] =~= seq![Effect::EndOfStream]);
    } else {
        let t = turns[0];
        let l = t.line;
        let rest = turns.drop_first();
        law_lines_answered_in_turn(rest);
        let r = next(start, EventView::LineRead(l));
        assert(served(turns) == seq![Effect::Read(l)] + serve(r.0, r.1, rest, t.listing));
        match reply_to_line(l) {
            Some(rl) => {
                assert(rl.len() == 1);
                lemma_finish_reply(rl.drop_first(), rl[0], rest, t.listing);
                assert(seq![rl[0]] + rl.drop_first() =~= rl);
                assert(answer(t) =~= seq![Effect::Read(l)] + writes(rl));
            },
            None => {
                let ll = reply_lines(l, t.listing);
                let r2 = next(r.0, listing_event(t.listing));
                assert(r.0 == idle(Phase::AwaitingListing) && r.1 == ActionView::ListDirectory);
                assert(r2.0 == ConnectionView { phase: Phase::Replying, pending: ll.drop_first() });
                assert(r2.1 == ActionView::Send(ll[0]));
                assert(serve(r.0, r.1, rest, t.listing) == seq![Effect::List] + serve(
                    r2.0,
                    r2.1,
                    rest,
                    t.listing,
                ));
                lemma_finish_reply(ll.drop_first(), ll[0], rest, t.listing);
                assert(seq![ll[0]] + ll.drop_first() =~= ll);
                assert(answer(t) =~= seq![Effect::Read(l)] + seq![Effect::List] + writes(ll));
            },
        }
        assert(served(turns) =~= answers(turns) + seq![Effect::EndOfStream]);
    }
}

proof fn lemma_written_concat(a: Seq<Effect>, b: Seq<Effect>)
    ensures
        written(a + b) == written(a) + written(b),
    decreases a.len(),
{
    if a.len() == 0 {
        assert(a + b =~= b);
        assert(written(a) + written(b) =~= written(b));
    } else {
        lemma_written_concat(a.drop_first(), b);
        assert((a + b).drop_first() =~= a.drop_first() + b);
        assert((a + b)[0] == a[0]);
        match a[0] {
            Effect::Write(w) => {
                assert(seq![w] + (written(a.drop_first()) + written(b)) =~= seq![w] + written(
                    a.drop_first(),
                ) + written(b));
            },
            _ => {},
        }
    }
}

proof fn lemma_answers_concat(l1: Seq<Turn>, l2: Seq<Turn>)
    ensures
        answers(l1 + l2) == answers(l1) + answers(l2),
    decreases l1.len(),
{
    if l1.len() == 0 {
        assert(l1 + l2 =~= l2);
        assert(answers(l1) + answers(l2) =~= answers(l2));
    } else {
        lemma_answers_concat(l1.drop_first(), l2);
        assert((l1 + l2).drop_first() =~= l1.drop_first() + l2);
        assert((l1 + l2)[0] == l1[0]);
        assert(answer(l1[0]) + (answers(l1.drop_first()) + answers(l2))
            =~= answer(l1[0]) + answers(l1.drop_first()) + answers(l2));
    }
}

/// The server keeps nothing from one line to the next: what it writes for
/// two sequences of lines sent one after the other is what it writes for
/// each, one after the other.
pub proof fn law_no_state_between_lines(l1: Seq<Turn>, l2: Seq<Turn>)
    ensures
        written(served(l1 + l2)) == written(served(l1)) + written(served(l2)),
{
    let eos = seq![Effect::EndOfStream];
    law_lines_answered_in_turn(l1 + l2);
    law_lines_answered_in_turn(l1);
    law_lines_answered_in_turn(l2);
    lemma_answers_concat(l1, l2);
    assert(written(eos) =~= Seq::<Seq<char>>::empty()) by {
        assert(eos.drop_first() =~= Seq::<Effect>::empty());
        assert(written(Seq::<Effect>::empty()) == Seq::<Seq<char>>::empty());
        assert(written(eos) == written(eos.drop_first()));
    }
    lemma_written_concat(answers(l1) + answers(l2), eos);
    lemma_written_concat(answers(l1), answers(l2));
    lemma_written_concat(answers(l1), eos);
    lemma_written_concat(answers(l2), eos);
    assert(written(answers(l1)) + written(eos) =~= written(answers(l1)));
    assert(written(answers(l2)) + written(eos) =~= written(answers(l2)));
    assert(written(answers(l1) + answers(l2)) + written(eos) =~= written(
        answers(l1) + answers(l2),
    ));
}

} // verus!
