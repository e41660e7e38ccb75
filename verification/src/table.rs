//! A game table on the server: a room's board and the events played on it.

use vstd::prelude::*;
use crate::board::{initial_view, well_formed, Board, BoardView};
use crate::net::ChessEvent;
use crate::rules::{after, keeps_form, ladders_before_start, play, playable};

verus! {

/// A room's game: its board and the events that made it.
pub struct Table {
    pub id: i32,
    pub board: Board,
    pub events: Vec<ChessEvent>,
}

/// An event that can be applied to a board without a panic and leaves it
/// well formed: a move that is playable and keeps the board's form (see
/// `keeps_form`; the server takes no other move), or any other event.
pub open spec fn sound_event(v: BoardView, ev: ChessEvent) -> bool {
    match ev {
        ChessEvent::Move(mv) => playable(v, mv) && keeps_form(v, mv),
        _ => true,
    }
}

/// `w` is a board that applying the event to `v` gives: a move is played
/// (a ladder it starts being stored under some unused key), other events
/// leave the board as it is.
pub open spec fn applied(v: BoardView, ev: ChessEvent, w: BoardView) -> bool {
    match ev {
        ChessEvent::Move(mv) => if mv.use_ladder {
            exists|k: (usize, u64)| !ladders_before_start(v, mv).contains_key(k) && w == play(v, mv, k)
        } else {
            w == after(v, mv)
        },
        _ => w == v,
    }
}

/// `w` is a board that applying the events in order to `v` gives.
pub open spec fn replayed(v: BoardView, evs: Seq<ChessEvent>, w: BoardView) -> bool
    decreases evs.len(),
{
    if evs.len() == 0 {
        w == v
    } else {
        exists|mid: BoardView|
            replayed(v, evs.drop_last(), mid) && #[trigger] applied(mid, evs.last(), w)
    }
}

/// Every event of the sequence is sound on every board that the events
/// before it can give.
pub open spec fn replay_safe(v: BoardView, evs: Seq<ChessEvent>) -> bool
    decreases evs.len(),
{
    if evs.len() == 0 {
        true
    } else {
        replay_safe(v, evs.drop_last()) && forall|mid: BoardView|
            #[trigger] replayed(v, evs.drop_last(), mid) ==> well_formed(mid) ==> sound_event(mid, evs.last())
    }
}

impl Table {
    /// A table for the room `id`, at the starting position, with no events.
    pub fn new(id: i32) -> (r: Table)
        ensures
            r.id == id,
            r.board@ == initial_view(),
            r.events@ == Seq::<ChessEvent>::empty(),
            well_formed(r.board@),
    {
        Table { id, board: Board::new(), events: Vec::new() }
    }

    /// Applies an event to the board and records it.
    pub fn process_inner(&mut self, ev: ChessEvent)
        requires
            well_formed(old(self).board@),
            sound_event(old(self).board@, ev),
        ensures
            final(self).id == old(self).id,
            final(self).events@ == old(self).events@.push(ev),
            applied(old(self).board@, ev, final(self).board@),
            well_formed(final(self).board@),
    {
        match ev {
            ChessEvent::Move(mv) => {
                mv.exec(&mut self.board);
            },
            ChessEvent::Start | ChessEvent::GameEnded => {},
        }
        self.events.push(ev);
    }

    /// Applies the events to the board, in order, and records them. Each
    /// event must be sound where it is applied: a move must be playable and
    /// keep the board well formed (so a piece that builds a ladder may not
    /// stay on its square and lose it, though playing that would not panic
    /// at once).
    pub fn load(&mut self, evs: Vec<ChessEvent>)
        requires
            well_formed(old(self).board@),
            replay_safe(old(self).board@, evs@),
        ensures
            final(self).id == old(self).id,
            final(self).events@ == old(self).events@ + evs@,
            replayed(old(self).board@, evs@, final(self).board@),
            well_formed(final(self).board@),
    {
        let ghost v0 = self.board@;
        let ghost e0 = self.events@;
        let mut i: usize = 0;
        while i < evs.len()
            invariant
                0 <= i <= evs@.len(),
                self.id == old(self).id,
                v0 == old(self).board@,
                e0 == old(self).events@,
                well_formed(self.board@),
                replay_safe(v0, evs@),
                self.events@ == e0 + evs@.subrange(0, i as int),
                replayed(v0, evs@.subrange(0, i as int), self.board@),
            decreases evs@.len() - i,
        {
            let ev = evs[i];
            proof {
                lemma_replay_safe_prefix(v0, evs@, (i + 1) as nat);
                let pre = evs@.subrange(0, (i + 1) as int);
                assert(pre.drop_last() =~= evs@.subrange(0, i as int));
                assert(pre.last() == ev);
            }
            let ghost mid = self.board@;
            self.process_inner(ev);
            proof {
                let pre = evs@.subrange(0, (i + 1) as int);
                assert(pre.drop_last() =~= evs@.subrange(0, i as int));
                assert(applied(mid, pre.last(), self.board@));
                assert(replayed(v0, pre, self.board@));
                assert(self.events@ =~= e0 + pre);
            }
            i = i + 1;
        }
        assert(evs@.subrange(0, evs@.len() as int) =~= evs@);
    }
}

proof fn lemma_replay_safe_prefix(v: BoardView, evs: Seq<ChessEvent>, n: nat)
    requires
        replay_safe(v, evs),
        n <= evs.len(),
    ensures
        replay_safe(v, evs.subrange(0, n as int)),
    decreases evs.len(),
{
    if n < evs.len() {
        assert(evs.drop_last().subrange(0, n as int) =~= evs.subrange(0, n as int));
        lemma_replay_safe_prefix(v, evs.drop_last(), n);
    } else {
        assert(evs.subrange(0, n as int) =~= evs);
    }
}

} // verus!
