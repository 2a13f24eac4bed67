//! The duplex-streaming session: notes arrive one at a time, each is
//! indexed under its exact location, and the whole history stored at that
//! location — the new note included — is replayed to the caller at once.

use vstd::prelude::*;

use crate::geo::Point;

verus! {

/// A free-text note tied to a location, alive only for the duration of
/// one duplex call.
pub struct RouteNote {
    pub location: Point,
    pub message: String,
}

impl Clone for RouteNote {
    fn clone(&self) -> (r: Self)
        ensures
            r == *self,
    {
        RouteNote { location: self.location, message: self.message.clone() }
    }
}

/// The notes of `s` located exactly at `p`, in arrival order.
pub open spec fn spec_notes_at(s: Seq<RouteNote>, p: Point) -> Seq<RouteNote>
    decreases s.len(),
{
    if s.len() == 0 {
        Seq::empty()
    } else {
        let rest = spec_notes_at(s.drop_last(), p);
        if s.last().location == p {
            rest.push(s.last())
        } else {
            rest
        }
    }
}

/// The per-call note index of one duplex session: the notes received so
/// far, in arrival order, read as a mapping from a location to the notes
/// stored there. Created when the call starts, owned by that call alone,
/// and discarded when the call ends.
pub struct NoteIndex {
    pub log: Vec<RouteNote>,
}

impl NoteIndex {
    pub fn new() -> (s: Self)
        ensures
            s.log@ == Seq::<RouteNote>::empty(),
    {
        NoteIndex { log: Vec::new() }
    }

    /// What the index stores at `p`.
    pub open spec fn spec_notes(self, p: Point) -> Seq<RouteNote> {
        spec_notes_at(self.log@, p)
    }

    /// Receives one note: appends it at its location and returns the
    /// whole history stored at that exact location, the new note last.
    /// Every note ever sent to the same coordinates is replayed again.
    pub fn add_note(&mut self, note: RouteNote) -> (batch: Vec<RouteNote>)
        ensures
            final(self).log@ == old(self).log@.push(note),
            batch@ == final(self).spec_notes(note.location),
    {
        let location = note.location;
        self.log.push(note);
        let mut batch: Vec<RouteNote> = Vec::new();
        let mut i: usize = 0;
        while i < self.log.len()
            invariant
                i <= self.log@.len(),
                batch@ == spec_notes_at(self.log@.take(i as int), location),
            decreases self.log@.len() - i,
        {
            if self.log[i].location == location {
                batch.push(self.log[i].clone());
            }
            proof {
                assert(self.log@.take(i as int + 1).drop_last() =~= self.log@.take(i as int));
                assert(self.log@.take(i as int + 1).last() == self.log@[i as int]);
            }
            i = i + 1;
        }
        proof {
            assert(self.log@.take(self.log@.len() as int) =~= self.log@);
        }
        batch
    }
}

/// Runs a whole duplex session over an already-received sequence of
/// notes: batch `i` replays everything stored at the location of note
/// `i` once that note has been indexed.
pub fn route_chat_session(notes: &Vec<RouteNote>) -> (batches: Vec<Vec<RouteNote>>)
    ensures
        batches@.len() == notes@.len(),
        forall|i: int|
            0 <= i < notes@.len() ==> #[trigger] batches@[i]@ == spec_notes_at(
                notes@.take(i + 1),
                notes@[i].location,
            ),
{
    let mut index = NoteIndex::new();
    let mut batches: Vec<Vec<RouteNote>> = Vec::new();
    let mut i: usize = 0;
    while i < notes.len()
        invariant
            i <= notes@.len(),
            index.log@ == notes@.take(i as int),
            batches@.len() == i as int,
            forall|j: int|
                0 <= j < i as int ==> #[trigger] batches@[j]@ == spec_notes_at(
                    notes@.take(j + 1),
                    notes@[j].location,
                ),
        decreases notes@.len() - i,
    {
        let note = notes[i].clone();
        let batch = index.add_note(note);
        proof {
            assert(notes@.take(i as int).push(notes@[i as int]) =~= notes@.take(i as int + 1));
        }
        batches.push(batch);
        i = i + 1;
    }
    batches
}

/// What is stored at a location is exactly the filter of the arrival log
/// by that location.
pub proof fn lemma_notes_at_is_filter(s: Seq<RouteNote>, p: Point)
    ensures
        spec_notes_at(s, p) == s.filter(|n: RouteNote| n.location == p),
    decreases s.len(),
{
    reveal(Seq::filter);
    let pred = |n: RouteNote| n.location == p;
    if s.len() == 0 {
        assert(s =~= Seq::<RouteNote>::empty());
        assert(s.filter(pred) =~= Seq::<RouteNote>::empty());
    } else {
        lemma_notes_at_is_filter(s.drop_last(), p);
        assert(s.filter(pred) == if pred(s.last()) {
            s.drop_last().filter(pred).push(s.last())
        } else {
            s.drop_last().filter(pred)
        });
    }
}

/// Appending a note grows exactly its own location's history, by exactly
/// that note; every other location is untouched. The batch replayed for
/// a note is therefore one longer than the history stored at its
/// location before it arrived.
pub proof fn lemma_replay_growth(s: Seq<RouteNote>, n: RouteNote)
    ensures
        spec_notes_at(s.push(n), n.location) == spec_notes_at(s, n.location).push(n),
        forall|q: Point|
            q != n.location ==> #[trigger] spec_notes_at(s.push(n), q) == spec_notes_at(s, q),
{
    assert(s.push(n).drop_last() =~= s);
    assert forall|q: Point| q != n.location implies #[trigger] spec_notes_at(s.push(n), q)
        == spec_notes_at(s, q) by {
        assert(s.push(n).drop_last() =~= s);
    }
}

} // verus!
