//! The queue of tracks that wait to be played.

use vstd::prelude::*;
use std::collections::VecDeque;
use crate::track::AudioMetadata;

verus! {

/// An unbounded first-in, first-out queue of tracks. Its view lists the
/// tracks from the one that leaves next to the one that came last.
pub struct Playlist {
    data: VecDeque<AudioMetadata>,
}

impl View for Playlist {
    type V = Seq<AudioMetadata>;

    closed spec fn view(&self) -> Seq<AudioMetadata> {
        self.data@
    }
}

impl Playlist {
    /// An empty playlist.
    pub fn new() -> (playlist: Self)
        ensures
            playlist@ == Seq::<AudioMetadata>::empty(),
    {
        Self { data: VecDeque::new() }
    }

    /// Puts `data` at the end of the queue.
    pub fn push(&mut self, data: AudioMetadata)
        ensures
            final(self)@ == old(self)@.push(data),
    {
        self.data.push_back(data)
    }

    /// Takes the track that has waited longest out of the queue.
    pub fn pop(&mut self) -> (next: Option<AudioMetadata>)
        ensures
            old(self)@.len() == 0 ==> next is None && final(self)@ == old(self)@,
            old(self)@.len() > 0 ==> next == Some(old(self)@[0]) && final(self)@ == old(
                self,
            )@.drop_first(),
    {
        self.data.pop_front()
    }

    /// A copy of the waiting tracks, the next one first.
    pub fn to_vec(&self) -> (tracks: Vec<AudioMetadata>)
        ensures
            tracks@ == self@,
    {
        let mut tracks: Vec<AudioMetadata> = Vec::new();
        let mut i: usize = 0;
        while i < self.data.len()
            invariant
                0 <= i <= self.data@.len(),
                tracks@ == self.data@.take(i as int),
            decreases self.data@.len() - i,
        {
            tracks.push(self.data[i].clone());
            i += 1;
            assert(self.data@.take(i as int) =~= self.data@.take(i as int - 1).push(
                self.data@[i as int - 1],
            ));
        }
        assert(self.data@.take(i as int) =~= self.data@);
        tracks
    }

    /// Whether no track waits.
    pub fn is_empty(&self) -> (empty: bool)
        ensures
            empty == (self@.len() == 0),
    {
        self.data.len() == 0
    }

    /// The number of waiting tracks.
    pub fn len(&self) -> (len: usize)
        ensures
            len == self@.len(),
    {
        self.data.len()
    }

    /// Drops every waiting track.
    pub fn clear(&mut self)
        ensures
            final(self)@ == Seq::<AudioMetadata>::empty(),
    {
        self.data.clear();
    }
}

/// The queue `queue` after each of `items` was pushed in turn.
pub open spec fn after_pushes<A>(queue: Seq<A>, items: Seq<A>) -> Seq<A>
    decreases items.len(),
{
    if items.len() == 0 {
        queue
    } else {
        after_pushes(queue.push(items[0]), items.drop_first())
    }
}

/// What `count` pops in a row return, starting from `queue`.
pub open spec fn pops<A>(queue: Seq<A>, count: nat) -> Seq<Option<A>>
    decreases count,
{
    if count == 0 {
        Seq::empty()
    } else if queue.len() == 0 {
        seq![None] + pops(queue, (count - 1) as nat)
    } else {
        seq![Some(queue[0])] + pops(queue.drop_first(), (count - 1) as nat)
    }
}

proof fn lemma_pushes_append<A>(queue: Seq<A>, items: Seq<A>)
    ensures
        after_pushes(queue, items) == queue + items,
    decreases items.len(),
{
    if items.len() == 0 {
        assert(queue + items =~= queue);
    } else {
        lemma_pushes_append(queue.push(items[0]), items.drop_first());
        assert(queue.push(items[0]) + items.drop_first() =~= queue + items);
    }
}

proof fn lemma_pops_in_order<A>(queue: Seq<A>)
    ensures
        pops(queue, queue.len()) == queue.map_values(|x: A| Some(x)),
    decreases queue.len(),
{
    if queue.len() == 0 {
        assert(pops(queue, 0) =~= queue.map_values(|x: A| Some(x)));
    } else {
        lemma_pops_in_order(queue.drop_first());
        assert(seq![Some(queue[0])] + queue.drop_first().map_values(|x: A| Some(x))
            =~= queue.map_values(|x: A| Some(x)));
    }
}

/// First in, first out: whatever is pushed onto a queue comes out of it
/// after what waited there before, each item once and in the order of the
/// pushes.
pub proof fn lemma_fifo<A>(queue: Seq<A>, items: Seq<A>)
    ensures
        pops(after_pushes(queue, items), queue.len() + items.len()) == (queue
            + items).map_values(|x: A| Some(x)),
{
    lemma_pushes_append(queue, items);
    lemma_pops_in_order(queue + items);
}

} // verus!
