//! Reassembly of the segments of a track. Segments are fetched in any order;
//! each has a slot of its own, so the order of the track never depends on the
//! order in which the fetches end.

use vstd::prelude::*;

verus! {

/// One slot per segment of a track, in playback order. A slot is empty until
/// the bytes of its segment are stored, and stays empty if they never come.
pub struct SegmentSlots {
    slots: Vec<Vec<u8>>,
}

impl View for SegmentSlots {
    type V = Seq<Seq<u8>>;

    closed spec fn view(&self) -> Seq<Seq<u8>> {
        self.slots@.map_values(|slot: Vec<u8>| slot@)
    }
}

/// `count` empty slots.
pub open spec fn empty_slots(count: nat) -> Seq<Seq<u8>> {
    Seq::new(count, |i: int| Seq::<u8>::empty())
}

/// A fetch that ended well: the position of the segment and its bytes.
pub struct Completion {
    pub index: int,
    pub bytes: Seq<u8>,
}

/// The slots after the given fetches have ended, in that order. A fetch for
/// a segment that has no slot changes nothing.
pub open spec fn after_completions(slots: Seq<Seq<u8>>, done: Seq<Completion>) -> Seq<Seq<u8>>
    decreases done.len(),
{
    if done.len() == 0 {
        slots
    } else if 0 <= done.last().index < slots.len() {
        after_completions(slots, done.drop_last()).update(done.last().index, done.last().bytes)
    } else {
        after_completions(slots, done.drop_last())
    }
}

/// Whether every fetch is for one of `count` segments and no segment was
/// fetched twice.
pub open spec fn one_fetch_each(done: Seq<Completion>, count: nat) -> bool {
    &&& forall|k: int| 0 <= k < done.len() ==> 0 <= (#[trigger] done[k]).index < count
    &&& forall|k: int, l: int|
        0 <= k < l < done.len() ==> (#[trigger] done[k]).index != (#[trigger] done[l]).index
}

/// Completions leave the number of slots as it is.
pub proof fn lemma_completions_keep_length(slots: Seq<Seq<u8>>, done: Seq<Completion>)
    ensures
        after_completions(slots, done).len() == slots.len(),
    decreases done.len(),
{
    if done.len() > 0 {
        lemma_completions_keep_length(slots, done.drop_last());
    }
}

/// Fetches that end one after the other fill the slots as all of them in a
/// row do.
pub proof fn lemma_completions_compose(
    slots: Seq<Seq<u8>>,
    earlier: Seq<Completion>,
    later: Seq<Completion>,
)
    ensures
        after_completions(after_completions(slots, earlier), later) == after_completions(
            slots,
            earlier + later,
        ),
    decreases later.len(),
{
    lemma_completions_keep_length(slots, earlier);
    if later.len() == 0 {
        assert(earlier + later == earlier);
    } else {
        lemma_completions_compose(slots, earlier, later.drop_last());
        assert((earlier + later).drop_last() == earlier + later.drop_last());
        assert((earlier + later).last() == later.last());
    }
}

/// A slot that no fetch was for is left as it was.
pub proof fn lemma_untouched_slot(slots: Seq<Seq<u8>>, done: Seq<Completion>, index: int)
    requires
        0 <= index < slots.len(),
        forall|k: int| 0 <= k < done.len() ==> (#[trigger] done[k]).index != index,
    ensures
        after_completions(slots, done)[index] == slots[index],
    decreases done.len(),
{
    if done.len() > 0 {
        let earlier = done.drop_last();
        assert forall|k: int| 0 <= k < earlier.len() implies (#[trigger] earlier[k]).index
            != index by {
            assert(earlier[k] == done[k]);
        }
        lemma_untouched_slot(slots, earlier, index);
        lemma_completions_keep_length(slots, earlier);
        assert(done.last() == done[done.len() - 1]);
    }
}

/// Order preservation: where no segment is fetched twice, each segment's slot
/// holds the bytes of that segment's fetch, at whatever point among the others
/// the fetch ended.
pub proof fn lemma_slot_holds_its_segment(count: nat, done: Seq<Completion>, k: int)
    requires
        one_fetch_each(done, count),
        0 <= k < done.len(),
    ensures
        after_completions(empty_slots(count), done).len() == count,
        after_completions(empty_slots(count), done)[done[k].index] == done[k].bytes,
    decreases done.len(),
{
    let earlier = done.drop_last();
    lemma_completions_keep_length(empty_slots(count), done);
    lemma_completions_keep_length(empty_slots(count), earlier);
    assert(done.last() == done[done.len() - 1]);
    if k < done.len() - 1 {
        assert(one_fetch_each(earlier, count)) by {
            assert forall|a: int| 0 <= a < earlier.len() implies 0 <= (#[trigger] earlier[a]).index
                < count by {
                assert(earlier[a] == done[a]);
            }
            assert forall|a: int, b: int| 0 <= a < b < earlier.len() implies (
            #[trigger] earlier[a]).index != (#[trigger] earlier[b]).index by {
                assert(earlier[a] == done[a]);
                assert(earlier[b] == done[b]);
            }
        }
        lemma_slot_holds_its_segment(count, earlier, k);
        assert(earlier[k] == done[k]);
        assert(done[k].index != done[done.len() - 1].index);
    }
}

/// A segment whose fetch never ended well leaves its slot empty.
pub proof fn lemma_failed_segment_is_empty(count: nat, done: Seq<Completion>, index: int)
    requires
        0 <= index < count,
        forall|k: int| 0 <= k < done.len() ==> (#[trigger] done[k]).index != index,
    ensures
        after_completions(empty_slots(count), done)[index] == Seq::<u8>::empty(),
{
    lemma_untouched_slot(empty_slots(count), done, index);
}

/// Order preservation, said of two runs: the same fetches, ending in any two
/// orders, fill the slots alike.
pub proof fn lemma_completion_order_is_irrelevant(
    count: nat,
    first: Seq<Completion>,
    second: Seq<Completion>,
)
    requires
        one_fetch_each(first, count),
        one_fetch_each(second, count),
        first.to_multiset() == second.to_multiset(),
    ensures
        after_completions(empty_slots(count), first) == after_completions(
            empty_slots(count),
            second,
        ),
{
    let a = after_completions(empty_slots(count), first);
    let b = after_completions(empty_slots(count), second);
    lemma_completions_keep_length(empty_slots(count), first);
    lemma_completions_keep_length(empty_slots(count), second);
    first.to_multiset_ensures();
    second.to_multiset_ensures();
    assert forall|i: int| 0 <= i < count implies a[i] == b[i] by {
        if exists|k: int| 0 <= k < first.len() && (#[trigger] first[k]).index == i {
            let k = choose|k: int| 0 <= k < first.len() && (#[trigger] first[k]).index == i;
            assert(first.contains(first[k]));
            assert(first.to_multiset().count(first[k]) > 0);
            assert(second.to_multiset().count(first[k]) > 0);
            assert(second.contains(first[k]));
            let l = choose|l: int| 0 <= l < second.len() && second[l] == first[k];
            lemma_slot_holds_its_segment(count, first, k);
            lemma_slot_holds_its_segment(count, second, l);
        } else {
            assert forall|l: int| 0 <= l < second.len() implies (#[trigger] second[l]).index
                != i by {
                assert(second.contains(second[l]));
                assert(second.to_multiset().count(second[l]) > 0);
                assert(first.to_multiset().count(second[l]) > 0);
                assert(first.contains(second[l]));
                let k = choose|k: int| 0 <= k < first.len() && first[k] == second[l];
                assert(first[k].index != i);
            }
            lemma_failed_segment_is_empty(count, first, i);
            lemma_failed_segment_is_empty(count, second, i);
        }
    }
    assert(a =~= b);
}

/// Failure containment: an empty slot adds nothing to the track, which is
/// made of the slots before it and those after it.
pub proof fn lemma_empty_slot_adds_nothing(slots: Seq<Seq<u8>>, index: int)
    requires
        0 <= index < slots.len(),
        slots[index].len() == 0,
    ensures
        slots.flatten() == slots.take(index).flatten() + slots.skip(index + 1).flatten(),
{
    let before = slots.take(index);
    let after = slots.skip(index + 1);
    assert(slots == before.push(slots[index]) + after);
    vstd::seq_lib::lemma_flatten_concat(before.push(slots[index]), after);
    before.lemma_flatten_push(slots[index]);
    assert(before.flatten() + slots[index] == before.flatten());
}

impl SegmentSlots {
    /// One empty slot for each of `count` segments.
    pub fn new(count: usize) -> (slots: SegmentSlots)
        ensures
            slots@ == empty_slots(count as nat),
    {
        let mut slots: Vec<Vec<u8>> = Vec::new();
        while slots.len() < count
            invariant
                slots.len() <= count,
                forall|i: int| 0 <= i < slots.len() ==> (#[trigger] slots[i])@ == Seq::<u8>::empty(),
            decreases count - slots.len(),
        {
            slots.push(Vec::new());
        }
        assert(slots@.map_values(|slot: Vec<u8>| slot@) =~= empty_slots(count as nat));
        SegmentSlots { slots }
    }

    /// The number of slots.
    pub fn len(&self) -> (count: usize)
        ensures
            count == self@.len(),
    {
        self.slots.len()
    }

    /// Puts the bytes of the segment at `index` into its slot, in place of
    /// what the slot held. Bytes for a segment that has no slot are dropped.
    pub fn store(&mut self, index: usize, bytes: Vec<u8>)
        ensures
            final(self)@ == after_completions(
                old(self)@,
                seq![Completion { index: index as int, bytes: bytes@ }],
            ),
            final(self)@.len() == old(self)@.len(),
            index < old(self)@.len() ==> final(self)@ == old(self)@.update(index as int, bytes@),
            index >= old(self)@.len() ==> final(self)@ == old(self)@,
    {
        proof {
            reveal_with_fuel(after_completions, 2);
            let done = seq![Completion { index: index as int, bytes: bytes@ }];
            assert(done.last() == Completion { index: index as int, bytes: bytes@ });
            assert(done.drop_last().len() == 0);
        }
        if index < self.slots.len() {
            self.slots.set(index, bytes);
            assert(self@ =~= old(self)@.update(index as int, bytes@));
        }
    }

    /// The track: the contents of the slots, one after the other.
    pub fn assemble(&self) -> (track: Vec<u8>)
        ensures
            track@ == self@.flatten(),
    {
        let mut track: Vec<u8> = Vec::new();
        let mut at: usize = 0;
        assert(self@.take(0).flatten() =~= Seq::<u8>::empty());
        while at < self.slots.len()
            invariant
                at <= self.slots.len(),
                track@ == self@.take(at as int).flatten(),
            decreases self.slots.len() - at,
        {
            proof {
                self@.take(at as int).lemma_flatten_push(self@[at as int]);
                assert(self@.take(at as int).push(self@[at as int]) == self@.take(at + 1));
            }
            assert(self@[at as int] == self.slots[at as int]@);
            track.extend_from_slice(self.slots[at].as_slice());
            at += 1;
        }
        assert(self@.take(at as int) == self@);
        track
    }
}

} // verus!
