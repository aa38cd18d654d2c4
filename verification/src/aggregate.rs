//! A read-only view over a body that arrived in chunks.

use crate::text::{copy_bytes, joined, rows};
use vstd::prelude::*;
use vstd::slice::{slice_subrange, slice_to_vec};

verus! {

/// The rows of a sequence that are not empty, in order.
pub open spec fn without_empty(all: Seq<Seq<u8>>) -> Seq<Seq<u8>>
    decreases all.len(),
{
    if all.len() == 0 {
        Seq::<Seq<u8>>::empty()
    } else if all.last().len() == 0 {
        without_empty(all.drop_last())
    } else {
        without_empty(all.drop_last()).push(all.last())
    }
}

/// What is left of `chunks` once `count` bytes have been consumed from the
/// front: whole chunks leave, and the chunk in which the count ends keeps
/// what follows.
pub open spec fn advanced_by(chunks: Seq<Seq<u8>>, count: int) -> Seq<Seq<u8>>
    decreases chunks.len(),
{
    if count <= 0 || chunks.len() == 0 {
        chunks
    } else if count < chunks[0].len() {
        seq![chunks[0].skip(count)] + chunks.skip(1)
    } else {
        advanced_by(chunks.skip(1), count - chunks[0].len())
    }
}

/// Joining rows is joining the first row to the rest joined.
pub proof fn lemma_joined_front(all: Seq<Seq<u8>>)
    requires
        all.len() > 0,
    ensures
        joined(all) == all[0] + joined(all.skip(1)),
    decreases all.len(),
{
    if all.len() == 1 {
        assert(all.drop_last() =~= Seq::<Seq<u8>>::empty());
        assert(all.skip(1) =~= Seq::<Seq<u8>>::empty());
        assert(joined(all) =~= all[0] + joined(all.skip(1)));
    } else {
        lemma_joined_front(all.drop_last());
        assert(all.drop_last().skip(1) =~= all.skip(1).drop_last());
        assert(all.skip(1).last() == all.last());
        assert(all.drop_last()[0] == all[0]);
        assert(joined(all) =~= all[0] + joined(all.skip(1)));
    }
}

/// A cursor over the chunks of a body. What is left to read is a sequence of
/// chunks, none of them empty.
#[derive(Debug)]
pub struct Aggregate {
    segments: Vec<Vec<u8>>,
    index: usize,
    offset: usize,
}

impl Aggregate {
    /// The cursor stands inside a chunk or at the end, and no chunk is empty.
    pub closed spec fn wf(&self) -> bool {
        &&& self.index <= self.segments@.len()
        &&& forall|i: int|
            0 <= i < self.segments@.len() ==> (#[trigger] self.segments@[i])@.len() > 0
        &&& self.index < self.segments@.len() ==> self.offset
            < self.segments@[self.index as int]@.len()
        &&& self.index == self.segments@.len() ==> self.offset == 0
    }

    /// The chunks that are left to read, the first one from where the cursor
    /// stands in it.
    pub closed spec fn rest(&self) -> Seq<Seq<u8>> {
        if self.index < self.segments@.len() {
            seq![self.segments@[self.index as int]@.skip(self.offset as int)] + rows(
                self.segments@,
            ).skip(self.index + 1)
        } else {
            Seq::<Seq<u8>>::empty()
        }
    }

    /// No chunk that is left is empty.
    pub proof fn lemma_rest_has_no_empty(&self)
        requires
            self.wf(),
        ensures
            forall|i: int| 0 <= i < self.rest().len() ==> (#[trigger] self.rest()[i]).len() > 0,
    {
        assert forall|i: int| 0 <= i < self.rest().len() implies (#[trigger] self.rest()[i]).len()
            > 0 by {
            if i > 0 {
                assert(self.rest()[i] == self.segments@[self.index + i]@);
            }
        }
    }

    /// A cursor at the start of `chunks`; empty chunks are left out.
    pub fn new(chunks: Vec<Vec<u8>>) -> (r: Aggregate)
        ensures
            r.wf(),
            r.rest() == without_empty(rows(chunks@)),
    {
        let ghost all = rows(chunks@);
        let mut kept: Vec<Vec<u8>> = Vec::new();
        let mut i: usize = 0;
        assert(all.take(0) =~= Seq::<Seq<u8>>::empty());
        assert(rows(kept@) =~= Seq::<Seq<u8>>::empty());
        while i < chunks.len()
            invariant
                i <= chunks.len(),
                all == rows(chunks@),
                rows(kept@) == without_empty(all.take(i as int)),
                forall|k: int| 0 <= k < kept@.len() ==> (#[trigger] kept@[k])@.len() > 0,
            decreases chunks.len() - i,
        {
            assert(all.take(i + 1).drop_last() =~= all.take(i as int));
            assert(all.take(i + 1).last() == chunks[i as int]@);
            if chunks[i].len() > 0 {
                let ghost before = rows(kept@);
                kept.push(copy_bytes(&chunks[i]));
                assert(rows(kept@) =~= before.push(chunks[i as int]@));
            }
            i += 1;
        }
        assert(all.take(i as int) =~= all);
        let r = Aggregate { segments: kept, index: 0, offset: 0 };
        assert(r.rest() =~= rows(kept@)) by {
            if kept@.len() > 0 {
                assert(kept@[0]@.skip(0) =~= kept@[0]@);
            }
        }
        r
    }

    /// Whether anything is left to read.
    pub fn has_remaining(&self) -> (r: bool)
        requires
            self.wf(),
        ensures
            r == (self.rest().len() > 0),
            r == (joined(self.rest()).len() > 0),
    {
        proof {
            if self.rest().len() > 0 {
                lemma_joined_front(self.rest());
            }
        }
        self.index < self.segments.len()
    }

    /// The bytes that can be read without crossing into the next chunk:
    /// the first chunk that is left, and nothing where nothing is left.
    pub fn chunk(&self) -> (r: &[u8])
        requires
            self.wf(),
        ensures
            self.rest().len() > 0 ==> r@ == self.rest()[0],
            self.rest().len() == 0 ==> r@.len() == 0,
    {
        if self.index < self.segments.len() {
            let segment = &self.segments[self.index];
            let r = slice_subrange(segment.as_slice(), self.offset, segment.len());
            assert(r@ =~= segment@.skip(self.offset as int));
            r
        } else {
            let none: &[u8] = &[];
            none
        }
    }

    /// Consumes `count` bytes from the front of what is left.
    pub fn advance(&mut self, count: usize)
        requires
            old(self).wf(),
            count <= joined(old(self).rest()).len(),
        ensures
            final(self).wf(),
            final(self).rest() == advanced_by(old(self).rest(), count as int),
    {
        let mut left: usize = count;
        while left > 0
            invariant
                self.wf(),
                left <= joined(self.rest()).len(),
                advanced_by(self.rest(), left as int) == advanced_by(
                    old(self).rest(),
                    count as int,
                ),
            decreases left,
        {
            let ghost before = self.rest();
            proof {
                if before.len() > 0 {
                    lemma_joined_front(before);
                }
            }
            assert(self.index < self.segments.len());
            let available: usize = self.segments[self.index].len() - self.offset;
            assert(available == before[0].len());
            if left < available {
                let ghost step = left as int;
                let ghost start = self.offset as int;
                self.offset = self.offset + left;
                left = 0;
                assert(self.rest() =~= seq![before[0].skip(step)] + before.skip(1)) by {
                    let segment = self.segments@[self.index as int]@;
                    assert(segment.skip(start + step) =~= segment.skip(start).skip(step));
                    assert(before.skip(1) =~= rows(self.segments@).skip(self.index + 1));
                }
                assert(advanced_by(before, step) == self.rest());
            } else {
                left = left - available;
                self.index = self.index + 1;
                self.offset = 0;
                assert(self.rest() =~= before.skip(1)) by {
                    assert(before.skip(1) =~= rows(self.segments@).skip(self.index as int));
                    if self.index < self.segments@.len() {
                        assert(self.segments@[self.index as int]@.skip(0)
                            =~= self.segments@[self.index as int]@);
                    }
                }
            }
        }
    }
}

/// Walks over a body chunk by chunk and returns the chunks in the order
/// read: all that was left of the body.
pub fn full_body(body: Aggregate) -> (seen: Vec<Vec<u8>>)
    requires
        body.wf(),
    ensures
        rows(seen@) == body.rest(),
{
    let mut body = body;
    let ghost all = body.rest();
    let mut seen: Vec<Vec<u8>> = Vec::new();
    assert(rows(seen@) + body.rest() =~= all);
    while body.has_remaining()
        invariant
            body.wf(),
            rows(seen@) + body.rest() == all,
        decreases body.rest().len(),
    {
        let ghost before = body.rest();
        let ghost already = rows(seen@);
        proof {
            lemma_joined_front(before);
            body.lemma_rest_has_no_empty();
        }
        let slice = body.chunk();
        let count = slice.len();
        seen.push(slice_to_vec(slice));
        body.advance(count);
        assert(count == before[0].len());
        assert(advanced_by(before, count as int) == advanced_by(before.skip(1), 0));
        assert(body.rest() =~= before.skip(1));
        assert(rows(seen@) =~= already.push(before[0]));
        assert(rows(seen@) + body.rest() =~= already + before);
    }
    assert(rows(seen@) + body.rest() =~= rows(seen@));
    seen
}

} // verus!
