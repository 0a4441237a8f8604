//! Stacking geometry.
//!
//! [`Heights`] keeps one measured height per visible toast, ordered front to
//! back like the visual stack, and derives each toast's stacking offset: the
//! gap times its index plus the heights of every toast in front of it.

use vstd::prelude::*;

use crate::toast_id::ToastId;

verus! {

/// Upper bound on how many height records a tracker accepts; offsets then
/// provably fit in a `u64`.
pub const MAX_RECORDS: usize = 0x8000_0000;

/// The measured height of one visible toast.
#[derive(Debug)]
pub struct HeightT {
    /// Id of the toast the measurement belongs to.
    pub toast_id: ToastId,
    /// Measured height in whole pixels.
    pub height: u32,
}

/// Index of the first record in `hs` whose id has the bytes `id`, or -1 when
/// no record matches.
pub open spec fn find_height(hs: Seq<HeightT>, id: Seq<u8>) -> int
    decreases hs.len(),
{
    if hs.len() == 0 {
        -1
    } else if hs[0].toast_id@ == id {
        0
    } else {
        let r = find_height(hs.drop_first(), id);
        if r < 0 {
            -1
        } else {
            1 + r
        }
    }
}

/// `find_height` returns either -1 with no match anywhere, or the first
/// matching index.
pub proof fn lemma_find_height(hs: Seq<HeightT>, id: Seq<u8>)
    ensures
        -1 <= find_height(hs, id) < hs.len(),
        find_height(hs, id) == -1 ==> forall|j: int|
            0 <= j < hs.len() ==> (#[trigger] hs[j].toast_id)@ != id,
        find_height(hs, id) >= 0 ==> hs[find_height(hs, id)].toast_id@ == id,
        find_height(hs, id) >= 0 ==> forall|j: int|
            0 <= j < find_height(hs, id) ==> (#[trigger] hs[j].toast_id)@ != id,
    decreases hs.len(),
{
    if hs.len() > 0 && hs[0].toast_id@ != id {
        lemma_find_height(hs.drop_first(), id);
        assert(forall|j: int|
            1 <= j < hs.len() ==> (#[trigger] hs[j].toast_id) == hs.drop_first()[j - 1].toast_id);
    }
}

/// The index a toast stacks at: its record's position, or 0 when it has no
/// record (a toast measured yet never registered falls back to the front).
pub open spec fn spec_height_index(hs: Seq<HeightT>, id: Seq<u8>) -> int {
    if find_height(hs, id) >= 0 {
        find_height(hs, id)
    } else {
        0
    }
}

/// Total of the heights in `hs`, front to back.
pub open spec fn sum_heights(hs: Seq<HeightT>) -> int
    decreases hs.len(),
{
    if hs.len() == 0 {
        0
    } else {
        hs[0].height + sum_heights(hs.drop_first())
    }
}

/// The pixel offset of the toast stacking at `idx`: one gap per toast in
/// front of it, plus those toasts' measured heights.
pub open spec fn spec_offset(hs: Seq<HeightT>, gap: u32, idx: int) -> int {
    gap * idx + sum_heights(hs.take(idx))
}

/// Appending one record adds its height to the total.
proof fn lemma_sum_heights_push(hs: Seq<HeightT>, h: HeightT)
    ensures
        sum_heights(hs.push(h)) == sum_heights(hs) + h.height,
    decreases hs.len(),
{
    if hs.len() == 0 {
        assert(hs.push(h)[0] == h);
        assert(hs.push(h).drop_first() =~= Seq::<HeightT>::empty());
        assert(sum_heights(Seq::<HeightT>::empty()) == 0);
        assert(sum_heights(hs) == 0);
    } else {
        assert(hs.push(h).drop_first() =~= hs.drop_first().push(h));
        lemma_sum_heights_push(hs.drop_first(), h);
    }
}

/// The ordered sequence of height records, front of the stack at index 0.
#[derive(Debug)]
pub struct Heights {
    /// The records, in visual stack order.
    pub records: Vec<HeightT>,
}

impl Heights {
    /// A tracker with no measurements yet.
    pub fn new() -> (r: Heights)
        ensures
            r.records@.len() == 0,
    {
        Heights { records: Vec::new() }
    }

    /// Records the measured height of a newly shown toast at the front of
    /// the stack.
    pub fn register(&mut self, toast_id: ToastId, height: u32)
        requires
            old(self).records@.len() < MAX_RECORDS,
        ensures
            final(self).records@ == old(self).records@.insert(
                0,
                HeightT { toast_id, height },
            ),
    {
        self.records.insert(0, HeightT { toast_id, height });
    }

    /// Drops the record of the toast with the given id, if it has one; the
    /// toasts behind it reflow forward.
    pub fn unregister(&mut self, toast_id: &ToastId)
        ensures
            ({
                let i = find_height(old(self).records@, toast_id@);
                if i >= 0 {
                    final(self).records@ == old(self).records@.remove(i)
                } else {
                    final(self).records@ == old(self).records@
                }
            }),
    {
        proof {
            lemma_find_height(self.records@, toast_id@);
        }
        let mut i: usize = 0;
        while i < self.records.len()
            invariant
                0 <= i <= self.records@.len(),
                self.records@ == old(self).records@,
                forall|j: int| 0 <= j < i ==> (#[trigger] self.records@[j].toast_id)@ != toast_id@,
                -1 <= find_height(self.records@, toast_id@) < self.records@.len(),
                find_height(self.records@, toast_id@) >= 0 ==> self.records@[find_height(
                    self.records@,
                    toast_id@,
                )].toast_id@ == toast_id@,
                find_height(self.records@, toast_id@) >= 0 ==> forall|j: int|
                    0 <= j < find_height(self.records@, toast_id@) ==> (#[trigger] self.records@[j].toast_id)@
                        != toast_id@,
                find_height(self.records@, toast_id@) == -1 ==> forall|j: int|
                    0 <= j < self.records@.len() ==> (#[trigger] self.records@[j].toast_id)@
                        != toast_id@,
            decreases self.records@.len() - i,
        {
            if self.records[i].toast_id == *toast_id {
                self.records.remove(i);
                return ;
            }
            i = i + 1;
        }
    }

    /// The stack index of the toast with the given id: its record's
    /// position, or 0 when it has no record.
    pub fn height_index(&self, toast_id: &ToastId) -> (r: usize)
        ensures
            r == spec_height_index(self.records@, toast_id@),
    {
        proof {
            lemma_find_height(self.records@, toast_id@);
        }
        let mut i: usize = 0;
        while i < self.records.len()
            invariant
                0 <= i <= self.records@.len(),
                forall|j: int| 0 <= j < i ==> (#[trigger] self.records@[j].toast_id)@ != toast_id@,
                -1 <= find_height(self.records@, toast_id@) < self.records@.len(),
                find_height(self.records@, toast_id@) >= 0 ==> self.records@[find_height(
                    self.records@,
                    toast_id@,
                )].toast_id@ == toast_id@,
                find_height(self.records@, toast_id@) >= 0 ==> forall|j: int|
                    0 <= j < find_height(self.records@, toast_id@) ==> (#[trigger] self.records@[j].toast_id)@
                        != toast_id@,
                find_height(self.records@, toast_id@) == -1 ==> forall|j: int|
                    0 <= j < self.records@.len() ==> (#[trigger] self.records@[j].toast_id)@
                        != toast_id@,
            decreases self.records@.len() - i,
        {
            if self.records[i].toast_id == *toast_id {
                return i;
            }
            i = i + 1;
        }
        0
    }

    /// The pixel offset the toast with the given id stacks at: `gap` for
    /// every toast in front of it plus their measured heights.
    pub fn offset_for(&self, toast_id: &ToastId, gap: u32) -> (r: u64)
        requires
            self.records@.len() <= MAX_RECORDS,
        ensures
            r == spec_offset(self.records@, gap, spec_height_index(self.records@, toast_id@)),
    {
        let idx = self.height_index(toast_id);
        proof {
            lemma_find_height(self.records@, toast_id@);
        }
        let mut acc: u64 = 0;
        let mut j: usize = 0;
        while j < idx
            invariant
                0 <= j <= idx <= self.records@.len() <= MAX_RECORDS,
                acc == sum_heights(self.records@.take(j as int)),
                acc <= j * 0xffff_ffff,
            decreases idx - j,
        {
            proof {
                assert(self.records@.take(j + 1) =~= self.records@.take(j as int).push(
                    self.records@[j as int],
                ));
                lemma_sum_heights_push(self.records@.take(j as int), self.records@[j as int]);
            }
            acc = acc + (self.records[j].height as u64);
            j = j + 1;
        }
        proof {
            assert((gap as int) * (idx as int) <= 0xffff_ffffu64 * (MAX_RECORDS as u64))
                by (nonlinear_arith)
                requires
                    gap <= 0xffff_ffffu32,
                    0 <= idx <= MAX_RECORDS,
            ;
        }
        (gap as u64) * (idx as u64) + acc
    }

    /// Height of the front-most record, or 0 when nothing is measured; sizes
    /// the stack's hit region to the fully visible toast.
    pub fn front_height(&self) -> (r: u32)
        ensures
            self.records@.len() == 0 ==> r == 0,
            self.records@.len() > 0 ==> r == self.records@[0].height,
    {
        if self.records.len() == 0 {
            0
        } else {
            self.records[0].height
        }
    }
}

} // verus!
