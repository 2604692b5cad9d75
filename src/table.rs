//! The frequency table: how many frames were seen under each fingerprint.

use crate::fingerprint::{fingerprint_of, spec_fingerprint, PacketInfos};
use vstd::prelude::*;

verus! {

/// Largest value a counter can hold; a counter that reaches it stays there.
pub const COUNT_MAX: u64 = 0xffff_ffff_ffff_ffff;

/// The counter of `k` in a table whose counts are `m` (absent keys count 0).
pub open spec fn count_in(m: Map<PacketInfos, nat>, k: PacketInfos) -> nat {
    if m.contains_key(k) {
        m[k]
    } else {
        0
    }
}

/// `rows` lists the counts `m` exactly: one row per key of `m`, keys
/// unique, each row carrying that key's (positive) counter.
pub open spec fn rows_agree(rows: Seq<(PacketInfos, u64)>, m: Map<PacketInfos, nat>) -> bool {
    &&& forall|i: int, j: int|
        0 <= i < j < rows.len() ==> (#[trigger] rows[i]).0 != (#[trigger] rows[j]).0
    &&& forall|i: int|
        0 <= i < rows.len() ==> {
            &&& m.contains_key((#[trigger] rows[i]).0)
            &&& m[rows[i].0] == rows[i].1 as nat
            &&& rows[i].1 > 0
        }
    &&& forall|k: PacketInfos| #[trigger]
        m.contains_key(k) ==> exists|i: int| 0 <= i < rows.len() && (#[trigger] rows[i]).0 == k
}

/// The number of frames in `frames` whose fingerprint is `f`.
pub open spec fn frames_with(frames: Seq<Seq<u8>>, f: PacketInfos) -> nat
    decreases frames.len(),
{
    if frames.len() == 0 {
        0
    } else {
        frames_with(frames.drop_last(), f) + if spec_fingerprint(frames.last()) == Some(f) {
            1nat
        } else {
            0nat
        }
    }
}

/// `n`, held at `COUNT_MAX`.
pub open spec fn saturated(n: nat) -> nat {
    if n > COUNT_MAX {
        COUNT_MAX as nat
    } else {
        n
    }
}

/// Mapping from fingerprint to occurrence counter; keys unique, insertion
/// order irrelevant to its meaning.
pub struct FrequencyTable {
    entries: Vec<(PacketInfos, u64)>,
    counts: Ghost<Map<PacketInfos, nat>>,
}

impl View for FrequencyTable {
    type V = Map<PacketInfos, nat>;

    closed spec fn view(&self) -> Map<PacketInfos, nat> {
        self.counts@
    }
}

impl FrequencyTable {
    /// The rows of the table in their stored order.
    pub closed spec fn rows(&self) -> Seq<(PacketInfos, u64)> {
        self.entries@
    }

    pub closed spec fn wf(&self) -> bool {
        rows_agree(self.entries@, self.counts@)
    }

    /// The counter of `k`.
    pub open spec fn count(&self, k: PacketInfos) -> nat {
        count_in(self@, k)
    }

    /// No counter exceeds `COUNT_MAX`.
    pub proof fn lemma_count_bounded(&self, k: PacketInfos)
        requires
            self.wf(),
        ensures
            self.count(k) <= COUNT_MAX,
    {
        if self@.contains_key(k) {
            let i = choose|i: int| 0 <= i < self.entries@.len() && (#[trigger] self.entries@[i]).0 == k;
            assert(self.counts@[self.entries@[i].0] == self.entries@[i].1 as nat);
        }
    }

    /// An empty table.
    pub fn new() -> (r: FrequencyTable)
        ensures
            r.wf(),
            r@ == Map::<PacketInfos, nat>::empty(),
    {
        FrequencyTable { entries: Vec::new(), counts: Ghost(Map::empty()) }
    }

    fn find(&self, k: PacketInfos) -> (r: Option<usize>)
        requires
            self.wf(),
        ensures
            match r {
                Some(i) => i < self.entries@.len() && self.entries@[i as int].0 == k,
                None => !self@.contains_key(k),
            },
    {
        let mut i: usize = 0;
        while i < self.entries.len()
            invariant
                i <= self.entries@.len(),
                forall|j: int| 0 <= j < i ==> (#[trigger] self.entries@[j]).0 != k,
            decreases self.entries@.len() - i,
        {
            if self.entries[i].0 == k {
                return Some(i);
            }
            i = i + 1;
        }
        None
    }

    /// The counter of `k`.
    pub fn count_of(&self, k: PacketInfos) -> (r: u64)
        requires
            self.wf(),
        ensures
            r as nat == self.count(k),
    {
        match self.find(k) {
            Some(i) => self.entries[i].1,
            None => 0,
        }
    }

    /// Counts one more frame under `k`: inserts it with 1 where it is absent.
    /// A counter already at `COUNT_MAX` is left as it is, and `false` is
    /// returned; otherwise `true`.
    pub fn increment(&mut self, k: PacketInfos) -> (r: bool)
        requires
            old(self).wf(),
        ensures
            final(self).wf(),
            r == (old(self).count(k) < COUNT_MAX),
            r ==> final(self)@ == old(self)@.insert(k, old(self).count(k) + 1),
            !r ==> final(self)@ == old(self)@,
    {
        match self.find(k) {
            Some(i) => {
                let n = self.entries[i].1;
                if n == COUNT_MAX {
                    false
                } else {
                    let ghost old_entries = self.entries@;
                    self.entries.set(i, (k, n + 1));
                    self.counts = Ghost(self.counts@.insert(k, (n + 1) as nat));
                    assert forall|k2: PacketInfos| #[trigger]
                        self.counts@.contains_key(k2) implies exists|j: int|
                        0 <= j < self.entries@.len() && (#[trigger] self.entries@[j]).0 == k2 by {
                        if k2 != k {
                            let j = choose|j: int|
                                0 <= j < old_entries.len() && (#[trigger] old_entries[j]).0 == k2;
                            assert(self.entries@[j].0 == k2);
                        } else {
                            assert(self.entries@[i as int].0 == k2);
                        }
                    }
                    true
                }
            },
            None => {
                let ghost old_entries = self.entries@;
                self.entries.push((k, 1));
                self.counts = Ghost(self.counts@.insert(k, 1));
                assert forall|k2: PacketInfos| #[trigger]
                    self.counts@.contains_key(k2) implies exists|j: int|
                    0 <= j < self.entries@.len() && (#[trigger] self.entries@[j]).0 == k2 by {
                    if k2 != k {
                        let j = choose|j: int|
                            0 <= j < old_entries.len() && (#[trigger] old_entries[j]).0 == k2;
                        assert(self.entries@[j].0 == k2);
                    } else {
                        assert(self.entries@[old_entries.len() as int].0 == k2);
                    }
                }
                true
            },
        }
    }

    /// Counts one raw frame under its fingerprint. A frame too short to
    /// fingerprint is skipped and leaves the table as it was.
    pub fn record_frame(&mut self, frame: &[u8])
        requires
            old(self).wf(),
        ensures
            final(self).wf(),
            forall|k: PacketInfos|
                #[trigger] final(self).count(k) == saturated(
                    old(self).count(k) + if spec_fingerprint(frame@) == Some(k) {
                        1nat
                    } else {
                        0nat
                    },
                ),
    {
        match fingerprint_of(frame) {
            Some(f) => {
                self.increment(f);
            },
            None => {},
        }
    }

    /// Counts every frame of `frames`, in order. Each counter ends as its
    /// old value plus the number of frames with that fingerprint, held at
    /// `COUNT_MAX`.
    pub fn record_frames(&mut self, frames: &Vec<Vec<u8>>)
        requires
            old(self).wf(),
        ensures
            final(self).wf(),
            forall|k: PacketInfos|
                #[trigger] final(self).count(k) == saturated(
                    old(self).count(k) + frames_with(frames.deep_view(), k),
                ),
    {
        let ghost start = self@;
        let mut i: usize = 0;
        while i < frames.len()
            invariant
                self.wf(),
                i <= frames@.len(),
                forall|k: PacketInfos|
                    #[trigger] self.count(k) == saturated(
                        count_in(start, k) + frames_with(
                            frames.deep_view().subrange(0, i as int),
                            k,
                        ),
                    ),
            decreases frames@.len() - i,
        {
            let ghost before = *self;
            self.record_frame(frames[i].as_slice());
            proof {
                let prefix = frames.deep_view().subrange(0, i as int + 1);
                assert(prefix.drop_last() == frames.deep_view().subrange(0, i as int));
                assert(prefix.last() == frames[i as int]@);
                assert forall|k: PacketInfos|
                    #[trigger] self.count(k) == saturated(
                        count_in(start, k) + frames_with(prefix, k),
                    ) by {
                    assert(before.count(k) == saturated(
                        count_in(start, k) + frames_with(prefix.drop_last(), k),
                    ));
                }
            }
            i = i + 1;
        }
        assert(frames.deep_view().subrange(0, frames@.len() as int) == frames.deep_view());
    }

    /// Empties the table.
    pub fn clear(&mut self)
        ensures
            final(self).wf(),
            final(self)@ == Map::<PacketInfos, nat>::empty(),
    {
        self.entries = Vec::new();
        self.counts = Ghost(Map::empty());
    }

    /// A point-in-time copy of the rows; equal rows for as long as the
    /// table is not changed.
    pub fn snapshot(&self) -> (r: Vec<(PacketInfos, u64)>)
        requires
            self.wf(),
        ensures
            r@ == self.rows(),
            rows_agree(r@, self@),
    {
        let mut r: Vec<(PacketInfos, u64)> = Vec::new();
        let mut i: usize = 0;
        while i < self.entries.len()
            invariant
                i <= self.entries@.len(),
                r@ == self.entries@.subrange(0, i as int),
            decreases self.entries@.len() - i,
        {
            r.push(self.entries[i]);
            i = i + 1;
        }
        assert(r@ == self.entries@);
        r
    }
}

} // verus!
