//! Scan statistics: monotonically incremented counters and the set of
//! distinct reduced ratios observed, owned by the orchestrator for the
//! duration of one scan.

use vstd::prelude::*;
use crate::ratio::ReducedRatio;

verus! {

broadcast use vstd::seq_lib::lemma_seq_contains_after_push;

/// Outcome of one copy attempt, consumed by the statistics accumulator.
pub enum CopyOutcome {
    /// The destination was written; `bytes` were copied.
    Copied { bytes: u64 },
    /// The destination already existed and was left untouched.
    Skipped,
    /// The filesystem reported an error; the scan goes on.
    Failed { cause: String },
}

/// Counters of one scan. All start at zero and only grow.
pub struct Stats {
    pub total_landscape: u32,
    pub total_portrait: u32,
    pub total_hd: u32,
    pub total_skipped: u32,
    pub total_copied: u32,
    pub total_images: u32,
    pub total_files: u32,
    pub total_bytes: u64,
    pub total_suitable: u32,
    pub total_unsuitable: u32,
    pub aspect_ratios: Vec<ReducedRatio>,
}

impl Stats {
    /// The distinct reduced ratios observed so far, in first-seen order.
    pub open spec fn ratios(&self) -> Seq<ReducedRatio> {
        self.aspect_ratios@
    }

    /// The set of distinct reduced ratios observed so far.
    pub open spec fn ratio_set(&self) -> Set<ReducedRatio> {
        self.ratios().to_set()
    }

    /// All counters, as one value; unchanged counters compare in one clause.
    pub open spec fn counters(&self) -> (u32, u32, u32, u32, u32, u32, u32, u32, u32, u64) {
        (
            self.total_files,
            self.total_images,
            self.total_hd,
            self.total_landscape,
            self.total_portrait,
            self.total_suitable,
            self.total_unsuitable,
            self.total_skipped,
            self.total_copied,
            self.total_bytes,
        )
    }

    /// No ratio is recorded twice.
    pub open spec fn wf(&self) -> bool {
        forall|i: int, j: int|
            0 <= i < j < self.aspect_ratios@.len() ==> self.aspect_ratios@[i]
                != self.aspect_ratios@[j]
    }

    /// Fresh statistics: every counter zero, no ratio observed.
    pub fn new() -> (s: Stats)
        ensures
            s.wf(),
            s.counters() == (0u32, 0u32, 0u32, 0u32, 0u32, 0u32, 0u32, 0u32, 0u32, 0u64),
            s.ratio_set() == Set::<ReducedRatio>::empty(),
            s.ratios() == Seq::<ReducedRatio>::empty(),
    {
        let s = Stats {
            total_landscape: 0,
            total_portrait: 0,
            total_hd: 0,
            total_skipped: 0,
            total_copied: 0,
            total_images: 0,
            total_files: 0,
            total_bytes: 0,
            total_suitable: 0,
            total_unsuitable: 0,
            aspect_ratios: Vec::new(),
        };
        proof {
            assert(s.ratio_set() =~= Set::<ReducedRatio>::empty());
        }
        s
    }

    /// Records a reduced ratio among the distinct ratios observed. A ratio
    /// already present is not recorded twice.
    pub fn note_ratio(&mut self, r: ReducedRatio)
        requires
            old(self).wf(),
        ensures
            final(self).wf(),
            final(self).ratio_set() == old(self).ratio_set().insert(r),
            final(self).counters() == old(self).counters(),
    {
        let n = self.aspect_ratios.len();
        let mut i: usize = 0;
        while i < n
            invariant
                old(self).wf(),
                self.aspect_ratios@ == old(self).aspect_ratios@,
                self.counters() == old(self).counters(),
                n == self.aspect_ratios.len(),
                i <= n,
                forall|j: int| 0 <= j < i ==> self.aspect_ratios@[j] != r,
            decreases n - i,
        {
            if self.aspect_ratios[i] == r {
                proof {
                    assert(self.aspect_ratios@.contains(r));
                    assert(self.ratio_set() =~= self.ratio_set().insert(r));
                }
                return ;
            }
            i = i + 1;
        }
        self.aspect_ratios.push(r);
        proof {
            assert(self.aspect_ratios@ == old(self).aspect_ratios@.push(r));
            assert(self.ratio_set() =~= old(self).ratio_set().insert(r));
        }
    }

    /// How many distinct reduced ratios the scan has seen.
    pub fn distinct_ratio_count(&self) -> (n: usize)
        requires
            self.wf(),
        ensures
            n as nat == self.ratio_set().len(),
    {
        proof {
            self.aspect_ratios@.unique_seq_to_set();
        }
        self.aspect_ratios.len()
    }

    /// Accumulates one copy outcome: a copy bumps the copied counter and the
    /// byte total, a skip bumps the skipped counter, a failure counts as
    /// neither.
    pub fn record_outcome(&mut self, outcome: CopyOutcome)
        requires
            old(self).wf(),
            outcome is Copied ==> old(self).total_copied < u32::MAX && old(self).total_bytes
                + outcome->Copied_bytes <= u64::MAX,
            outcome is Skipped ==> old(self).total_skipped < u32::MAX,
        ensures
            final(self).wf(),
            final(self).ratio_set() == old(self).ratio_set(),
            match outcome {
                CopyOutcome::Copied { bytes } => {
                    &&& final(self).total_copied == old(self).total_copied + 1
                    &&& final(self).total_bytes == old(self).total_bytes + bytes
                    &&& final(self).total_skipped == old(self).total_skipped
                },
                CopyOutcome::Skipped => {
                    &&& final(self).total_skipped == old(self).total_skipped + 1
                    &&& final(self).total_copied == old(self).total_copied
                    &&& final(self).total_bytes == old(self).total_bytes
                },
                CopyOutcome::Failed { .. } => {
                    &&& final(self).total_skipped == old(self).total_skipped
                    &&& final(self).total_copied == old(self).total_copied
                    &&& final(self).total_bytes == old(self).total_bytes
                },
            },
            final(self).total_files == old(self).total_files,
            final(self).total_images == old(self).total_images,
            final(self).total_hd == old(self).total_hd,
            final(self).total_landscape == old(self).total_landscape,
            final(self).total_portrait == old(self).total_portrait,
            final(self).total_suitable == old(self).total_suitable,
            final(self).total_unsuitable == old(self).total_unsuitable,
    {
        match outcome {
            CopyOutcome::Copied { bytes } => {
                self.total_copied = self.total_copied + 1;
                self.total_bytes = self.total_bytes + bytes;
            },
            CopyOutcome::Skipped => {
                self.total_skipped = self.total_skipped + 1;
            },
            CopyOutcome::Failed { .. } => {},
        }
    }
}

} // verus!
