//! Scan orchestrator: a state machine over the stream of candidate entries.
//! The caller lists files, probes dimensions and performs copies; the
//! orchestrator owns every decision and all statistics.

use vstd::prelude::*;
use crate::ratio::{GcdCache, ReducedRatio, spec_ratio_of, calculate_aspect_ratio};
use crate::classify::{
    Orientation,
    classify,
    is_hd,
    is_widescreen_suitable,
    spec_is_hd,
    spec_orientation,
    spec_widescreen_suitable,
};
use crate::stats::Stats;

verus! {

/// What the orchestrator asks of the caller for one candidate.
pub enum CopyRequest {
    /// Nothing to copy: the candidate is no high-definition landscape image,
    /// or the scan is report-only.
    NotRequested,
    /// Copy the candidate into the destination tree, under the category
    /// subdirectory this flag selects.
    Requested { widescreen_suitable: bool },
}

/// The candidate is a recognized image, passes the high-definition gate and
/// is landscape: the only case the pipeline copies.
pub open spec fn spec_counts_landscape(is_image: bool, width: u32, height: u32) -> bool {
    is_image && spec_is_hd(width) && spec_orientation(width, height) == Orientation::Landscape
}

/// The candidate is a recognized image, wide enough, and portrait.
pub open spec fn spec_counts_portrait(is_image: bool, width: u32, height: u32) -> bool {
    is_image && spec_is_hd(width) && spec_orientation(width, height) == Orientation::Portrait
}

/// Whether the reduced ratio of `width : height` is widescreen-suitable.
pub open spec fn spec_suitable_of(width: u32, height: u32) -> bool {
    spec_widescreen_suitable(
        spec_ratio_of(width, height).num as int,
        spec_ratio_of(width, height).den as int,
    )
}

/// One scan's orchestrator: configuration, statistics and the gcd cache,
/// owned exclusively for the scan's duration.
pub struct Scanner {
    /// Whether a destination root was configured; without one the scan is
    /// report-only and nothing downstream of classification runs.
    pub copy_enabled: bool,
    /// Whether destination files are renamed by the content-addressed
    /// strategy instead of keeping their relative paths.
    pub rename_files: bool,
    pub stats: Stats,
    pub cache: GcdCache,
}

impl Scanner {
    pub open spec fn wf(&self) -> bool {
        self.stats.wf() && self.cache.wf()
    }

    /// A fresh orchestrator with zeroed statistics and an empty gcd cache.
    pub fn new(copy_enabled: bool, rename_files: bool) -> (s: Scanner)
        ensures
            s.wf(),
            s.copy_enabled == copy_enabled,
            s.rename_files == rename_files,
            s.stats.counters() == (0u32, 0u32, 0u32, 0u32, 0u32, 0u32, 0u32, 0u32, 0u32, 0u64),
            s.stats.ratio_set() == Set::<ReducedRatio>::empty(),
    {
        Scanner { copy_enabled, rename_files, stats: Stats::new(), cache: GcdCache::new() }
    }

    /// Classifies one high-definition image and accounts for it: a landscape
    /// image has its ratio reduced, recorded and bucketed, and is requested
    /// for copying when a destination is configured; a portrait image is
    /// only counted; equal or unavailable dimensions change nothing.
    pub fn process_hd_image(&mut self, width: u32, height: u32) -> (req: CopyRequest)
        requires
            old(self).wf(),
            old(self).stats.total_landscape < u32::MAX,
            old(self).stats.total_portrait < u32::MAX,
            old(self).stats.total_suitable < u32::MAX,
            old(self).stats.total_unsuitable < u32::MAX,
        ensures
            final(self).wf(),
            final(self).copy_enabled == old(self).copy_enabled,
            final(self).rename_files == old(self).rename_files,
            final(self).stats.total_files == old(self).stats.total_files,
            final(self).stats.total_images == old(self).stats.total_images,
            final(self).stats.total_hd == old(self).stats.total_hd,
            final(self).stats.total_skipped == old(self).stats.total_skipped,
            final(self).stats.total_copied == old(self).stats.total_copied,
            final(self).stats.total_bytes == old(self).stats.total_bytes,
            final(self).stats.total_landscape == old(self).stats.total_landscape + (
            if spec_orientation(width, height) == Orientation::Landscape {
                1int
            } else {
                0int
            }),
            final(self).stats.total_portrait == old(self).stats.total_portrait + (
            if spec_orientation(width, height) == Orientation::Portrait {
                1int
            } else {
                0int
            }),
            final(self).stats.total_suitable == old(self).stats.total_suitable + (
            if spec_orientation(width, height) == Orientation::Landscape && spec_suitable_of(
                width,
                height,
            ) {
                1int
            } else {
                0int
            }),
            final(self).stats.total_unsuitable == old(self).stats.total_unsuitable + (
            if spec_orientation(width, height) == Orientation::Landscape && !spec_suitable_of(
                width,
                height,
            ) {
                1int
            } else {
                0int
            }),
            final(self).stats.ratio_set() == if spec_orientation(width, height)
                == Orientation::Landscape {
                old(self).stats.ratio_set().insert(spec_ratio_of(width, height))
            } else {
                old(self).stats.ratio_set()
            },
            req == if spec_orientation(width, height) == Orientation::Landscape && old(
                self,
            ).copy_enabled {
                (CopyRequest::Requested { widescreen_suitable: spec_suitable_of(width, height) })
            } else {
                CopyRequest::NotRequested
            },
    {
        let orientation = classify(width, height);
        match orientation {
            Orientation::Landscape => {
                self.stats.total_landscape = self.stats.total_landscape + 1;
                let ratio = calculate_aspect_ratio(width, height, &mut self.cache);
                self.stats.note_ratio(ratio);
                let suitable = is_widescreen_suitable(&ratio);
                if suitable {
                    self.stats.total_suitable = self.stats.total_suitable + 1;
                } else {
                    self.stats.total_unsuitable = self.stats.total_unsuitable + 1;
                }
                if self.copy_enabled {
                    CopyRequest::Requested { widescreen_suitable: suitable }
                } else {
                    CopyRequest::NotRequested
                }
            },
            Orientation::Portrait => {
                self.stats.total_portrait = self.stats.total_portrait + 1;
                CopyRequest::NotRequested
            },
            Orientation::SquareOrInvalid => CopyRequest::NotRequested,
        }
    }

    /// One step of the scan over one filesystem entry. `is_image` says
    /// whether the entry is a regular file with a recognized image
    /// extension; `width` and `height` are the probed dimensions, zero when
    /// the probe failed. Counts the entry, then the image, then the
    /// high-definition gate, then classifies.
    pub fn process_entry(&mut self, is_image: bool, width: u32, height: u32) -> (req: CopyRequest)
        requires
            old(self).wf(),
            old(self).stats.total_files < u32::MAX,
            old(self).stats.total_images < u32::MAX,
            old(self).stats.total_hd < u32::MAX,
            old(self).stats.total_landscape < u32::MAX,
            old(self).stats.total_portrait < u32::MAX,
            old(self).stats.total_suitable < u32::MAX,
            old(self).stats.total_unsuitable < u32::MAX,
        ensures
            final(self).wf(),
            final(self).copy_enabled == old(self).copy_enabled,
            final(self).rename_files == old(self).rename_files,
            final(self).stats.total_files == old(self).stats.total_files + 1,
            final(self).stats.total_images == old(self).stats.total_images + (
            if is_image {
                1int
            } else {
                0int
            }),
            final(self).stats.total_hd == old(self).stats.total_hd + (
            if is_image && spec_is_hd(width) {
                1int
            } else {
                0int
            }),
            final(self).stats.total_landscape == old(self).stats.total_landscape + (
            if spec_counts_landscape(is_image, width, height) {
                1int
            } else {
                0int
            }),
            final(self).stats.total_portrait == old(self).stats.total_portrait + (
            if spec_counts_portrait(is_image, width, height) {
                1int
            } else {
                0int
            }),
            final(self).stats.total_suitable == old(self).stats.total_suitable + (
            if spec_counts_landscape(is_image, width, height) && spec_suitable_of(width, height) {
                1int
            } else {
                0int
            }),
            final(self).stats.total_unsuitable == old(self).stats.total_unsuitable + (
            if spec_counts_landscape(is_image, width, height) && !spec_suitable_of(width, height) {
                1int
            } else {
                0int
            }),
            final(self).stats.ratio_set() == if spec_counts_landscape(is_image, width, height) {
                old(self).stats.ratio_set().insert(spec_ratio_of(width, height))
            } else {
                old(self).stats.ratio_set()
            },
            final(self).stats.total_skipped == old(self).stats.total_skipped,
            final(self).stats.total_copied == old(self).stats.total_copied,
            final(self).stats.total_bytes == old(self).stats.total_bytes,
            req == if spec_counts_landscape(is_image, width, height) && old(self).copy_enabled {
                (CopyRequest::Requested { widescreen_suitable: spec_suitable_of(width, height) })
            } else {
                CopyRequest::NotRequested
            },
    {
        self.stats.total_files = self.stats.total_files + 1;
        if !is_image {
            return CopyRequest::NotRequested;
        }
        self.stats.total_images = self.stats.total_images + 1;
        if !is_hd(width) {
            return CopyRequest::NotRequested;
        }
        self.stats.total_hd = self.stats.total_hd + 1;
        self.process_hd_image(width, height)
    }
}

} // verus!
