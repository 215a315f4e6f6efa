//! Stream time over a whole run: the times stamped on the text never go
//! back, as long as the recogniser places each text within its segment and
//! in order.

use crate::pipeline::{lemma_offsets_non_decreasing, millis_of_samples};
use vstd::prelude::*;

verus! {

/// A segment as the stamping sees it: how many samples it counts for, and
/// the starts, in milliseconds within the segment, of the texts shown for
/// it.
pub struct StampedSegment {
    pub duration: nat,
    pub starts: Seq<int>,
}

/// The times stamped on the texts of `segments`, in the order in which they
/// are shown, when `elapsed` samples lie before the first segment: each
/// start is counted from the offset of its segment, and each segment moves
/// the offset on by its duration.
pub open spec fn run_stamps(elapsed: nat, segments: Seq<StampedSegment>) -> Seq<int>
    decreases segments.len(),
{
    if segments.len() == 0 {
        Seq::empty()
    } else {
        let here = segments.first();
        Seq::new(here.starts.len(), |k: int| millis_of_samples(elapsed) + here.starts[k])
            + run_stamps(elapsed + here.duration, segments.drop_first())
    }
}

/// No element is smaller than one before it.
pub open spec fn non_decreasing(s: Seq<int>) -> bool {
    forall|i: int, j: int| 0 <= i <= j < s.len() ==> s[i] <= s[j]
}

/// The starts lie within the segment, whole milliseconds counted, and are
/// in order.
pub open spec fn starts_in_order(segment: StampedSegment) -> bool {
    &&& non_decreasing(segment.starts)
    &&& forall|k: int|
        0 <= k < segment.starts.len() ==> 0 <= #[trigger] segment.starts[k] <= segment.duration
            / 16
}

proof fn lemma_stamps_not_before_offset(elapsed: nat, segments: Seq<StampedSegment>)
    requires
        forall|k: int| 0 <= k < segments.len() ==> starts_in_order(#[trigger] segments[k]),
    ensures
        forall|i: int|
            0 <= i < run_stamps(elapsed, segments).len() ==> millis_of_samples(elapsed)
                <= #[trigger] run_stamps(elapsed, segments)[i],
    decreases segments.len(),
{
    if segments.len() > 0 {
        let here = segments.first();
        let later = segments.drop_first();
        assert(starts_in_order(segments[0]));
        assert forall|k: int| 0 <= k < later.len() implies starts_in_order(#[trigger] later[k]) by {
            assert(later[k] == segments[k + 1]);
        }
        lemma_stamps_not_before_offset(elapsed + here.duration, later);
        lemma_offsets_non_decreasing(elapsed, elapsed + here.duration);
        let first = Seq::new(
            here.starts.len(),
            |k: int| millis_of_samples(elapsed) + here.starts[k],
        );
        let rest = run_stamps(elapsed + here.duration, later);
        let all = run_stamps(elapsed, segments);
        assert(all == first + rest);
        assert forall|i: int| 0 <= i < all.len() implies millis_of_samples(elapsed)
            <= #[trigger] all[i] by {
            if i < first.len() {
                assert(0 <= here.starts[i]);
            } else {
                assert(all[i] == rest[i - first.len()]);
            }
        }
    }
}

/// Over a whole run the stamped times never go back, provided that the
/// starts of each segment are in order and lie within the segment.
pub proof fn lemma_run_stamps_non_decreasing(elapsed: nat, segments: Seq<StampedSegment>)
    requires
        forall|k: int| 0 <= k < segments.len() ==> starts_in_order(#[trigger] segments[k]),
    ensures
        non_decreasing(run_stamps(elapsed, segments)),
    decreases segments.len(),
{
    if segments.len() > 0 {
        let here = segments.first();
        let later = segments.drop_first();
        let behind = elapsed + here.duration;
        assert(starts_in_order(segments[0]));
        assert forall|k: int| 0 <= k < later.len() implies starts_in_order(#[trigger] later[k]) by {
            assert(later[k] == segments[k + 1]);
        }
        lemma_run_stamps_non_decreasing(behind, later);
        lemma_stamps_not_before_offset(behind, later);
        assert(millis_of_samples(elapsed) + here.duration / 16 <= millis_of_samples(behind)) by {
            assert((elapsed * 1000 + 8000) / 16000 + here.duration / 16 <= ((elapsed
                + here.duration) * 1000 + 8000) / 16000) by (nonlinear_arith);
        }
        let first = Seq::new(
            here.starts.len(),
            |k: int| millis_of_samples(elapsed) + here.starts[k],
        );
        let rest = run_stamps(behind, later);
        let all = run_stamps(elapsed, segments);
        assert(all == first + rest);
        assert forall|i: int, j: int| 0 <= i <= j < all.len() implies all[i] <= all[j] by {
            if j < first.len() {
                assert(here.starts[i] <= here.starts[j]);
            } else if i < first.len() {
                assert(here.starts[i] <= here.duration / 16);
                assert(all[j] == rest[j - first.len()]);
            } else {
                assert(all[i] == rest[i - first.len()]);
                assert(all[j] == rest[j - first.len()]);
            }
        }
    }
}

} // verus!
