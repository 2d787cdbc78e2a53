//! Decisions of the streaming pipeline: where a decoder that fell behind
//! resumes, how timestamps pass to the decoder, and what a capture counted.

use vstd::prelude::*;

use crate::video::FrameHeader;

verus! {

/// Backlog above which the decoder is behind and jumps to the last keyframe.
pub const CATCHUP_BATCH: usize = 8;

/// The position of the last `true`, or 0 when there is none.
pub open spec fn last_keyframe(keyframes: Seq<bool>) -> int
    decreases keyframes.len(),
{
    if keyframes.len() == 0 {
        0
    } else if keyframes.last() {
        keyframes.len() - 1
    } else {
        last_keyframe(keyframes.drop_last())
    }
}

/// Where decoding of a batch starts: with a real backlog (more than
/// [`CATCHUP_BATCH`] payloads) at the last keyframe, dropping what precedes
/// it; otherwise at the first payload.
pub open spec fn catchup_from(keyframes: Seq<bool>) -> int {
    if keyframes.len() > CATCHUP_BATCH {
        last_keyframe(keyframes)
    } else {
        0
    }
}

/// Where decoding of a batch starts, given which of its payloads are
/// keyframes (see [`catchup_from`]).
pub fn catchup_start(keyframes: &[bool]) -> (r: usize)
    ensures
        r == catchup_from(keyframes@),
{
    if keyframes.len() <= CATCHUP_BATCH {
        return 0;
    }
    let mut i: usize = keyframes.len();
    assert(keyframes@.take(i as int) =~= keyframes@);
    while i > 0
        invariant
            i <= keyframes@.len(),
            keyframes@.len() > CATCHUP_BATCH,
            last_keyframe(keyframes@) == last_keyframe(keyframes@.take(i as int)),
        decreases i,
    {
        assert(keyframes@.take(i as int).drop_last() =~= keyframes@.take(i - 1));
        if keyframes[i - 1] {
            assert(keyframes@.take(i as int).last() == keyframes@[i - 1]);
            return i - 1;
        }
        i = i - 1;
    }
    0
}

/// A timestamp as the decoder takes it: the same value, or `i64::MAX` when it
/// does not fit.
pub fn pts_for_decoder(pts: u64) -> (r: i64)
    ensures
        pts <= i64::MAX ==> r == pts,
        pts > i64::MAX ==> r == i64::MAX,
{
    if pts <= i64::MAX as u64 {
        pts as i64
    } else {
        i64::MAX
    }
}

/// Counts of a capture: visible frames (configuration packets excluded) and
/// payload bytes.
#[derive(Debug, Clone, Copy, PartialEq, Eq, Structural)]
pub struct CaptureStats {
    pub frames: u64,
    pub bytes: u64,
}

impl CaptureStats {
    pub fn new() -> (r: CaptureStats)
        ensures
            r.frames == 0 && r.bytes == 0,
    {
        CaptureStats { frames: 0, bytes: 0 }
    }

    /// Counts one received frame of `payload_len` bytes.
    pub fn record(&mut self, header: &FrameHeader, payload_len: usize)
        requires
            old(self).bytes + payload_len <= u64::MAX,
            old(self).frames < u64::MAX,
        ensures
            final(self).bytes == old(self).bytes + payload_len,
            final(self).frames == old(self).frames + if header.config {
                0int
            } else {
                1int
            },
    {
        self.bytes = self.bytes + payload_len as u64;
        if !header.config {
            self.frames = self.frames + 1;
        }
    }
}

/// The catch-up never starts past the batch, and when it skips anything it
/// starts at a keyframe, so the decoder always resumes from a self-contained
/// frame.
pub proof fn catchup_starts_at_keyframe(keyframes: Seq<bool>)
    ensures
        0 <= catchup_from(keyframes) <= keyframes.len(),
        catchup_from(keyframes) > 0 ==> keyframes[catchup_from(keyframes)],
        keyframes.len() <= CATCHUP_BATCH ==> catchup_from(keyframes) == 0,
    decreases keyframes.len(),
{
    lemma_last_keyframe(keyframes);
}

proof fn lemma_last_keyframe(keyframes: Seq<bool>)
    ensures
        0 <= last_keyframe(keyframes) <= keyframes.len(),
        keyframes.len() > 0 ==> last_keyframe(keyframes) < keyframes.len(),
        last_keyframe(keyframes) > 0 ==> keyframes[last_keyframe(keyframes)],
        forall|j: int|
            last_keyframe(keyframes) < j < keyframes.len() ==> !#[trigger] keyframes[j],
    decreases keyframes.len(),
{
    if keyframes.len() > 0 && !keyframes.last() {
        lemma_last_keyframe(keyframes.drop_last());
        let k = last_keyframe(keyframes.drop_last());
        assert forall|j: int| k < j < keyframes.len() implies !#[trigger] keyframes[j] by {
            if j < keyframes.len() - 1 {
                assert(keyframes[j] == keyframes.drop_last()[j]);
            }
        }
        if k > 0 {
            assert(keyframes[k] == keyframes.drop_last()[k]);
        }
    }
}

/// The catch-up starts at the last keyframe: no keyframe comes after it.
pub proof fn catchup_keeps_latest_keyframe(keyframes: Seq<bool>, j: int)
    requires
        keyframes.len() > CATCHUP_BATCH,
        catchup_from(keyframes) < j < keyframes.len(),
    ensures
        !keyframes[j],
{
    lemma_last_keyframe(keyframes);
}

/// Position of the first `want` in `offered`, if any.
pub open spec fn first_position(offered: Seq<i32>, want: i32) -> Option<int>
    decreases offered.len(),
{
    if offered.len() == 0 {
        None
    } else {
        match first_position(offered.drop_last(), want) {
            Some(i) => Some(i),
            None => if offered.last() == want {
                Some(offered.len() - 1)
            } else {
                None
            },
        }
    }
}

/// Which of the pixel formats the decoder offers is taken: the hardware one
/// (`want`) when it is offered, else the first one (software); none when
/// nothing is offered.
pub open spec fn format_choice(offered: Seq<i32>, want: i32) -> Option<int> {
    match first_position(offered, want) {
        Some(i) => Some(i),
        None => if offered.len() > 0 {
            Some(0)
        } else {
            None
        },
    }
}

/// Chooses among the pixel formats the decoder offers (see
/// [`format_choice`]); the result is a position in `offered`.
pub fn choose_format(offered: &[i32], want: i32) -> (r: Option<usize>)
    ensures
        r matches Some(i) ==> format_choice(offered@, want) == Some(i as int),
        r is None ==> format_choice(offered@, want) is None,
{
    let mut i: usize = 0;
    while i < offered.len()
        invariant
            i <= offered@.len(),
            first_position(offered@.take(i as int), want) is None,
        decreases offered@.len() - i,
    {
        assert(offered@.take(i + 1).drop_last() =~= offered@.take(i as int));
        if offered[i] == want {
            assert(first_position(offered@.take(i + 1), want) == Some(i as int));
            proof {
                lemma_first_position_prefix(offered@, want, i + 1);
            }
            return Some(i);
        }
        i = i + 1;
    }
    assert(offered@.take(offered@.len() as int) =~= offered@);
    if offered.len() > 0 {
        Some(0)
    } else {
        None
    }
}

/// A first position found in a prefix is the first position overall.
proof fn lemma_first_position_prefix(offered: Seq<i32>, want: i32, n: int)
    requires
        0 <= n <= offered.len(),
        first_position(offered.take(n), want) is Some,
    ensures
        first_position(offered, want) == first_position(offered.take(n), want),
    decreases offered.len() - n,
{
    if n < offered.len() {
        assert(offered.take(n + 1).drop_last() =~= offered.take(n));
        lemma_first_position_prefix(offered, want, n + 1);
    } else {
        assert(offered.take(n) =~= offered);
    }
}

/// What the first position is: a position of `want`, found whenever `want`
/// occurs.
proof fn lemma_first_position(offered: Seq<i32>, want: i32)
    ensures
        first_position(offered, want) matches Some(i) ==> 0 <= i < offered.len() && offered[i]
            == want,
        offered.contains(want) ==> first_position(offered, want) is Some,
    decreases offered.len(),
{
    if offered.len() > 0 {
        let p = offered.drop_last();
        lemma_first_position(p, want);
        if offered.contains(want) && !p.contains(want) {
            let k = choose|k: int| 0 <= k < offered.len() && offered[k] == want;
            if k < offered.len() - 1 {
                assert(p[k] == want);
            }
        }
        if let Some(i) = first_position(p, want) {
            assert(offered[i] == p[i]);
        }
    }
}

/// The hardware format wins whenever it is offered, and the choice is
/// always one of the offered formats.
pub proof fn offered_hardware_format_wins(offered: Seq<i32>, want: i32)
    ensures
        format_choice(offered, want) matches Some(i) ==> 0 <= i < offered.len(),
        offered.contains(want) ==> (format_choice(offered, want) matches Some(i) && offered[i]
            == want),
{
    lemma_first_position(offered, want);
}

} // verus!
