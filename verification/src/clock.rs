//! Presentation clock: when each frame is due, from its `pts`.

use vstd::prelude::*;

verus! {

#[verifier::external_type_specification]
#[verifier::external_body]
pub struct ExInstant(std::time::Instant);

/// Presentation clock: schedules each frame by its `pts` relative to the
/// first one, so that every frame shows at its real pace.
#[derive(Debug, Default)]
pub struct PresentationClock {
    base_wall: Option<std::time::Instant>,
    base_pts_us: i64,
}

/// Microseconds from the origin until a frame is due: its `pts` minus the
/// origin's, or 0 when it is not later.
pub open spec fn offset_from(base_pts_us: i64, pts_us: i64) -> u64 {
    if pts_us - base_pts_us > 0 {
        (pts_us - base_pts_us) as u64
    } else {
        0
    }
}

impl PresentationClock {
    /// Whether the origin is set (a first frame was scheduled).
    pub closed spec fn started(&self) -> bool {
        self.base_wall is Some
    }

    /// The wall time of the origin.
    pub closed spec fn origin(&self) -> std::time::Instant {
        self.base_wall.unwrap()
    }

    /// The `pts` of the origin.
    pub closed spec fn origin_pts(&self) -> i64 {
        self.base_pts_us
    }

    pub fn new() -> (r: Self)
        ensures
            !r.started(),
    {
        PresentationClock { base_wall: None, base_pts_us: 0 }
    }

    /// Whether [`PresentationClock::schedule`] can place `pts_us`: its
    /// distance to the origin's `pts` fits an `i64`.
    pub fn can_schedule(&self, pts_us: i64) -> (r: bool)
        ensures
            r == (self.started() ==> i64::MIN <= pts_us - self.origin_pts() <= i64::MAX),
    {
        match self.base_wall {
            None => true,
            Some(_) => pts_us.checked_sub(self.base_pts_us).is_some(),
        }
    }

    /// Decides when the frame with `pts_us` shows. The first frame sets the
    /// origin (at `now`) and shows at once (`None`); every later one is due
    /// at the origin plus its offset, returned as `Some((origin, offset_us))`.
    pub fn schedule(&mut self, pts_us: i64, now: std::time::Instant) -> (r: Option<
        (std::time::Instant, u64),
    >)
        requires
            old(self).started() ==> i64::MIN <= pts_us - old(self).origin_pts() <= i64::MAX,
        ensures
            !old(self).started() ==> r is None && final(self).started() && final(self).origin()
                == now && final(self).origin_pts() == pts_us,
            old(self).started() ==> r == Some((old(self).origin(), offset_from(
                old(self).origin_pts(),
                pts_us,
            ))) && *final(self) == *old(self),
            old(self).started() && pts_us > old(self).origin_pts() ==> r == Some(
                (old(self).origin(), (pts_us - old(self).origin_pts()) as u64),
            ),
            old(self).started() && pts_us <= old(self).origin_pts() ==> r == Some(
                (old(self).origin(), 0u64),
            ),
    {
        match self.base_wall {
            None => {
                self.base_wall = Some(now);
                self.base_pts_us = pts_us;
                None
            },
            Some(base) => {
                let diff = pts_us - self.base_pts_us;
                let offset = if diff > 0 {
                    diff as u64
                } else {
                    0
                };
                Some((base, offset))
            },
        }
    }
}

/// A frame whose `pts` is before the origin's is due at once, never later
/// than the origin: an earlier `pts` cannot make the wait underflow.
pub proof fn backwards_pts_is_due_at_origin(base_pts_us: i64, pts_us: i64)
    requires
        pts_us <= base_pts_us,
    ensures
        offset_from(base_pts_us, pts_us) == 0,
{
}

/// Offsets follow the `pts`: a later frame is never due before an earlier one.
pub proof fn offsets_follow_pts(base_pts_us: i64, p: i64, q: i64)
    requires
        p <= q,
        i64::MIN <= p - base_pts_us <= i64::MAX,
        i64::MIN <= q - base_pts_us <= i64::MAX,
    ensures
        offset_from(base_pts_us, p) <= offset_from(base_pts_us, q),
{
}

/// A frame later than the origin is due exactly its `pts` distance after
/// the origin: the wait is never capped nor shortened.
pub proof fn offset_is_pts_distance(base_pts_us: i64, pts_us: i64)
    requires
        base_pts_us < pts_us,
        pts_us - base_pts_us <= i64::MAX,
    ensures
        offset_from(base_pts_us, pts_us) == pts_us - base_pts_us,
{
}

/// Once the origin is set, scheduling a later frame answers the origin and
/// the exact distance of its `pts` to the origin's, and leaves the clock as
/// it was; two frames are due as far apart as their `pts`.
pub proof fn schedule_keeps_pts_distances(base_pts_us: i64, p: i64, q: i64)
    requires
        base_pts_us <= p <= q,
        q - base_pts_us <= i64::MAX,
    ensures
        offset_from(base_pts_us, q) - offset_from(base_pts_us, p) == q - p,
{
}

} // verus!
