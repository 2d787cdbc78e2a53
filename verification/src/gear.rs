//! Smoothness gears: each fixes a target refresh rate.

use vstd::prelude::*;

use crate::error::{view_result, ProtoError, ProtoErrorView};

verus! {

/// Smoothness gear. Each gear fixes a target refresh rate.
///
/// The system starts conservative (`Low`) and shifts up only when the device
/// and the network hold it; on instability it shifts down.
#[derive(Debug, Clone, Copy, PartialEq, Eq, Structural, PartialOrd, Ord, Hash)]
pub enum Gear {
    Low,
    Mid,
    High,
}

impl View for Gear {
    type V = Gear;

    open spec fn view(&self) -> Gear {
        *self
    }
}

/// Position of a gear, from the lowest (0) to the highest (2).
pub open spec fn gear_rank(g: Gear) -> int {
    match g {
        Gear::Low => 0,
        Gear::Mid => 1,
        Gear::High => 2,
    }
}

/// Target frames per second of a gear.
pub open spec fn gear_fps(g: Gear) -> u32 {
    match g {
        Gear::Low => 60,
        Gear::Mid => 120,
        Gear::High => 144,
    }
}

/// The gear of a given rank, if there is one.
pub open spec fn gear_at(rank: int) -> Option<Gear> {
    if rank == 0 {
        Some(Gear::Low)
    } else if rank == 1 {
        Some(Gear::Mid)
    } else if rank == 2 {
        Some(Gear::High)
    } else {
        None
    }
}

/// The gear that a wire value names, if any (the wire value is the rank).
pub open spec fn gear_of(v: u8) -> Option<Gear> {
    gear_at(v as int)
}

/// Outcome of reading a gear's wire value.
pub open spec fn gear_result(v: u8) -> Result<Gear, ProtoErrorView> {
    match gear_of(v) {
        Some(g) => Ok(g),
        None => Err(ProtoErrorView::UnknownDiscriminant { kind: "Gear"@, value: v }),
    }
}

/// Reading a gear's wire value, as a value.
pub open spec fn gear_read(v: u8) -> Result<Gear, ProtoError> {
    match gear_of(v) {
        Some(g) => Ok(g),
        None => Err(ProtoError::UnknownDiscriminant { kind: "Gear", value: v }),
    }
}

/// The lowest gear whose target covers `fps`, or the highest gear when none does.
pub open spec fn gear_for_fps(fps: u32) -> Gear {
    if fps <= gear_fps(Gear::Low) {
        Gear::Low
    } else if fps <= gear_fps(Gear::Mid) {
        Gear::Mid
    } else {
        Gear::High
    }
}

impl Gear {
    /// Target frames per second of the gear.
    pub fn target_fps(self) -> (r: u32)
        ensures
            r == gear_fps(self),
    {
        match self {
            Gear::Low => 60,
            Gear::Mid => 120,
            Gear::High => 144,
        }
    }

    /// The gear just below, or `None` when this is the lowest.
    pub fn downshift(self) -> (r: Option<Gear>)
        ensures
            r == gear_at(gear_rank(self) - 1),
    {
        match self {
            Gear::High => Some(Gear::Mid),
            Gear::Mid => Some(Gear::Low),
            Gear::Low => None,
        }
    }

    /// The gear just above, or `None` when this is the highest.
    pub fn upshift(self) -> (r: Option<Gear>)
        ensures
            r == gear_at(gear_rank(self) + 1),
    {
        match self {
            Gear::Low => Some(Gear::Mid),
            Gear::Mid => Some(Gear::High),
            Gear::High => None,
        }
    }

    pub fn to_u8(self) -> (r: u8)
        ensures
            r == gear_rank(self),
    {
        match self {
            Gear::Low => 0,
            Gear::Mid => 1,
            Gear::High => 2,
        }
    }

    /// The gear of a wire value; values above 2 are an unknown discriminant.
    pub fn from_u8(v: u8) -> (r: Result<Self, ProtoError>)
        ensures
            view_result(r) == gear_result(v),
            r == gear_read(v),
    {
        match v {
            0 => Ok(Gear::Low),
            1 => Ok(Gear::Mid),
            2 => Ok(Gear::High),
            _ => Err(ProtoError::UnknownDiscriminant { kind: "Gear", value: v }),
        }
    }

    /// Maps a frame rate asked for by the user to the lowest gear that covers
    /// it: up to 60 gives `Low`, up to 120 `Mid`, anything above `High`.
    pub fn from_fps(fps: u32) -> (r: Gear)
        ensures
            r == gear_for_fps(fps),
    {
        if fps <= 60 {
            Gear::Low
        } else if fps <= 120 {
            Gear::Mid
        } else {
            Gear::High
        }
    }
}

impl From<Gear> for u8 {
    fn from(g: Gear) -> (r: u8) {
        g.to_u8()
    }
}

impl vstd::std_specs::convert::FromSpecImpl<Gear> for u8 {
    open spec fn obeys_from_spec() -> bool {
        true
    }

    open spec fn from_spec(g: Gear) -> u8 {
        gear_rank(g) as u8
    }
}

impl TryFrom<u8> for Gear {
    type Error = ProtoError;

    fn try_from(v: u8) -> (r: Result<Gear, ProtoError>) {
        Gear::from_u8(v)
    }
}

impl vstd::std_specs::convert::TryFromSpecImpl<u8> for Gear {
    open spec fn obeys_try_from_spec() -> bool {
        true
    }

    open spec fn try_from_spec(v: u8) -> Result<Gear, ProtoError> {
        gear_read(v)
    }
}

} // verus!

verus! {

/// Shifting up from `g` reaches `h` exactly when shifting down from `h`
/// reaches `g`: the two undo each other.
pub proof fn gear_shifts_are_inverse(g: Gear, h: Gear)
    ensures
        gear_at(gear_rank(g) + 1) == Some(h) <==> gear_at(gear_rank(h) - 1) == Some(g),
{
}

/// Higher gears target strictly more frames per second.
pub proof fn gear_fps_increases(g: Gear, h: Gear)
    ensures
        gear_rank(g) < gear_rank(h) <==> gear_fps(g) < gear_fps(h),
{
}

/// A gear's own target maps back to that gear.
pub proof fn gear_for_own_fps(g: Gear)
    ensures
        gear_for_fps(gear_fps(g)) == g,
{
}

/// The gear for a frame rate is the lowest that covers it: its target is at
/// least the rate (when any gear's is), and every lower gear falls short.
pub proof fn gear_for_fps_is_lowest_cover(fps: u32, g: Gear)
    ensures
        fps <= gear_fps(Gear::High) ==> fps <= gear_fps(gear_for_fps(fps)),
        gear_rank(g) < gear_rank(gear_for_fps(fps)) ==> gear_fps(g) < fps,
{
}

/// A gear's wire value reads back as that gear, and a value that reads as a
/// gear is that gear's wire value.
pub proof fn gear_wire_round_trip(g: Gear, v: u8)
    ensures
        gear_of(gear_rank(g) as u8) == Some(g),
        gear_of(v) matches Some(h) ==> gear_rank(h) == v,
{
}

/// The gears as the protocol numbers them, with their targets: `Low` is 0
/// at 60 fps, `Mid` 1 at 120, `High` 2 at 144; no other byte names a gear.
pub proof fn gear_table(v: u8)
    ensures
        gear_rank(Gear::Low) == 0 && gear_fps(Gear::Low) == 60,
        gear_rank(Gear::Mid) == 1 && gear_fps(Gear::Mid) == 120,
        gear_rank(Gear::High) == 2 && gear_fps(Gear::High) == 144,
        gear_of(0) == Some(Gear::Low),
        gear_of(1) == Some(Gear::Mid),
        gear_of(2) == Some(Gear::High),
        v > 2 ==> gear_of(v) is None,
{
}

} // verus!
