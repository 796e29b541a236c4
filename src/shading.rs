use vstd::prelude::*;

verus! {

/// The surface material that a body is drawn with.
#[derive(Clone, Copy, Debug, PartialEq, Eq, Structural)]
pub enum BodyKind {
    Sun,
    Earth,
    GasGiant,
    Moon,
    Ring,
    Neptune,
    Uranus,
    Venus,
    /// A tag that names no material: drawn flat white.
    Unknown,
}

/// The material for a body-type tag.
pub open spec fn kind_of(planet_type: u32) -> BodyKind {
    if planet_type == 0 {
        BodyKind::Sun
    } else if planet_type == 1 {
        BodyKind::Earth
    } else if planet_type == 2 {
        BodyKind::GasGiant
    } else if planet_type == 3 {
        BodyKind::Moon
    } else if planet_type == 4 {
        BodyKind::Ring
    } else if planet_type == 5 {
        BodyKind::Neptune
    } else if planet_type == 6 {
        BodyKind::Uranus
    } else if planet_type == 7 {
        BodyKind::Venus
    } else {
        BodyKind::Unknown
    }
}

/// Reads a body-type tag: 0 sun, 1 earth-like, 2 gas giant, 3 moon, 4 ring,
/// 5 Neptune-like, 6 Uranus-like, 7 Venus-like; any other tag is `Unknown`.
pub fn body_kind(planet_type: u32) -> (r: BodyKind)
    ensures
        r == kind_of(planet_type),
{
    match planet_type {
        0 => BodyKind::Sun,
        1 => BodyKind::Earth,
        2 => BodyKind::GasGiant,
        3 => BodyKind::Moon,
        4 => BodyKind::Ring,
        5 => BodyKind::Neptune,
        6 => BodyKind::Uranus,
        7 => BodyKind::Venus,
        _ => BodyKind::Unknown,
    }
}

} // verus!
