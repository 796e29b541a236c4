use vstd::prelude::*;

verus! {

/// A moon that orbits a planet; lengths, speeds and the scale are in
/// fixed-point units.
#[derive(Clone, Debug)]
pub struct Moon {
    pub name: String,
    pub scale: i64,
    pub orbit_radius: i64,
    pub orbit_speed: i64,
    pub rotation_speed: i64,
    pub planet_type: u32,
}

impl Moon {
    pub fn new(
        name: &str,
        scale: i64,
        orbit_radius: i64,
        orbit_speed: i64,
        rotation_speed: i64,
        planet_type: u32,
    ) -> (r: Moon)
        ensures
            r.name@ == name@,
            r.scale == scale,
            r.orbit_radius == orbit_radius,
            r.orbit_speed == orbit_speed,
            r.rotation_speed == rotation_speed,
            r.planet_type == planet_type,
    {
        Moon { name: name.to_string(), scale, orbit_radius, orbit_speed, rotation_speed, planet_type }
    }
}

} // verus!
