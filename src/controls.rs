use vstd::prelude::*;

use crate::fixed::{clamp_spec, saturate};
use crate::matrix::Vector3;

verus! {

/// Camera pan per frame while an arrow key is held: ten units.
pub const PAN_STEP: i64 = 655360;

/// Zoom change per frame while a zoom key is held: 0.05.
pub const ZOOM_STEP: i64 = 3277;

/// Largest zoom: 3.
pub const ZOOM_MAX: i64 = 196608;

/// Smallest zoom: 0.3.
pub const ZOOM_MIN: i64 = 19661;

/// Rotation per frame while a rotation key is held: π / 30 radians.
pub const TURN_STEP: i64 = 6863;

/// The keys read in one frame: which are held down, and which toggles were
/// pressed.
#[derive(Clone, Copy, Debug, PartialEq, Eq, Structural)]
pub struct Keys {
    pub right: bool,
    pub left: bool,
    pub up: bool,
    pub down: bool,
    pub zoom_in: bool,
    pub zoom_out: bool,
    pub turn_x_back: bool,
    pub turn_x: bool,
    pub turn_y_back: bool,
    pub turn_y: bool,
    pub turn_z_back: bool,
    pub turn_z: bool,
    pub toggle_rotation: bool,
    pub toggle_orbit: bool,
}

/// The viewer's state between frames: camera offset, zoom, rotation of the
/// whole system (radians), and whether bodies spin and orbit.
#[derive(Clone, Copy, Debug, PartialEq, Eq, Structural)]
pub struct ViewState {
    pub camera_offset: Vector3,
    pub camera_zoom: i64,
    pub system_rotation: Vector3,
    pub auto_rotate: bool,
    pub auto_orbit: bool,
}

/// `v` moved by `step` where `on` holds, saturating at the coordinate range.
pub open spec fn nudge(v: int, on: bool, step: int) -> int {
    if on {
        clamp_spec(v + step)
    } else {
        v
    }
}

/// The zoom after one frame: zooming in is applied first and capped at 3,
/// then zooming out, held at no less than 0.3.
pub open spec fn next_zoom(z: int, zoom_in: bool, zoom_out: bool) -> int {
    let a = if zoom_in {
        if z + ZOOM_STEP > ZOOM_MAX { ZOOM_MAX as int } else { z + ZOOM_STEP }
    } else {
        z
    };
    if zoom_out {
        if a - ZOOM_STEP < ZOOM_MIN { ZOOM_MIN as int } else { a - ZOOM_STEP }
    } else {
        a
    }
}

/// The state after one frame of key presses. Opposite keys held together
/// cancel (up to saturation).
pub open spec fn next_view(s: ViewState, k: Keys) -> ViewState {
    let o = s.camera_offset;
    let r = s.system_rotation;
    ViewState {
        camera_offset: Vector3 {
            x: nudge(nudge(o.x as int, k.right, PAN_STEP as int), k.left, -PAN_STEP) as i64,
            y: nudge(nudge(o.y as int, k.up, -PAN_STEP), k.down, PAN_STEP as int) as i64,
            z: o.z,
        },
        camera_zoom: next_zoom(s.camera_zoom as int, k.zoom_in, k.zoom_out) as i64,
        system_rotation: Vector3 {
            x: nudge(nudge(r.x as int, k.turn_x_back, -TURN_STEP), k.turn_x, TURN_STEP as int) as i64,
            y: nudge(nudge(r.y as int, k.turn_y_back, -TURN_STEP), k.turn_y, TURN_STEP as int) as i64,
            z: nudge(nudge(r.z as int, k.turn_z_back, -TURN_STEP), k.turn_z, TURN_STEP as int) as i64,
        },
        auto_rotate: s.auto_rotate != k.toggle_rotation,
        auto_orbit: s.auto_orbit != k.toggle_orbit,
    }
}

fn nudge_exec(v: i64, on: bool, step: i64) -> (r: i64)
    ensures
        r == nudge(v as int, on, step as int),
{
    if on {
        saturate(v as i128 + step as i128)
    } else {
        v
    }
}

fn zoom_exec(z: i64, zoom_in: bool, zoom_out: bool) -> (r: i64)
    ensures
        r == next_zoom(z as int, zoom_in, zoom_out),
{
    let a = if zoom_in {
        if z > ZOOM_MAX - ZOOM_STEP { ZOOM_MAX } else { z + ZOOM_STEP }
    } else {
        z
    };
    if zoom_out {
        if a < ZOOM_MIN + ZOOM_STEP { ZOOM_MIN } else { a - ZOOM_STEP }
    } else {
        a
    }
}

impl ViewState {
    /// The state at start-up: no offset, zoom 0.6, no rotation, spinning and
    /// orbiting on.
    pub fn initial() -> (r: ViewState)
        ensures
            r.camera_offset == (Vector3 { x: 0, y: 0, z: 0 }),
            r.camera_zoom == 39322,
            r.system_rotation == (Vector3 { x: 0, y: 0, z: 0 }),
            r.auto_rotate,
            r.auto_orbit,
    {
        ViewState {
            camera_offset: Vector3 { x: 0, y: 0, z: 0 },
            camera_zoom: 39322,
            system_rotation: Vector3 { x: 0, y: 0, z: 0 },
            auto_rotate: true,
            auto_orbit: true,
        }
    }
}

/// Applies one frame of input: arrows pan the camera, the zoom keys change
/// the zoom within `[0.3, 3]`, the rotation keys turn the system about each
/// axis, and the toggles switch spinning and orbiting.
pub fn handle_input(state: &ViewState, keys: &Keys) -> (r: ViewState)
    ensures
        r == next_view(*state, *keys),
{
    let o = state.camera_offset;
    let t = state.system_rotation;
    let zoom = zoom_exec(state.camera_zoom, keys.zoom_in, keys.zoom_out);
    ViewState {
        camera_offset: Vector3 {
            x: nudge_exec(nudge_exec(o.x, keys.right, PAN_STEP), keys.left, -PAN_STEP),
            y: nudge_exec(nudge_exec(o.y, keys.up, -PAN_STEP), keys.down, PAN_STEP),
            z: o.z,
        },
        camera_zoom: zoom,
        system_rotation: Vector3 {
            x: nudge_exec(nudge_exec(t.x, keys.turn_x_back, -TURN_STEP), keys.turn_x, TURN_STEP),
            y: nudge_exec(nudge_exec(t.y, keys.turn_y_back, -TURN_STEP), keys.turn_y, TURN_STEP),
            z: nudge_exec(nudge_exec(t.z, keys.turn_z_back, -TURN_STEP), keys.turn_z, TURN_STEP),
        },
        auto_rotate: state.auto_rotate != keys.toggle_rotation,
        auto_orbit: state.auto_orbit != keys.toggle_orbit,
    }
}

} // verus!
