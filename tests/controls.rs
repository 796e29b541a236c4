use orbit_raster::controls::{handle_input, Keys, ViewState, PAN_STEP, TURN_STEP, ZOOM_MAX, ZOOM_MIN, ZOOM_STEP};
use orbit_raster::fixed::{LIMIT, ONE};
use orbit_raster::matrix::Vector3;

fn no_keys() -> Keys {
    Keys {
        right: false,
        left: false,
        up: false,
        down: false,
        zoom_in: false,
        zoom_out: false,
        turn_x_back: false,
        turn_x: false,
        turn_y_back: false,
        turn_y: false,
        turn_z_back: false,
        turn_z: false,
        toggle_rotation: false,
        toggle_orbit: false,
    }
}

#[test]
fn idle_frame_changes_nothing() {
    let s = ViewState::initial();
    assert_eq!(handle_input(&s, &no_keys()), s);
    assert_eq!(s.camera_zoom, 39322);
    assert!(s.auto_rotate && s.auto_orbit);
}

#[test]
fn arrows_pan_by_ten() {
    let s = ViewState::initial();
    let k = Keys { right: true, up: true, ..no_keys() };
    let t = handle_input(&s, &k);
    assert_eq!(t.camera_offset, Vector3::new(10 * ONE, -10 * ONE, 0));
    assert_eq!(PAN_STEP, 10 * ONE);
    let both = Keys { right: true, left: true, ..no_keys() };
    assert_eq!(handle_input(&s, &both).camera_offset, s.camera_offset);
}

#[test]
fn pan_saturates_at_range() {
    let mut s = ViewState::initial();
    s.camera_offset = Vector3::new(LIMIT - 1, 0, 0);
    let t = handle_input(&s, &Keys { right: true, ..no_keys() });
    assert_eq!(t.camera_offset.x, LIMIT);
}

#[test]
fn zoom_stays_between_limits() {
    let mut s = ViewState::initial();
    s.camera_zoom = ZOOM_MAX - 1;
    assert_eq!(handle_input(&s, &Keys { zoom_in: true, ..no_keys() }).camera_zoom, ZOOM_MAX);
    s.camera_zoom = ZOOM_MIN + 1;
    assert_eq!(handle_input(&s, &Keys { zoom_out: true, ..no_keys() }).camera_zoom, ZOOM_MIN);
    s.camera_zoom = ONE;
    assert_eq!(handle_input(&s, &Keys { zoom_in: true, ..no_keys() }).camera_zoom, ONE + ZOOM_STEP);
    s.camera_zoom = ZOOM_MAX;
    let both = Keys { zoom_in: true, zoom_out: true, ..no_keys() };
    assert_eq!(handle_input(&s, &both).camera_zoom, ZOOM_MAX - ZOOM_STEP);
}

#[test]
fn rotation_keys_turn_the_system() {
    let s = ViewState::initial();
    let k = Keys { turn_x: true, turn_y_back: true, turn_z: true, ..no_keys() };
    let t = handle_input(&s, &k);
    assert_eq!(t.system_rotation, Vector3::new(TURN_STEP, -TURN_STEP, TURN_STEP));
}

#[test]
fn toggles_flip_flags() {
    let s = ViewState::initial();
    let t = handle_input(&s, &Keys { toggle_rotation: true, ..no_keys() });
    assert!(!t.auto_rotate && t.auto_orbit);
    let u = handle_input(&t, &Keys { toggle_rotation: true, toggle_orbit: true, ..no_keys() });
    assert!(u.auto_rotate && !u.auto_orbit);
}
