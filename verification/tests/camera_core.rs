use orbit_camera::camera::CameraEvents;
use orbit_camera::camera::DerivedTransform;
use orbit_camera::camera::OrbitCamera;
use orbit_camera::camera::OrbitCameraPlugin;
use orbit_camera::camera::PointerButton;
use orbit_camera::camera::ScrollEvent;
use orbit_camera::camera::ScrollUnit;
use orbit_camera::camera::TrigSample;
use orbit_camera::camera::zoom_apply;
use orbit_camera::camera::FRAC_PI_2_FIX;
use orbit_camera::fix::SCALE;
use orbit_camera::geom::Vec2;
use orbit_camera::geom::Vec3;

const DT_ONE_SECOND: i64 = 1_000_000;

#[test]
fn default_configuration_matches_the_stock_camera() {
    let c: OrbitCamera = Default::default();
    assert_eq!(c.theta, 0);
    assert_eq!(c.phi, FRAC_PI_2_FIX);
    assert_eq!(c.rho, 5_000_000);
    assert_eq!(c.theta_range.lo, 10_000);
    assert_eq!(c.phi_range.hi, FRAC_PI_2_FIX);
    assert_eq!(c.rho_range.hi, 1_000_000_000);
    assert_eq!(c.rotate_sensitivity, SCALE);
    assert_eq!(c.pan_sensitivity, SCALE);
    assert_eq!(c.zoom_sensitivity, 800_000);
    assert_eq!(c.rotate_button, PointerButton::Primary);
    assert_eq!(c.pan_button, PointerButton::Secondary);
    assert!(c.enabled);
}

#[test]
fn new_overrides_radius_and_pivot_only() {
    let c = OrbitCamera::new(7_000_000, Vec3::new(1_000_000, 2_000_000, 3_000_000));
    assert_eq!(c.rho, 7_000_000);
    assert_eq!(c.origin, Vec3::new(1_000_000, 2_000_000, 3_000_000));
    assert_eq!(c.phi, FRAC_PI_2_FIX);
    assert_eq!(c.zoom_sensitivity, 800_000);
    assert!(c.enabled);
}

#[test]
fn orbit_sequence_clamps_phi_but_never_theta() {
    let mut c: OrbitCamera = Default::default();
    let t: DerivedTransform = Default::default();
    // Each intent pushes phi down hard and theta up past its declared range.
    let events = vec![
        CameraEvents::Orbit(Vec2::new(1_000_000, 10_000_000)),
        CameraEvents::Orbit(Vec2::new(1_000_000, 10_000_000)),
        CameraEvents::Orbit(Vec2::new(1_000_000, -20_000_000)),
    ];
    OrbitCameraPlugin::mouse_motion_system(&mut c, &t, &events, DT_ONE_SECOND);
    // phi was clamped at its floor, then at its ceiling.
    assert_eq!(c.phi, c.phi_range.hi);
    // theta accumulated all three deltas, far outside its declared range.
    assert_eq!(c.theta, -3_000_000);
    assert!(c.theta < c.theta_range.lo);
}

#[test]
fn orbit_respects_sensitivity_and_frame_time() {
    let mut c: OrbitCamera = Default::default();
    c.rotate_sensitivity = 500_000; // half speed
    let t: DerivedTransform = Default::default();
    let events = vec![CameraEvents::Orbit(Vec2::new(2_000_000, 0))];
    OrbitCameraPlugin::mouse_motion_system(&mut c, &t, &events, 500_000);
    // 2.0 * 0.5 * 0.5 = 0.5 subtracted from theta.
    assert_eq!(c.theta, -500_000);
}

#[test]
fn zoom_in_strictly_decreases_the_radius() {
    let shrunk = zoom_apply(5_000_000, 800_000, 250_000);
    assert!(shrunk < 5_000_000);
    let shrunk_more = zoom_apply(5_000_000, 800_000, 3_000_000);
    assert_eq!(shrunk_more, 2_560_000);
}

#[test]
fn zoom_out_strictly_increases_the_radius() {
    let grown = zoom_apply(5_000_000, 800_000, -1_000_000);
    assert_eq!(grown, 6_250_000);
    let grown_little = zoom_apply(5_000_000, 800_000, -100_000);
    assert!(grown_little > 5_000_000);
}

#[test]
fn one_zoom_line_takes_a_fifth_off() {
    let mut c: OrbitCamera = Default::default();
    let events = vec![CameraEvents::Zoom(1_000_000)];
    OrbitCameraPlugin::zoom_system(&mut c, &events);
    assert_eq!(c.rho, 4_000_000);
}

#[test]
fn pan_with_zero_delta_leaves_the_pivot() {
    let mut c = OrbitCamera::new(5_000_000, Vec3::new(123, 456, 789));
    // An arbitrary tilted orientation.
    let mut t: DerivedTransform = Default::default();
    t.right = Vec3::new(700_000, 0, -714_142);
    t.up = Vec3::new(100_000, 990_000, 100_000);
    let events = vec![CameraEvents::Pan(Vec2::new(0, 0))];
    OrbitCameraPlugin::mouse_motion_system(&mut c, &t, &events, DT_ONE_SECOND);
    assert_eq!(c.origin, Vec3::new(123, 456, 789));
}

#[test]
fn pan_moves_the_pivot_along_the_camera_axes() {
    let mut c: OrbitCamera = Default::default();
    let t: DerivedTransform = Default::default();
    let events = vec![CameraEvents::Pan(Vec2::new(1_000_000, 2_000_000))];
    OrbitCameraPlugin::mouse_motion_system(&mut c, &t, &events, DT_ONE_SECOND);
    // Stock axes: right = X, up = Y.
    assert_eq!(c.origin, Vec3::new(1_000_000, 2_000_000, 0));
}

#[test]
fn disabled_camera_ignores_every_intent() {
    let mut c: OrbitCamera = Default::default();
    c.enabled = false;
    let before = c;
    let t: DerivedTransform = Default::default();
    let mut frozen = t;
    let events = vec![
        CameraEvents::Orbit(Vec2::new(1_000_000, 1_000_000)),
        CameraEvents::Pan(Vec2::new(1_000_000, 1_000_000)),
        CameraEvents::Zoom(1_000_000),
    ];
    OrbitCameraPlugin::mouse_motion_system(&mut c, &t, &events, DT_ONE_SECOND);
    OrbitCameraPlugin::zoom_system(&mut c, &events);
    let trig = TrigSample::new(0, SCALE, SCALE, 0);
    OrbitCameraPlugin::update_transform_system(&c, &trig, &mut frozen);
    assert_eq!(c, before);
    assert_eq!(frozen, t);
}

#[test]
fn disabled_camera_earns_no_intents() {
    let mut c: OrbitCamera = Default::default();
    c.enabled = false;
    let motions = vec![Vec2::new(5_000, 5_000)];
    let pressed = vec![PointerButton::Primary, PointerButton::Secondary];
    let wheel = vec![ScrollEvent { unit: ScrollUnit::Line, amount: 1_000_000 }];
    assert!(OrbitCameraPlugin::emit_motion_events(&c, &motions, &pressed).is_empty());
    assert!(OrbitCameraPlugin::emit_zoom_events(&c, &wheel).is_empty());
}

#[test]
fn held_buttons_decide_which_intents_fire() {
    let c: OrbitCamera = Default::default();
    let motions = vec![Vec2::new(3_000, -4_000), Vec2::new(1_000, 1_000)];
    let d = Vec2::new(4_000, -3_000);

    let none = OrbitCameraPlugin::emit_motion_events(&c, &motions, &vec![]);
    assert!(none.is_empty());

    let only_orbit =
        OrbitCameraPlugin::emit_motion_events(&c, &motions, &vec![PointerButton::Primary]);
    assert_eq!(only_orbit, vec![CameraEvents::Orbit(d)]);

    let only_pan =
        OrbitCameraPlugin::emit_motion_events(&c, &motions, &vec![PointerButton::Secondary]);
    assert_eq!(only_pan, vec![CameraEvents::Pan(d)]);

    let both = OrbitCameraPlugin::emit_motion_events(
        &c,
        &motions,
        &vec![PointerButton::Middle, PointerButton::Secondary, PointerButton::Primary],
    );
    assert_eq!(both, vec![CameraEvents::Orbit(d), CameraEvents::Pan(d)]);
}

#[test]
fn pixel_scrolls_convert_to_lines() {
    let c: OrbitCamera = Default::default();
    let pixel = vec![ScrollEvent { unit: ScrollUnit::Pixel, amount: 10_000_000 }];
    let line = vec![ScrollEvent { unit: ScrollUnit::Line, amount: 1_000_000 }];
    let from_pixel = OrbitCameraPlugin::emit_zoom_events(&c, &pixel);
    let from_line = OrbitCameraPlugin::emit_zoom_events(&c, &line);
    assert_eq!(from_pixel, vec![CameraEvents::Zoom(1_000_000)]);
    assert_eq!(from_pixel, from_line);
}

#[test]
fn cancelling_scrolls_emit_nothing() {
    let c: OrbitCamera = Default::default();
    let wheel = vec![
        ScrollEvent { unit: ScrollUnit::Line, amount: 2_000_000 },
        ScrollEvent { unit: ScrollUnit::Line, amount: -2_000_000 },
    ];
    assert!(OrbitCameraPlugin::emit_zoom_events(&c, &wheel).is_empty());
}

#[test]
fn quarter_turn_keeps_the_camera_five_units_out() {
    let mut c = OrbitCamera::new(5_000_000, Vec3::zero());
    let t: DerivedTransform = Default::default();
    let motions = vec![Vec2::new(FRAC_PI_2_FIX, 0)];
    let pressed = vec![PointerButton::Primary];
    let events = OrbitCameraPlugin::emit_motion_events(&c, &motions, &pressed);
    assert_eq!(events, vec![CameraEvents::Orbit(Vec2::new(FRAC_PI_2_FIX, 0))]);
    OrbitCameraPlugin::mouse_motion_system(&mut c, &t, &events, DT_ONE_SECOND);
    assert_eq!(c.theta, -FRAC_PI_2_FIX);
    assert_eq!(c.phi, FRAC_PI_2_FIX);

    // sin(-pi/2) = -1, cos(-pi/2) = 0; sin(pi/2) = 1, cos(pi/2) = 0.
    let trig = TrigSample::new(-SCALE, 0, SCALE, 0);
    let mut derived: DerivedTransform = Default::default();
    OrbitCameraPlugin::update_transform_system(&c, &trig, &mut derived);
    assert_eq!(derived.position, Vec3::new(5_000_000, 0, 0));
    let offset = Vec3::new(
        derived.position.x - c.origin.x,
        derived.position.y - c.origin.y,
        derived.position.z - c.origin.z,
    );
    // The squared distance from the pivot is exactly (5.0)^2.
    assert_eq!(offset.dot(offset), 25_000_000);
}

#[test]
fn deriving_twice_from_one_pose_is_identical() {
    let c = OrbitCamera::new(3_000_000, Vec3::new(10_000, 20_000, 30_000));
    let trig = TrigSample::new(479_426, 877_583, 841_471, 540_302);
    let mut first: DerivedTransform = Default::default();
    let mut second: DerivedTransform = Default::default();
    OrbitCameraPlugin::update_transform_system(&c, &trig, &mut first);
    OrbitCameraPlugin::update_transform_system(&c, &trig, &mut second);
    assert_eq!(first, second);
    OrbitCameraPlugin::update_transform_system(&c, &trig, &mut second);
    assert_eq!(first, second);
}

#[test]
fn derived_axes_follow_the_look_at_orientation() {
    let c = OrbitCamera::new(2_000_000, Vec3::zero());
    // theta = 0, phi = pi/2: camera sits on the negative Z axis.
    let trig = TrigSample::new(0, SCALE, SCALE, 0);
    let mut derived: DerivedTransform = Default::default();
    OrbitCameraPlugin::update_transform_system(&c, &trig, &mut derived);
    assert_eq!(derived.position, Vec3::new(0, 0, -2_000_000));
    assert_eq!(derived.right, Vec3::new(SCALE, 0, 0));
    assert_eq!(derived.up, Vec3::new(0, SCALE, 0));
    assert_eq!(derived.forward, Vec3::new(0, 0, SCALE));
}
