use orbit_camera::geom::Vec2;
use orbit_camera::mouse::mouse_position_system;
use orbit_camera::mouse::Mouse;

#[test]
fn window_centre_maps_to_the_origin() {
    let mut m: Mouse = Default::default();
    let window = Vec2::new(1_000_000_000, 500_000_000);
    mouse_position_system(&mut m, Some(Vec2::new(500_000_000, 250_000_000)), window);
    assert_eq!(m.normalised_device_coordinates, Vec2::new(0, 0));
}

#[test]
fn window_corners_map_to_unit_coordinates() {
    let mut m: Mouse = Default::default();
    let window = Vec2::new(800_000_000, 600_000_000);
    mouse_position_system(&mut m, Some(Vec2::new(0, 0)), window);
    assert_eq!(m.normalised_device_coordinates, Vec2::new(-1_000_000, -1_000_000));
    mouse_position_system(&mut m, Some(Vec2::new(800_000_000, 600_000_000)), window);
    assert_eq!(m.normalised_device_coordinates, Vec2::new(1_000_000, 1_000_000));
}

#[test]
fn cursor_outside_the_window_changes_nothing() {
    let mut m: Mouse = Default::default();
    let window = Vec2::new(800_000_000, 600_000_000);
    mouse_position_system(&mut m, Some(Vec2::new(200_000_000, 150_000_000)), window);
    let kept = m;
    mouse_position_system(&mut m, None, window);
    assert_eq!(m, kept);
    assert_eq!(m.normalised_device_coordinates, Vec2::new(-500_000, -500_000));
}
