use orbit_camera::geom::Vec2;
use orbit_camera::touch::Touch;
use orbit_camera::touch::TouchForce;
use orbit_camera::touch::TouchInput;
use orbit_camera::touch::TouchPhase;
use orbit_camera::touch::Touches;

fn started(id: u64, x: i64, y: i64) -> TouchInput {
    TouchInput { phase: TouchPhase::Started, position: Vec2::new(x, y), force: None, id }
}

fn moved(id: u64, x: i64, y: i64) -> TouchInput {
    TouchInput { phase: TouchPhase::Moved, position: Vec2::new(x, y), force: None, id }
}

fn ended(id: u64, x: i64, y: i64) -> TouchInput {
    TouchInput { phase: TouchPhase::Ended, position: Vec2::new(x, y), force: None, id }
}

fn cancelled(id: u64, x: i64, y: i64) -> TouchInput {
    TouchInput { phase: TouchPhase::Cancelled, position: Vec2::new(x, y), force: None, id }
}

#[test]
fn a_started_touch_is_pressed_and_just_pressed() {
    let mut touches: Touches = Default::default();
    touches.process_touch_event(&started(7, 100, 200));
    let t = touches.get_pressed(7).expect("live touch");
    assert_eq!(t.id(), 7);
    assert_eq!(t.position(), Vec2::new(100, 200));
    assert_eq!(t.start_position(), Vec2::new(100, 200));
    assert!(touches.just_pressed(7));
    assert_eq!(touches.iter().len(), 1);
    assert_eq!(touches.iter_just_pressed().len(), 1);
    assert!(!touches.just_released(7));
    assert!(!touches.just_cancelled(7));
}

#[test]
fn a_move_keeps_start_and_shifts_previous() {
    let mut touches: Touches = Default::default();
    touches.process_touch_event(&started(1, 10, 20));
    touches.process_touch_event(&moved(1, 30, 60));
    let t = touches.get_pressed(1).expect("live touch");
    assert_eq!(t.start_position(), Vec2::new(10, 20));
    assert_eq!(t.previous_position(), Vec2::new(10, 20));
    assert_eq!(t.position(), Vec2::new(30, 60));
    assert_eq!(t.delta(), Vec2::new(20, 40));
    assert_eq!(t.distance(), Vec2::new(20, 40));

    touches.process_touch_event(&moved(1, 35, 50));
    let t = touches.get_pressed(1).expect("live touch");
    assert_eq!(t.previous_position(), Vec2::new(30, 60));
    assert_eq!(t.delta(), Vec2::new(5, -10));
    assert_eq!(t.distance(), Vec2::new(25, 30));
}

#[test]
fn a_move_of_an_unknown_finger_changes_nothing() {
    let mut touches: Touches = Default::default();
    touches.process_touch_event(&started(1, 10, 20));
    touches.process_touch_event(&moved(2, 30, 60));
    assert!(touches.get_pressed(2).is_none());
    assert_eq!(touches.iter().len(), 1);
}

#[test]
fn an_ended_touch_leaves_the_pressed_set() {
    let mut touches: Touches = Default::default();
    touches.process_touch_event(&started(1, 10, 20));
    touches.process_touch_event(&started(2, 11, 21));
    touches.process_touch_event(&ended(1, 40, 50));
    assert!(touches.get_pressed(1).is_none());
    assert!(touches.get_pressed(2).is_some());
    assert!(touches.just_released(1));
    let released = touches.get_released(1).expect("released touch");
    assert_eq!(released.position(), Vec2::new(40, 50));
    assert_eq!(touches.iter().len(), 1);
    assert_eq!(touches.iter_just_released().len(), 1);
}

#[test]
fn a_cancelled_touch_leaves_the_pressed_set() {
    let mut touches: Touches = Default::default();
    touches.process_touch_event(&started(9, 1, 2));
    touches.process_touch_event(&cancelled(9, 3, 4));
    assert!(touches.get_pressed(9).is_none());
    assert!(touches.just_cancelled(9));
    assert_eq!(touches.iter_just_cancelled().len(), 1);
    assert!(!touches.just_released(9));
}

#[test]
fn update_clears_only_the_transient_sets() {
    let mut touches: Touches = Default::default();
    touches.process_touch_event(&started(1, 10, 20));
    touches.process_touch_event(&started(2, 30, 40));
    touches.process_touch_event(&ended(2, 31, 41));
    touches.update();
    assert!(touches.get_pressed(1).is_some());
    assert!(!touches.just_pressed(1));
    assert!(!touches.just_released(2));
    assert!(touches.iter_just_pressed().is_empty());
    assert!(touches.iter_just_released().is_empty());
    assert!(touches.iter_just_cancelled().is_empty());
    assert_eq!(touches.iter().len(), 1);
}

#[test]
fn restarting_a_finger_replaces_its_entry() {
    let mut touches: Touches = Default::default();
    touches.process_touch_event(&started(5, 1, 1));
    touches.process_touch_event(&started(5, 9, 9));
    assert_eq!(touches.iter().len(), 1);
    let t = touches.get_pressed(5).expect("live touch");
    assert_eq!(t.start_position(), Vec2::new(9, 9));
}

#[test]
fn forces_are_carried_through() {
    let mut touches: Touches = Default::default();
    let input = TouchInput {
        phase: TouchPhase::Started,
        position: Vec2::new(0, 0),
        force: Some(TouchForce::Normalized(750_000)),
        id: 3,
    };
    touches.process_touch_event(&input);
    let t = touches.get_pressed(3).expect("live touch");
    assert_eq!(t.force(), Some(TouchForce::Normalized(750_000)));
    assert_eq!(t.start_force(), Some(TouchForce::Normalized(750_000)));
    let from_input = Touch::from_input(&input);
    assert_eq!(from_input.id(), 3);
    assert_eq!(from_input.previous_force(), Some(TouchForce::Normalized(750_000)));
}
