use hent::keyboard::{ElementState, KeyStrokes, KeyboardInput, Release, Stroke, REPEAT_INTERVAL};

fn press(sc: u32) -> KeyboardInput {
    KeyboardInput { scan_code: sc, state: ElementState::Pressed }
}

fn release(sc: u32) -> KeyboardInput {
    KeyboardInput { scan_code: sc, state: ElementState::Released }
}

#[test]
fn new_holds_nothing() {
    let ks = KeyStrokes::new();
    assert!(ks.get_down().is_empty());
    assert!(ks.get_just_pressed().is_empty());
    assert!(ks.get_double_pressed().is_empty());
}

#[test]
fn press_makes_key_just_pressed_and_down() {
    let mut ks = KeyStrokes::new();
    ks.eat_keyboard_input(&press(30));
    assert!(ks.get_just_pressed().contains(&30));
    assert!(ks.get_down().contains(&30));
    assert!(!ks.get_double_pressed().contains(&30));
    assert_eq!(ks.stroke(30), Some(Stroke { duration: 0, repetition: 0 }));
}

#[test]
fn update_ends_just_pressed() {
    let mut ks = KeyStrokes::new();
    ks.eat_keyboard_input(&press(30));
    ks.update(16_000);
    assert!(ks.get_just_pressed().is_empty());
    assert!(ks.get_down().contains(&30));
    assert_eq!(ks.stroke(30), Some(Stroke { duration: 16_000, repetition: 0 }));
}

#[test]
fn update_with_no_time_keeps_just_pressed() {
    let mut ks = KeyStrokes::new();
    ks.eat_keyboard_input(&press(30));
    ks.update(0);
    assert!(ks.get_just_pressed().contains(&30));
}

#[test]
fn release_ends_stroke() {
    let mut ks = KeyStrokes::new();
    ks.eat_keyboard_input(&press(30));
    ks.update(50_000);
    ks.eat_keyboard_input(&release(30));
    assert!(ks.get_down().is_empty());
    assert_eq!(ks.stroke(30), None);
    assert_eq!(ks.release(30), Some(Release { duration: 0, repetition: 0 }));
}

#[test]
fn quick_second_press_is_double() {
    let mut ks = KeyStrokes::new();
    ks.eat_keyboard_input(&press(35));
    ks.update(30_000);
    ks.eat_keyboard_input(&release(35));
    ks.update(REPEAT_INTERVAL - 1);
    ks.eat_keyboard_input(&press(35));
    assert!(ks.get_double_pressed().contains(&35));
    assert!(ks.get_just_pressed().contains(&35));
    assert_eq!(ks.stroke(35), Some(Stroke { duration: 0, repetition: 1 }));
    assert_eq!(ks.release(35), None);
}

#[test]
fn slow_second_press_is_not_double() {
    let mut ks = KeyStrokes::new();
    ks.eat_keyboard_input(&press(35));
    ks.eat_keyboard_input(&release(35));
    ks.update(REPEAT_INTERVAL);
    ks.eat_keyboard_input(&press(35));
    assert!(ks.get_double_pressed().is_empty());
    assert_eq!(ks.stroke(35), Some(Stroke { duration: 0, repetition: 0 }));
}

#[test]
fn third_quick_press_is_not_double() {
    let mut ks = KeyStrokes::new();
    for _ in 0..2 {
        ks.eat_keyboard_input(&press(35));
        ks.eat_keyboard_input(&release(35));
    }
    ks.eat_keyboard_input(&press(35));
    assert_eq!(ks.stroke(35), Some(Stroke { duration: 0, repetition: 2 }));
    assert!(ks.get_double_pressed().is_empty());
    assert!(ks.get_just_pressed().contains(&35));
}

#[test]
fn press_of_held_key_is_ignored() {
    let mut ks = KeyStrokes::new();
    ks.eat_keyboard_input(&press(30));
    ks.update(10_000);
    ks.eat_keyboard_input(&press(30));
    assert_eq!(ks.stroke(30), Some(Stroke { duration: 10_000, repetition: 0 }));
    assert!(ks.get_just_pressed().is_empty());
}

#[test]
fn release_of_unseen_key_then_quick_press_counts_as_double() {
    let mut ks = KeyStrokes::new();
    ks.eat_keyboard_input(&release(40));
    assert_eq!(ks.release(40), Some(Release { duration: 0, repetition: 0 }));
    ks.eat_keyboard_input(&press(40));
    assert!(ks.get_double_pressed().contains(&40));
}

#[test]
fn durations_saturate() {
    let mut ks = KeyStrokes::new();
    ks.eat_keyboard_input(&press(30));
    ks.eat_keyboard_input(&release(31));
    ks.update(u64::MAX);
    ks.update(5);
    assert_eq!(ks.stroke(30), Some(Stroke { duration: u64::MAX, repetition: 0 }));
    assert_eq!(ks.release(31), Some(Release { duration: u64::MAX, repetition: 0 }));
}

#[test]
fn pressed_sets_are_nested() {
    let mut ks = KeyStrokes::new();
    ks.eat_keyboard_input(&press(30));
    ks.eat_keyboard_input(&release(30));
    ks.eat_keyboard_input(&press(31));
    ks.update(1);
    ks.eat_keyboard_input(&press(30));
    ks.eat_keyboard_input(&press(32));
    let double = ks.get_double_pressed();
    let just = ks.get_just_pressed();
    let down = ks.get_down();
    assert!(double.is_subset(&just));
    assert!(just.is_subset(&down));
    assert_eq!(double.len(), 1);
    assert_eq!(just.len(), 2);
    assert_eq!(down.len(), 3);
}

#[test]
fn repetition_overflow_is_detected() {
    let mut ks = KeyStrokes::new();
    for _ in 0..u16::MAX {
        ks.eat_keyboard_input(&press(20));
        ks.eat_keyboard_input(&release(20));
    }
    assert_eq!(ks.release(20), Some(Release { duration: 0, repetition: u16::MAX - 1 }));
    assert!(ks.repetition_fits(&press(20)));
    ks.eat_keyboard_input(&press(20));
    ks.eat_keyboard_input(&release(20));
    assert_eq!(ks.release(20), Some(Release { duration: 0, repetition: u16::MAX }));
    assert!(!ks.repetition_fits(&press(20)));
    assert!(ks.repetition_fits(&release(20)));
    ks.update(REPEAT_INTERVAL);
    assert!(ks.repetition_fits(&press(20)));
}

#[test]
fn no_key_is_both_held_and_released() {
    let mut ks = KeyStrokes::new();
    ks.eat_keyboard_input(&release(7));
    ks.eat_keyboard_input(&press(7));
    assert!(ks.stroke(7).is_some());
    assert!(ks.release(7).is_none());
    ks.eat_keyboard_input(&release(7));
    assert!(ks.stroke(7).is_none());
    assert!(ks.release(7).is_some());
}

fn frame(ks: &mut KeyStrokes, dt: u64, events: &[KeyboardInput]) {
    ks.update(dt);
    for e in events {
        assert!(ks.repetition_fits(e));
        ks.eat_keyboard_input(e);
    }
}

#[test]
fn last_press_in_a_frame_is_just_pressed() {
    let mut ks = KeyStrokes::new();
    frame(&mut ks, 16_000, &[press(30), release(30), press(31), press(30), press(32), release(32)]);
    let just = ks.get_just_pressed();
    assert!(just.contains(&30));
    assert!(just.contains(&31));
    // Pressed and released within the frame: not held at its end.
    assert!(!just.contains(&32));
    assert!(ks.stroke(32).is_none());
}

#[test]
fn an_event_touches_only_its_key() {
    let mut ks = KeyStrokes::new();
    frame(&mut ks, 0, &[press(1), release(2)]);
    ks.update(5);
    let held = ks.stroke(1);
    let released = ks.release(2);
    ks.eat_keyboard_input(&press(3));
    ks.eat_keyboard_input(&release(4));
    assert_eq!(ks.stroke(1), held);
    assert_eq!(ks.release(2), released);
}
