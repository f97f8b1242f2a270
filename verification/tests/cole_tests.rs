use hent::cole::{
    can_process, mode_title, process_command, scdv, Command, KeyEvent, KeyPresses, KeyState, Mode,
    ScrollChange,
};
use hent::editor::Cursor;
use hent::keyboard::ElementState;

fn press(sc: u32) -> KeyEvent {
    KeyEvent { scan_code: sc, backspace: false, state: ElementState::Pressed }
}

fn release(sc: u32) -> KeyEvent {
    KeyEvent { scan_code: sc, backspace: false, state: ElementState::Released }
}

#[test]
fn key_states_follow_presses_releases_and_time() {
    let mut k = KeyPresses::new();
    let mut m = Mode::Insert;
    let mut c = Cursor::default();
    assert_eq!(k.state(30), None);
    k.input_event(&mut m, &mut c, &press(30));
    assert_eq!(k.state(30), Some(KeyState::JustPressed));
    k.tick(5_000);
    assert_eq!(k.state(30), Some(KeyState::Pressed(0)));
    k.tick(5_000);
    assert_eq!(k.state(30), Some(KeyState::Pressed(5_000)));
    k.input_event(&mut m, &mut c, &press(30));
    assert_eq!(k.state(30), Some(KeyState::Pressed(5_000)));
    k.input_event(&mut m, &mut c, &release(30));
    assert_eq!(k.state(30), Some(KeyState::JustReleased));
    k.tick(1);
    assert_eq!(k.state(30), Some(KeyState::Released(0)));
    k.tick(7);
    assert_eq!(k.state(30), Some(KeyState::Released(7)));
    k.input_event(&mut m, &mut c, &press(30));
    assert_eq!(k.state(30), Some(KeyState::JustPressed));
}

#[test]
fn releasing_an_unseen_key_cannot_be_taken_in() {
    let k = KeyPresses::new();
    let c = Cursor::default();
    assert!(!k.event_fits(Mode::Normal, &c, &release(30)));
    assert!(k.event_fits(Mode::Normal, &c, &press(30)));
}

#[test]
fn normal_mode_moves_and_scrolls() {
    let mut k = KeyPresses::new();
    let mut m = Mode::Normal;
    let mut c = Cursor { line: 0, col: 0, ind: Some(0) };
    assert_eq!(k.input_event(&mut m, &mut c, &press(36)), (None, ScrollChange::Unchanged));
    assert_eq!(c, Cursor { line: 1, col: 0, ind: None });
    assert_eq!(k.input_event(&mut m, &mut c, &release(36)), (None, ScrollChange::Unchanged));
    assert_eq!(c, Cursor { line: 2, col: 0, ind: None });
    k.input_event(&mut m, &mut c, &press(37));
    assert_eq!(c, Cursor { line: 2, col: 1, ind: None });
    assert_eq!(k.input_event(&mut m, &mut c, &press(50)).1, ScrollChange::Down);
    assert_eq!(k.input_event(&mut m, &mut c, &press(51)).1, ScrollChange::Up);
    assert_eq!(k.input_event(&mut m, &mut c, &press(20)).1, ScrollChange::Reset);
    assert_eq!(k.input_event(&mut m, &mut c, &press(35)), (Some(Command::RemoveLine), ScrollChange::Unchanged));
    assert_eq!(m, Mode::Normal);
    k.input_event(&mut m, &mut c, &press(34));
    assert_eq!(m, Mode::Insert);
}

#[test]
fn cursor_at_the_end_of_usize_cannot_move_on() {
    let k = KeyPresses::new();
    let c = Cursor { line: usize::MAX, col: 0, ind: None };
    assert!(!k.event_fits(Mode::Normal, &c, &press(36)));
    assert!(k.event_fits(Mode::Normal, &c, &press(37)));
    assert!(k.event_fits(Mode::Insert, &c, &press(36)));
}

#[test]
fn insert_mode_types_dvorak_and_backspace_removes() {
    let mut k = KeyPresses::new();
    let mut m = Mode::Insert;
    let mut c = Cursor::default();
    assert_eq!(k.input_event(&mut m, &mut c, &press(30)), (Some(Command::PutChar('a')), ScrollChange::Unchanged));
    let back = KeyEvent { scan_code: 14, backspace: true, state: ElementState::Pressed };
    assert_eq!(k.input_event(&mut m, &mut c, &back).0, Some(Command::RemoveLine));
    assert_eq!(k.input_event(&mut m, &mut c, &press(58)).0, None);
    assert_eq!(m, Mode::Normal);
}

#[test]
fn commands_change_the_text() {
    let mut text: Vec<char> = "hi".chars().collect();
    let mut c = Cursor { line: 0, col: 5, ind: None };
    assert!(can_process(&text, &c, &Command::PutChar('!')));
    process_command(&mut text, &mut c, &Command::PutChar('!'));
    assert_eq!(text.iter().collect::<String>(), "hi!");
    assert_eq!(c, Cursor { line: 0, col: 3, ind: Some(3) });
    process_command(&mut text, &mut c, &Command::MoveCursorH(2));
    assert_eq!(text.iter().collect::<String>(), "hi!");
    process_command(&mut text, &mut c, &Command::RemoveLine);
    assert!(text.is_empty());
    assert_eq!(c, Cursor { line: 0, col: 0, ind: None });
}

#[test]
fn typing_after_a_multibyte_character() {
    let mut text: Vec<char> = "жa".chars().collect();
    let mut c = Cursor { line: 0, col: 1, ind: None };
    assert!(can_process(&text, &c, &Command::PutChar('x')));
    process_command(&mut text, &mut c, &Command::PutChar('x'));
    assert_eq!(text.iter().collect::<String>(), "жxa");
    assert_eq!(c, Cursor { line: 0, col: 2, ind: Some(3) });
    let inside = Cursor { line: 0, col: 0, ind: Some(1) };
    assert!(!can_process(&text, &inside, &Command::PutChar('x')));
    assert!(can_process(&text, &inside, &Command::RemoveLine));
}

#[test]
fn dvorak_scancodes() {
    assert_eq!(scdv(30), 'a');
    assert_eq!(scdv(31), 'o');
    assert_eq!(scdv(99), '\0');
}

#[test]
fn titles() {
    assert_eq!(mode_title(Mode::Normal), "NORMAL MODE");
    assert_eq!(mode_title(Mode::Insert), "INSERT MODE");
}
