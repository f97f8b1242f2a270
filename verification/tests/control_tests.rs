use hent::control::{control, control_step};
use hent::editor::{process, Cursor, EditorCommand, EditorCommands, EditorMode, ScrollState};
use hent::keyboard::{ElementState, KeyStrokes, KeyboardInput};
use hent::layout::Layout;

struct Editor {
    mode: EditorMode,
    commands: EditorCommands,
    layout: Layout,
    scroll: ScrollState,
}

fn editor(mode: EditorMode) -> Editor {
    Editor { mode, commands: EditorCommands::new(), layout: Layout::Dvorak, scroll: ScrollState::Idle }
}

fn step(e: &mut Editor, jp: Option<u32>, p: Option<u32>, dp: Option<u32>, space: bool) {
    control_step(&mut e.mode, &mut e.commands, &mut e.layout, &mut e.scroll, jp, p, dp, space);
}

fn drain(e: &mut Editor) -> Vec<EditorCommand> {
    let mut v = Vec::new();
    while let Some(c) = e.commands.pop() {
        v.push(c);
    }
    v
}

#[test]
fn normal_mode_key_enters_insert_mode() {
    let mut e = editor(EditorMode::Normal);
    step(&mut e, Some(34), None, None, false);
    assert_eq!(e.mode, EditorMode::Insert);
    assert!(drain(&mut e).is_empty());
}

#[test]
fn escape_and_caps_leave_insert_mode() {
    for k in [1u32, 58] {
        let mut e = editor(EditorMode::Insert);
        step(&mut e, Some(k), None, None, false);
        assert_eq!(e.mode, EditorMode::Normal);
        assert!(drain(&mut e).is_empty());
    }
}

#[test]
fn cursor_moves_in_normal_mode() {
    let mut e = editor(EditorMode::Normal);
    step(&mut e, Some(36), None, None, false);
    step(&mut e, Some(36), None, None, true);
    step(&mut e, Some(37), None, None, false);
    step(&mut e, Some(37), None, None, true);
    assert_eq!(
        drain(&mut e),
        vec![
            EditorCommand::MoveCursorDown(1),
            EditorCommand::MoveCursorUp(1),
            EditorCommand::MoveCursorRight(1),
            EditorCommand::MoveCursorLeft(1),
        ]
    );
    assert_eq!(e.mode, EditorMode::Normal);
}

#[test]
fn double_press_removes_the_line_after_the_move() {
    let mut e = editor(EditorMode::Normal);
    step(&mut e, Some(36), None, Some(35), false);
    assert_eq!(drain(&mut e), vec![EditorCommand::MoveCursorDown(1), EditorCommand::RemoveLine]);
}

#[test]
fn held_keys_scroll_in_normal_mode_only() {
    let mut e = editor(EditorMode::Normal);
    step(&mut e, None, Some(50), None, false);
    assert_eq!(e.scroll, ScrollState::ScrollingDown);
    step(&mut e, None, Some(51), None, false);
    assert_eq!(e.scroll, ScrollState::ScrollingUp);
    step(&mut e, None, Some(30), None, false);
    assert_eq!(e.scroll, ScrollState::ScrollingUp);
    let mut i = editor(EditorMode::Insert);
    step(&mut i, None, Some(50), None, false);
    assert_eq!(i.scroll, ScrollState::Idle);
}

#[test]
fn insert_mode_types_in_the_current_layout() {
    let mut e = editor(EditorMode::Insert);
    step(&mut e, Some(30), None, None, false);
    step(&mut e, Some(42), None, None, false);
    assert_eq!(e.layout, Layout::Rus);
    step(&mut e, Some(30), None, None, false);
    step(&mut e, Some(28), None, None, false);
    step(&mut e, None, None, None, false);
    assert_eq!(
        drain(&mut e),
        vec![EditorCommand::PutChar('a'), EditorCommand::PutChar('ф'), EditorCommand::AddLine]
    );
    assert_eq!(e.mode, EditorMode::Insert);
}

#[test]
fn insert_mode_ignores_double_presses_and_held_keys() {
    let mut e = editor(EditorMode::Insert);
    step(&mut e, None, Some(50), Some(35), true);
    assert!(drain(&mut e).is_empty());
    assert_eq!(e.scroll, ScrollState::Idle);
}

#[test]
fn control_reads_the_keystrokes() {
    let mut ks = KeyStrokes::new();
    ks.eat_keyboard_input(&KeyboardInput { scan_code: 30, state: ElementState::Pressed });
    let mut e = editor(EditorMode::Insert);
    control(&ks, &mut e.mode, &mut e.commands, &mut e.layout, &mut e.scroll);
    assert_eq!(drain(&mut e), vec![EditorCommand::PutChar('a')]);
    ks.update(1000);
    control(&ks, &mut e.mode, &mut e.commands, &mut e.layout, &mut e.scroll);
    assert!(drain(&mut e).is_empty());
}

#[test]
fn control_with_space_held_moves_up() {
    let mut ks = KeyStrokes::new();
    ks.eat_keyboard_input(&KeyboardInput { scan_code: 57, state: ElementState::Pressed });
    ks.update(1000);
    ks.eat_keyboard_input(&KeyboardInput { scan_code: 36, state: ElementState::Pressed });
    let mut e = editor(EditorMode::Normal);
    control(&ks, &mut e.mode, &mut e.commands, &mut e.layout, &mut e.scroll);
    assert_eq!(drain(&mut e), vec![EditorCommand::MoveCursorUp(1)]);
}

#[test]
fn typed_key_lands_at_the_cursor() {
    let mut e = editor(EditorMode::Insert);
    let mut lines: Vec<Vec<char>> = vec!["ab".chars().collect(), "cd".chars().collect()];
    let mut cursor = Cursor { line: 1, col: 1, ind: None };
    step(&mut e, Some(31), None, None, false);
    process(&mut lines, &mut e.commands, &mut cursor);
    assert_eq!(lines[0].iter().collect::<String>(), "ab");
    assert_eq!(lines[1].iter().collect::<String>(), "cod");
    assert_eq!(cursor, Cursor { line: 1, col: 2, ind: Some(2) });
}
