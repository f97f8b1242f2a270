use hent::editor::{
    apply_command, can_apply, can_put_char, mode_title, process, put_char, Cursor, EditorCommand,
    EditorCommands, EditorMode,
};

fn chars(s: &str) -> Vec<char> {
    s.chars().collect()
}

fn text(v: &Vec<char>) -> String {
    v.iter().collect()
}

#[test]
fn cursor_starts_at_origin() {
    let c = Cursor::default();
    assert_eq!(c, Cursor { line: 0, col: 0, ind: None });
}

#[test]
fn put_char_in_the_middle() {
    let mut line = chars("abc");
    let mut c = Cursor { line: 0, col: 1, ind: None };
    assert!(can_put_char(&line, &c, 'X'));
    put_char(&mut line, &mut c, 'X');
    assert_eq!(text(&line), "aXbc");
    assert_eq!(c, Cursor { line: 0, col: 2, ind: Some(2) });
    put_char(&mut line, &mut c, 'Y');
    assert_eq!(text(&line), "aXYbc");
    assert_eq!(c, Cursor { line: 0, col: 3, ind: Some(3) });
}

#[test]
fn put_char_clamps_column_to_line_end() {
    let mut line = chars("ab");
    let mut c = Cursor { line: 0, col: 10, ind: None };
    put_char(&mut line, &mut c, 'X');
    assert_eq!(text(&line), "abX");
    assert_eq!(c, Cursor { line: 0, col: 3, ind: Some(3) });
}

#[test]
fn put_char_into_empty_line() {
    let mut line: Vec<char> = Vec::new();
    let mut c = Cursor { line: 0, col: 4, ind: None };
    put_char(&mut line, &mut c, 'q');
    assert_eq!(text(&line), "q");
    assert_eq!(c, Cursor { line: 0, col: 1, ind: Some(1) });
}

#[test]
fn multibyte_characters_advance_the_byte_position() {
    let mut line: Vec<char> = Vec::new();
    let mut c = Cursor::default();
    put_char(&mut line, &mut c, 'й');
    assert_eq!(c, Cursor { line: 0, col: 1, ind: Some(2) });
    put_char(&mut line, &mut c, 'ц');
    assert_eq!(c, Cursor { line: 0, col: 2, ind: Some(4) });
    put_char(&mut line, &mut c, 'a');
    assert_eq!(text(&line), "йцa");
    assert_eq!(c, Cursor { line: 0, col: 3, ind: Some(5) });
}

#[test]
fn typing_after_a_multibyte_character_with_unknown_position() {
    // The byte position is worked out as the start of the column's character.
    let mut line = chars("йa");
    let mut c = Cursor { line: 0, col: 1, ind: None };
    assert!(can_put_char(&line, &c, 'x'));
    put_char(&mut line, &mut c, 'x');
    assert_eq!(text(&line), "йxa");
    assert_eq!(c, Cursor { line: 0, col: 2, ind: Some(3) });
    let mut end = chars("жж");
    let mut c2 = Cursor { line: 0, col: 9, ind: None };
    put_char(&mut end, &mut c2, 'ы');
    assert_eq!(text(&end), "жжы");
    assert_eq!(c2, Cursor { line: 0, col: 3, ind: Some(6) });
}

#[test]
fn russian_letter_then_move_right_then_type() {
    let mut sections = vec![chars("ab")];
    let mut c = Cursor::default();
    apply_command(&mut sections, &mut c, EditorCommand::PutChar('ф'));
    apply_command(&mut sections, &mut c, EditorCommand::MoveCursorRight(1));
    assert!(can_apply(&sections, &c, EditorCommand::PutChar('ы')));
    apply_command(&mut sections, &mut c, EditorCommand::PutChar('ы'));
    assert_eq!(text(&sections[0]), "фaыb");
    assert_eq!(c, Cursor { line: 0, col: 3, ind: Some(5) });
}

#[test]
fn known_position_inside_a_character_cannot_be_typed_at() {
    let line = chars("йa");
    assert!(!can_put_char(&line, &Cursor { line: 0, col: 0, ind: Some(1) }, 'x'));
    assert!(can_put_char(&line, &Cursor { line: 0, col: 0, ind: Some(2) }, 'x'));
    assert!(!can_put_char(&line, &Cursor { line: 0, col: 0, ind: Some(4) }, 'x'));
    assert!(!can_put_char(&line, &Cursor { line: 0, col: usize::MAX, ind: Some(2) }, 'x'));
}

#[test]
fn known_position_is_used_as_it_is() {
    let mut line = chars("йa");
    let mut c = Cursor { line: 0, col: 7, ind: Some(2) };
    put_char(&mut line, &mut c, 'x');
    assert_eq!(text(&line), "йxa");
    assert_eq!(c, Cursor { line: 0, col: 8, ind: Some(3) });
}

#[test]
fn add_line_opens_a_section_below() {
    let mut sections = vec![chars("hello")];
    let mut c = Cursor { line: 0, col: 3, ind: Some(3) };
    apply_command(&mut sections, &mut c, EditorCommand::AddLine);
    assert_eq!(sections.len(), 2);
    assert_eq!(text(&sections[0]), "hello\n");
    assert_eq!(text(&sections[1]), "new text section!");
    assert_eq!(c, Cursor { line: 1, col: 3, ind: None });
}

#[test]
fn add_line_keeps_an_existing_line_break() {
    let mut sections = vec![chars("a\n"), chars("b")];
    let mut c = Cursor { line: 0, col: 0, ind: None };
    apply_command(&mut sections, &mut c, EditorCommand::AddLine);
    assert_eq!(sections.len(), 3);
    assert_eq!(text(&sections[0]), "a\n");
    assert_eq!(text(&sections[1]), "new text section!");
    assert_eq!(text(&sections[2]), "b");
}

#[test]
fn add_line_past_the_end_does_nothing() {
    let mut sections: Vec<Vec<char>> = Vec::new();
    let mut c = Cursor::default();
    apply_command(&mut sections, &mut c, EditorCommand::AddLine);
    assert!(sections.is_empty());
    assert_eq!(c, Cursor::default());
}

#[test]
fn remove_line_takes_out_the_cursor_line() {
    let mut sections = vec![chars("a"), chars("b"), chars("c")];
    let mut c = Cursor { line: 1, col: 1, ind: Some(1) };
    apply_command(&mut sections, &mut c, EditorCommand::RemoveLine);
    assert_eq!(sections, vec![chars("a"), chars("c")]);
    assert_eq!(c, Cursor { line: 0, col: 1, ind: None });
    apply_command(&mut sections, &mut c, EditorCommand::RemoveLine);
    assert_eq!(sections, vec![chars("c")]);
    assert_eq!(c, Cursor { line: 0, col: 1, ind: None });
}

#[test]
fn moves_saturate_and_forget_the_byte_position() {
    let mut sections = vec![chars("abc")];
    let mut c = Cursor { line: 0, col: 0, ind: Some(0) };
    apply_command(&mut sections, &mut c, EditorCommand::MoveCursorUp(1));
    assert_eq!(c, Cursor { line: 0, col: 0, ind: None });
    apply_command(&mut sections, &mut c, EditorCommand::MoveCursorLeft(3));
    assert_eq!(c, Cursor { line: 0, col: 0, ind: None });
    apply_command(&mut sections, &mut c, EditorCommand::MoveCursorRight(2));
    apply_command(&mut sections, &mut c, EditorCommand::MoveCursorDown(usize::MAX));
    apply_command(&mut sections, &mut c, EditorCommand::MoveCursorDown(5));
    assert_eq!(c, Cursor { line: usize::MAX, col: 2, ind: None });
}

#[test]
fn put_char_on_a_missing_line_does_nothing() {
    let mut sections = vec![chars("abc")];
    let mut c = Cursor { line: 3, col: 0, ind: None };
    assert!(can_apply(&sections, &c, EditorCommand::PutChar('x')));
    apply_command(&mut sections, &mut c, EditorCommand::PutChar('x'));
    assert_eq!(sections, vec![chars("abc")]);
    assert_eq!(c, Cursor { line: 3, col: 0, ind: None });
}

#[test]
fn commands_come_out_oldest_first() {
    let mut q = EditorCommands::new();
    assert!(!q.busy());
    q.push(EditorCommand::AddLine);
    q.push(EditorCommand::PutChar('a'));
    assert!(q.busy());
    assert_eq!(q.pop(), Some(EditorCommand::AddLine));
    assert_eq!(q.pop(), Some(EditorCommand::PutChar('a')));
    assert_eq!(q.pop(), None);
    assert!(!q.busy());
}

#[test]
fn process_runs_every_command_in_order() {
    let mut sections = vec![chars("Meet the hent editor!")];
    let mut c = Cursor::default();
    let mut q = EditorCommands::new();
    q.push(EditorCommand::PutChar('>'));
    q.push(EditorCommand::AddLine);
    q.push(EditorCommand::PutChar('x'));
    process(&mut sections, &mut q, &mut c);
    assert!(!q.busy());
    assert_eq!(text(&sections[0]), ">Meet the hent editor!\n");
    // The column is kept across the new line, so typing lands after its first character.
    assert_eq!(text(&sections[1]), "nxew text section!");
    assert_eq!(c, Cursor { line: 1, col: 2, ind: Some(2) });
}

#[test]
fn mode_titles() {
    assert_eq!(mode_title(EditorMode::Normal), "NORMAL MODE");
    assert_eq!(mode_title(EditorMode::Insert), "INSERT MODE");
}
