//! The editor: its modes, its command queue, its cursor, and how commands
//! change the text.
use std::collections::VecDeque;
use vstd::prelude::*;

use crate::text::byte_len;
use crate::text::char_index_at_byte;
use crate::text::char_width;
use crate::text::find_char_index;
use crate::text::lemma_byte_len_take_step;
use crate::text::utf8_width;

verus! {

/// Whether keys move around (normal) or type (insert).
#[derive(Clone, Copy, Debug, PartialEq, Eq, Structural)]
pub enum EditorMode {
    Normal,
    Insert,
}

/// What the editor is asked to do to its text and cursor.
#[derive(Clone, Copy, Debug, PartialEq, Eq, Structural)]
pub enum EditorCommand {
    MoveCursorUp(usize),
    MoveCursorDown(usize),
    MoveCursorLeft(usize),
    MoveCursorRight(usize),
    AddLine,
    RemoveLine,
    PutChar(char),
}

/// Which way the view is being scrolled.
#[derive(Clone, Copy, Debug, PartialEq, Eq, Structural)]
pub enum ScrollState {
    Idle,
    ScrollingUp,
    ScrollingDown,
}

/// Where typing goes: a line (section), a column (in characters) and, once
/// known, the byte position in the line where the next character goes.
#[derive(Clone, Copy, Debug, PartialEq, Eq, Structural)]
pub struct Cursor {
    pub line: usize,
    pub col: usize,
    pub ind: Option<usize>,
}

impl Default for Cursor {
    fn default() -> (c: Cursor)
        ensures
            c == (Cursor { line: 0, col: 0, ind: None }),
    {
        Cursor { line: 0, col: 0, ind: None }
    }
}

/// `a + b`, or `usize::MAX` where that does not fit.
pub open spec fn saturating_add(a: usize, b: usize) -> usize {
    if a + b > usize::MAX {
        usize::MAX
    } else {
        (a + b) as usize
    }
}

/// `a - b`, or 0 where that would be negative.
pub open spec fn saturating_sub(a: usize, b: usize) -> usize {
    if a < b {
        0
    } else {
        (a - b) as usize
    }
}

impl Cursor {
    /// Down `p` lines; the byte position is worked out again on next use.
    pub fn move_down(&mut self, p: usize)
        ensures
            *final(self) == (Cursor {
                line: saturating_add(old(self).line, p),
                col: old(self).col,
                ind: None,
            }),
    {
        self.line = self.line.saturating_add(p);
        self.ind = None;
    }

    /// Up `p` lines, stopping at the first; the byte position is worked out
    /// again on next use.
    pub fn move_up(&mut self, p: usize)
        ensures
            *final(self) == (Cursor {
                line: saturating_sub(old(self).line, p),
                col: old(self).col,
                ind: None,
            }),
    {
        self.line = self.line.saturating_sub(p);
        self.ind = None;
    }

    /// Right `p` columns; the byte position is worked out again on next use.
    pub fn move_right(&mut self, p: usize)
        ensures
            *final(self) == (Cursor {
                line: old(self).line,
                col: saturating_add(old(self).col, p),
                ind: None,
            }),
    {
        self.col = self.col.saturating_add(p);
        self.ind = None;
    }

    /// Left `p` columns, stopping at the first; the byte position is worked
    /// out again on next use.
    pub fn move_left(&mut self, p: usize)
        ensures
            *final(self) == (Cursor {
                line: old(self).line,
                col: saturating_sub(old(self).col, p),
                ind: None,
            }),
    {
        self.col = self.col.saturating_sub(p);
        self.ind = None;
    }
}

/// Commands waiting to be carried out, oldest first.
pub struct EditorCommands {
    queue: VecDeque<EditorCommand>,
}

impl View for EditorCommands {
    type V = Seq<EditorCommand>;

    closed spec fn view(&self) -> Seq<EditorCommand> {
        self.queue@
    }
}

impl EditorCommands {
    /// No command waiting.
    pub fn new() -> (c: Self)
        ensures
            c@ == Seq::<EditorCommand>::empty(),
    {
        EditorCommands { queue: VecDeque::new() }
    }

    /// Queues `c` after the commands already waiting.
    pub fn push(&mut self, c: EditorCommand)
        ensures
            final(self)@ == old(self)@.push(c),
    {
        self.queue.push_back(c);
    }

    /// Whether a command is waiting.
    pub fn busy(&self) -> (b: bool)
        ensures
            b == (self@.len() > 0),
    {
        self.queue.len() > 0
    }

    /// Takes out the oldest waiting command.
    pub fn pop(&mut self) -> (c: Option<EditorCommand>)
        ensures
            old(self)@.len() == 0 ==> c is None && final(self)@ == old(self)@,
            old(self)@.len() > 0 ==> c == Some(old(self)@[0]) && final(self)@ == old(self)@.drop_first(),
    {
        self.queue.pop_front()
    }
}

/// The column and byte position at which `put_char` types into `line`:
/// the cursor's own, or, where its byte position is not known yet, the
/// column clamped to the line's length and the byte where that column's
/// character starts (the end of the line past its last character).
pub open spec fn typing_position(line: Seq<char>, c: Cursor) -> (int, int) {
    match c.ind {
        Some(b) => (c.col as int, b as int),
        None => {
            let k = if c.col < line.len() { c.col as int } else { line.len() as int };
            (k, byte_len(line.take(k)) as int)
        },
    }
}

/// The character index at which `put_char` inserts: the one that starts at
/// the cursor's known byte position, or else the clamped column.
pub open spec fn typing_index(line: Seq<char>, c: Cursor) -> int {
    let (col, b) = typing_position(line, c);
    match c.ind {
        Some(_) => char_index_at_byte(line, b).unwrap() as int,
        None => col,
    }
}

/// Whether `put_char` can type `ch` into `line` at `c`: a known byte
/// position must be the start of a character (or the end of the line) with
/// a column below `usize::MAX`, and the text must stay within `usize` bytes.
/// Where the byte position is not known, only that last limit applies.
pub open spec fn put_char_fits(line: Seq<char>, c: Cursor, ch: char) -> bool {
    &&& c.ind matches Some(b) ==> char_index_at_byte(line, b as int) is Some && c.col < usize::MAX
    &&& byte_len(line) + char_width(ch) <= usize::MAX
}

/// The line after typing `ch` at `c`.
pub open spec fn line_after_put(line: Seq<char>, c: Cursor, ch: char) -> Seq<char> {
    line.insert(typing_index(line, c), ch)
}

/// The cursor after typing `ch` at `c`: one column on, its byte position
/// just past the new character.
pub open spec fn cursor_after_put(line: Seq<char>, c: Cursor, ch: char) -> Cursor {
    let (col, b) = typing_position(line, c);
    Cursor { line: c.line, col: (col + 1) as usize, ind: Some((b + char_width(ch)) as usize) }
}

/// Types `ch` into `line` at the cursor.
pub fn put_char(line: &mut Vec<char>, cursor: &mut Cursor, ch: char)
    requires
        put_char_fits(old(line)@, *old(cursor), ch),
    ensures
        final(line)@ == line_after_put(old(line)@, *old(cursor), ch),
        *final(cursor) == cursor_after_put(old(line)@, *old(cursor), ch),
{
    let j: usize;
    if cursor.ind.is_none() {
        let mut n: usize = 0;
        let mut off: usize = 0;
        while n < line.len()
            invariant_except_break
                0 <= n <= line.len(),
                off == byte_len(line@.take(n as int)),
                n <= cursor.col,
                byte_len(line@) <= usize::MAX,
            ensures
                n == (if cursor.col < line.len() { cursor.col as int } else { line.len() as int }),
                off == byte_len(line@.take(n as int)),
            decreases line.len() - n,
        {
            if n == cursor.col {
                break;
            }
            proof {
                lemma_byte_len_take_step(line@, n as int);
                crate::text::lemma_byte_len_take_le(line@, (n + 1) as int);
            }
            off = off + utf8_width(line[n]);
            n = n + 1;
        }
        proof {
            crate::text::lemma_len_le_byte_len(line@);
        }
        cursor.col = n;
        cursor.ind = Some(off);
        j = n;
        proof {
            crate::text::lemma_byte_len_take_le(line@, j as int);
        }
    } else {
        let b = cursor.ind.unwrap();
        j = find_char_index(line, b).unwrap();
        proof {
            crate::text::lemma_char_index_at_byte_bound(line@, b as int);
            crate::text::lemma_char_index_at_byte(line@, b as int, j as int);
            crate::text::lemma_byte_len_take_le(line@, j as int);
        }
    }
    let b = cursor.ind.unwrap();
    line.insert(j, ch);
    cursor.ind = Some(b + utf8_width(ch));
    cursor.col = cursor.col + 1;
}

/// The text of the lines, line by line.
pub open spec fn lines_view(sections: Seq<Vec<char>>) -> Seq<Seq<char>> {
    sections.map_values(|l: Vec<char>| l@)
}

/// The text of a line that `AddLine` opens.
pub open spec fn new_section_chars() -> Seq<char> {
    seq!['n', 'e', 'w', ' ', 't', 'e', 'x', 't', ' ', 's', 'e', 'c', 't', 'i', 'o', 'n', '!']
}

/// `line`, ending in a line break.
pub open spec fn with_line_break(line: Seq<char>) -> Seq<char> {
    if line.len() > 0 && line.last() == '\n' {
        line
    } else {
        line.push('\n')
    }
}

/// Whether `cmd` can be carried out on `lines` at `c` (only typing can fail).
pub open spec fn command_fits(lines: Seq<Seq<char>>, c: Cursor, cmd: EditorCommand) -> bool {
    match cmd {
        EditorCommand::PutChar(ch) => c.line < lines.len() ==> put_char_fits(lines[c.line as int], c, ch),
        _ => true,
    }
}

/// The lines after carrying out `cmd` at `c`.
pub open spec fn lines_after(lines: Seq<Seq<char>>, c: Cursor, cmd: EditorCommand) -> Seq<Seq<char>> {
    if c.line < lines.len() {
        let i = c.line as int;
        match cmd {
            EditorCommand::AddLine => lines.update(i, with_line_break(lines[i])).insert(
                i + 1,
                new_section_chars(),
            ),
            EditorCommand::RemoveLine => lines.remove(i),
            EditorCommand::PutChar(ch) => lines.update(i, line_after_put(lines[i], c, ch)),
            _ => lines,
        }
    } else {
        lines
    }
}

/// The cursor after carrying out `cmd` at `c`.
pub open spec fn cursor_after(lines: Seq<Seq<char>>, c: Cursor, cmd: EditorCommand) -> Cursor {
    match cmd {
        EditorCommand::MoveCursorDown(p) => Cursor { line: saturating_add(c.line, p), ind: None, ..c },
        EditorCommand::MoveCursorUp(p) => Cursor { line: saturating_sub(c.line, p), ind: None, ..c },
        EditorCommand::MoveCursorRight(p) => Cursor { col: saturating_add(c.col, p), ind: None, ..c },
        EditorCommand::MoveCursorLeft(p) => Cursor { col: saturating_sub(c.col, p), ind: None, ..c },
        EditorCommand::AddLine => if c.line < lines.len() {
            Cursor { line: (c.line + 1) as usize, ind: None, ..c }
        } else {
            c
        },
        EditorCommand::RemoveLine => if c.line < lines.len() {
            Cursor { line: saturating_sub(c.line, 1), ind: None, ..c }
        } else {
            c
        },
        EditorCommand::PutChar(ch) => if c.line < lines.len() {
            cursor_after_put(lines[c.line as int], c, ch)
        } else {
            c
        },
    }
}

/// Whether every command of `cmds` can be carried out in turn.
pub open spec fn commands_fit(lines: Seq<Seq<char>>, c: Cursor, cmds: Seq<EditorCommand>) -> bool
    decreases cmds.len(),
{
    if cmds.len() == 0 {
        true
    } else {
        command_fits(lines, c, cmds[0]) && commands_fit(
            lines_after(lines, c, cmds[0]),
            cursor_after(lines, c, cmds[0]),
            cmds.drop_first(),
        )
    }
}

/// The lines and cursor after carrying out every command of `cmds` in turn.
pub open spec fn run_commands(lines: Seq<Seq<char>>, c: Cursor, cmds: Seq<EditorCommand>) -> (
    Seq<Seq<char>>,
    Cursor,
)
    decreases cmds.len(),
{
    if cmds.len() == 0 {
        (lines, c)
    } else {
        run_commands(
            lines_after(lines, c, cmds[0]),
            cursor_after(lines, c, cmds[0]),
            cmds.drop_first(),
        )
    }
}

fn new_section_text() -> (v: Vec<char>)
    ensures
        v@ == new_section_chars(),
{
    let v = vec!['n', 'e', 'w', ' ', 't', 'e', 'x', 't', ' ', 's', 'e', 'c', 't', 'i', 'o', 'n', '!'];
    assert(v@ =~= new_section_chars());
    v
}

/// Carries out one command on the lines of text and the cursor.
pub fn apply_command(sections: &mut Vec<Vec<char>>, cursor: &mut Cursor, cmd: EditorCommand)
    requires
        command_fits(lines_view(old(sections)@), *old(cursor), cmd),
    ensures
        lines_view(final(sections)@) == lines_after(lines_view(old(sections)@), *old(cursor), cmd),
        *final(cursor) == cursor_after(lines_view(old(sections)@), *old(cursor), cmd),
{
    let ghost lines0 = lines_view(sections@);
    match cmd {
        EditorCommand::MoveCursorDown(p) => cursor.move_down(p),
        EditorCommand::MoveCursorUp(p) => cursor.move_up(p),
        EditorCommand::MoveCursorRight(p) => cursor.move_right(p),
        EditorCommand::MoveCursorLeft(p) => cursor.move_left(p),
        EditorCommand::AddLine => {
            if cursor.line < sections.len() {
                let i = cursor.line;
                cursor.line = cursor.line + 1;
                cursor.ind = None;
                let mut ts = sections.remove(i);
                if ts.len() == 0 || ts[ts.len() - 1] != '\n' {
                    ts.push('\n');
                }
                sections.insert(i, ts);
                sections.insert(cursor.line, new_section_text());
                assert(lines_view(sections@) =~= lines_after(lines0, *old(cursor), cmd));
            }
        },
        EditorCommand::RemoveLine => {
            if cursor.line < sections.len() {
                sections.remove(cursor.line);
                cursor.line = cursor.line.saturating_sub(1);
                cursor.ind = None;
                assert(lines_view(sections@) =~= lines_after(lines0, *old(cursor), cmd));
            }
        },
        EditorCommand::PutChar(ch) => {
            if cursor.line < sections.len() {
                let i = cursor.line;
                let mut ts = sections.remove(i);
                put_char(&mut ts, cursor, ch);
                sections.insert(i, ts);
                assert(lines_view(sections@) =~= lines_after(lines0, *old(cursor), cmd));
            }
        },
    }
}

/// Carries out every waiting command, oldest first, and empties the queue.
pub fn process(sections: &mut Vec<Vec<char>>, commands: &mut EditorCommands, cursor: &mut Cursor)
    requires
        commands_fit(lines_view(old(sections)@), *old(cursor), old(commands)@),
    ensures
        (lines_view(final(sections)@), *final(cursor)) == run_commands(
            lines_view(old(sections)@),
            *old(cursor),
            old(commands)@,
        ),
        final(commands)@ == Seq::<EditorCommand>::empty(),
{
    let ghost goal = run_commands(lines_view(sections@), *cursor, commands@);
    while commands.busy()
        invariant
            commands_fit(lines_view(sections@), *cursor, commands@),
            run_commands(lines_view(sections@), *cursor, commands@) == goal,
        decreases commands@.len(),
    {
        let c = commands.pop().unwrap();
        apply_command(sections, cursor, c);
    }
}

/// The cursor's byte position, where known, is that of its column on its
/// line.
pub open spec fn cursor_consistent(lines: Seq<Seq<char>>, c: Cursor) -> bool {
    c.ind matches Some(b) ==> {
        &&& c.line < lines.len()
        &&& c.col <= lines[c.line as int].len()
        &&& b == byte_len(lines[c.line as int].take(c.col as int))
    }
}

/// Where typing is possible, it happens at the column that
/// `typing_position` gives, and that column's byte position is the one
/// typed at.
pub proof fn lemma_typing_at_column(line: Seq<char>, c: Cursor, ch: char)
    requires
        put_char_fits(line, c, ch),
        c.ind matches Some(b) ==> c.col <= line.len() && b == byte_len(line.take(c.col as int)),
    ensures
        ({
            let (col, b) = typing_position(line, c);
            &&& 0 <= col <= line.len()
            &&& char_index_at_byte(line, b) == Some(col as nat)
            &&& typing_index(line, c) == col
            &&& b == byte_len(line.take(col))
            &&& col < usize::MAX
        }),
{
    let (col, b) = typing_position(line, c);
    crate::text::lemma_char_index_at_byte(line, b, col);
    crate::text::lemma_len_le_byte_len(line);
}

/// Typing puts the character at the cursor's column (clamped to the line)
/// and moves the cursor just past it, keeping the cursor consistent.
pub proof fn lemma_put_char_at_column(line: Seq<char>, c: Cursor, ch: char)
    requires
        put_char_fits(line, c, ch),
        c.ind matches Some(b) ==> c.col <= line.len() && b == byte_len(line.take(c.col as int)),
    ensures
        ({
            let (col, b) = typing_position(line, c);
            let after = cursor_after_put(line, c, ch);
            &&& line_after_put(line, c, ch) == line.insert(col, ch)
            &&& line_after_put(line, c, ch).len() == line.len() + 1
            &&& after.col == col + 1
            &&& after.ind == Some(byte_len(line_after_put(line, c, ch).take(col + 1)) as usize)
            &&& byte_len(line_after_put(line, c, ch).take(col + 1)) == b + char_width(ch)
        }),
{
    lemma_typing_at_column(line, c, ch);
    let (col, b) = typing_position(line, c);
    let nl = line.insert(col, ch);
    assert(nl.take(col + 1).drop_last() =~= line.take(col));
}

/// Every command keeps the cursor consistent.
pub proof fn lemma_commands_keep_cursor_consistent(
    lines: Seq<Seq<char>>,
    c: Cursor,
    cmd: EditorCommand,
)
    requires
        cursor_consistent(lines, c),
        command_fits(lines, c, cmd),
    ensures
        cursor_consistent(lines_after(lines, c, cmd), cursor_after(lines, c, cmd)),
{
    if let EditorCommand::PutChar(ch) = cmd {
        if c.line < lines.len() {
            let line = lines[c.line as int];
            lemma_put_char_at_column(line, c, ch);
            lemma_typing_at_column(line, c, ch);
            let (col, b) = typing_position(line, c);
            crate::text::lemma_byte_len_take_le(line, col);
            assert(lines_after(lines, c, cmd)[c.line as int] == line_after_put(line, c, ch));
        }
    }
}

/// A new line goes in just below the cursor's line, which ends in a line
/// break; removing takes out exactly the cursor's line.
pub proof fn lemma_add_and_remove_line(lines: Seq<Seq<char>>, c: Cursor)
    requires
        c.line < lines.len() <= usize::MAX,
    ensures
        lines_after(lines, c, EditorCommand::AddLine).len() == lines.len() + 1,
        lines_after(lines, c, EditorCommand::AddLine)[c.line + 1] == new_section_chars(),
        lines_after(lines, c, EditorCommand::AddLine)[c.line as int].last() == '\n',
        cursor_after(lines, c, EditorCommand::AddLine).line == c.line + 1,
        lines_after(lines, c, EditorCommand::RemoveLine).len() == lines.len() - 1,
        lines_after(lines, c, EditorCommand::RemoveLine) == lines.remove(c.line as int),
{
}

/// Whether the encoding of `line` and `extra` more bytes fit in `usize`.
fn byte_len_within(line: &Vec<char>, extra: usize) -> (b: bool)
    ensures
        b == (byte_len(line@) + extra <= usize::MAX),
{
    let mut i: usize = 0;
    let mut total: usize = extra;
    while i < line.len()
        invariant
            0 <= i <= line.len(),
            total == extra + byte_len(line@.take(i as int)),
        decreases line.len() - i,
    {
        proof {
            lemma_byte_len_take_step(line@, i as int);
        }
        let w = utf8_width(line[i]);
        if total > usize::MAX - w {
            proof {
                crate::text::lemma_byte_len_take_le(line@, (i + 1) as int);
            }
            return false;
        }
        total = total + w;
        i += 1;
    }
    assert(line@.take(line.len() as int) =~= line@);
    true
}

/// Whether `put_char` can type `ch` into `line` at `cursor` (where it cannot,
/// typing there would panic).
pub fn can_put_char(line: &Vec<char>, cursor: &Cursor, ch: char) -> (b: bool)
    ensures
        b == put_char_fits(line@, *cursor, ch),
{
    if !byte_len_within(line, utf8_width(ch)) {
        return false;
    }
    match cursor.ind {
        Some(b) => cursor.col < usize::MAX && find_char_index(line, b).is_some(),
        None => true,
    }
}

/// Whether `apply_command` can carry out `cmd` (where it cannot, the command
/// would panic).
pub fn can_apply(sections: &Vec<Vec<char>>, cursor: &Cursor, cmd: EditorCommand) -> (b: bool)
    ensures
        b == command_fits(lines_view(sections@), *cursor, cmd),
{
    match cmd {
        EditorCommand::PutChar(ch) => {
            if cursor.line < sections.len() {
                can_put_char(&sections[cursor.line], cursor, ch)
            } else {
                true
            }
        },
        _ => true,
    }
}

/// The heading shown for `mode`.
pub fn mode_title(mode: EditorMode) -> (s: &'static str)
    ensures
        mode == EditorMode::Normal ==> s@ == "NORMAL MODE"@,
        mode == EditorMode::Insert ==> s@ == "INSERT MODE"@,
{
    match mode {
        EditorMode::Normal => "NORMAL MODE",
        EditorMode::Insert => "INSERT MODE",
    }
}

/// With its byte position not yet known, the cursor can always be typed at
/// (as long as the text stays within `usize` bytes): the character goes in
/// before character `k`, the column clamped to the line, and the cursor ends
/// up just past it, its byte position where the next character starts.
pub proof fn lemma_typing_at_unknown_position(line: Seq<char>, c: Cursor, ch: char)
    requires
        c.ind is None,
        byte_len(line) + char_width(ch) <= usize::MAX,
    ensures
        ({
            let k = if c.col < line.len() { c.col as int } else { line.len() as int };
            &&& put_char_fits(line, c, ch)
            &&& line_after_put(line, c, ch) == line.insert(k, ch)
            &&& cursor_after_put(line, c, ch) == (Cursor {
                line: c.line,
                col: (k + 1) as usize,
                ind: Some((byte_len(line.take(k)) + char_width(ch)) as usize),
            })
            &&& byte_len(line.take(k)) + char_width(ch) == byte_len(line.insert(k, ch).take(k + 1))
        }),
{
    lemma_put_char_at_column(line, c, ch);
}

/// Typing is always possible at a cursor whose byte position is that of its
/// column (the end of the line included), as long as the column can still
/// grow and the text stays within `usize` bytes.
pub proof fn lemma_typing_possible_at_consistent_cursor(line: Seq<char>, c: Cursor, ch: char)
    requires
        c.col <= line.len(),
        c.ind == Some(byte_len(line.take(c.col as int)) as usize),
        c.col < usize::MAX,
        byte_len(line) + char_width(ch) <= usize::MAX,
    ensures
        put_char_fits(line, c, ch),
        line_after_put(line, c, ch) == line.insert(c.col as int, ch),
{
    crate::text::lemma_byte_len_take_le(line, c.col as int);
    crate::text::lemma_char_index_at_byte(line, byte_len(line.take(c.col as int)) as int, c.col as int);
}

/// Cursor moves shift the line or column by the given amount, stopping at 0
/// and at `usize::MAX`, forget the byte position, and leave the text alone.
pub proof fn lemma_cursor_moves(lines: Seq<Seq<char>>, c: Cursor, p: usize)
    ensures
        cursor_after(lines, c, EditorCommand::MoveCursorDown(p)) == (Cursor {
            line: if c.line + p <= usize::MAX { (c.line + p) as usize } else { usize::MAX },
            col: c.col,
            ind: None,
        }),
        cursor_after(lines, c, EditorCommand::MoveCursorUp(p)) == (Cursor {
            line: if c.line >= p { (c.line - p) as usize } else { 0 },
            col: c.col,
            ind: None,
        }),
        cursor_after(lines, c, EditorCommand::MoveCursorRight(p)) == (Cursor {
            line: c.line,
            col: if c.col + p <= usize::MAX { (c.col + p) as usize } else { usize::MAX },
            ind: None,
        }),
        cursor_after(lines, c, EditorCommand::MoveCursorLeft(p)) == (Cursor {
            line: c.line,
            col: if c.col >= p { (c.col - p) as usize } else { 0 },
            ind: None,
        }),
        lines_after(lines, c, EditorCommand::MoveCursorDown(p)) == lines,
        lines_after(lines, c, EditorCommand::MoveCursorUp(p)) == lines,
        lines_after(lines, c, EditorCommand::MoveCursorRight(p)) == lines,
        lines_after(lines, c, EditorCommand::MoveCursorLeft(p)) == lines,
{
}

/// Removing a line moves the cursor to the line above (staying on the first
/// line), keeps its column and forgets its byte position; off the lines,
/// adding or removing a line changes nothing.
pub proof fn lemma_line_commands_cursor(lines: Seq<Seq<char>>, c: Cursor)
    ensures
        c.line < lines.len() ==> cursor_after(lines, c, EditorCommand::RemoveLine) == (Cursor {
            line: if c.line > 0 { (c.line - 1) as usize } else { 0 },
            col: c.col,
            ind: None,
        }),
        c.line < lines.len() <= usize::MAX ==> cursor_after(lines, c, EditorCommand::AddLine) == (Cursor {
            line: (c.line + 1) as usize,
            col: c.col,
            ind: None,
        }),
        c.line >= lines.len() ==> lines_after(lines, c, EditorCommand::RemoveLine) == lines
            && cursor_after(lines, c, EditorCommand::RemoveLine) == c,
        c.line >= lines.len() ==> lines_after(lines, c, EditorCommand::AddLine) == lines
            && cursor_after(lines, c, EditorCommand::AddLine) == c,
{
}

/// The text of a new line is `new text section!`.
pub proof fn lemma_new_section_text()
    ensures
        new_section_chars() == "new text section!"@,
{
    reveal_strlit("new text section!");
    assert(new_section_chars() =~= "new text section!"@);
}

/// Typing on a line changes only that line, and grows it by exactly the
/// typed character, at the character index that `typing_index` names, which
/// lies within the line.
pub proof fn lemma_typing_changes_only_its_line(lines: Seq<Seq<char>>, c: Cursor, ch: char)
    requires
        c.line < lines.len(),
        put_char_fits(lines[c.line as int], c, ch),
    ensures
        ({
            let line = lines[c.line as int];
            let after = lines_after(lines, c, EditorCommand::PutChar(ch));
            let j = typing_index(line, c);
            &&& after.len() == lines.len()
            &&& 0 <= j <= line.len()
            &&& after[c.line as int] == line.insert(j, ch)
            &&& forall|i: int| 0 <= i < lines.len() && i != c.line ==> after[i] == lines[i]
        }),
{
    let line = lines[c.line as int];
    let (col, b) = typing_position(line, c);
    match c.ind {
        Some(_) => {
            crate::text::lemma_char_index_at_byte_bound(line, b);
        },
        None => {},
    }
}

/// Adding a line ends the cursor's line with exactly one more line break
/// unless it already ends with one, puts the new line right below it, and
/// shifts the lines below down by one, unchanged.
pub proof fn lemma_add_line_shape(lines: Seq<Seq<char>>, c: Cursor)
    requires
        c.line < lines.len(),
    ensures
        ({
            let i = c.line as int;
            let after = lines_after(lines, c, EditorCommand::AddLine);
            &&& lines[i].len() > 0 && lines[i].last() == '\n' ==> after[i] == lines[i]
            &&& !(lines[i].len() > 0 && lines[i].last() == '\n') ==> after[i] == lines[i] + seq!['\n']
            &&& forall|j: int| 0 <= j < i ==> after[j] == lines[j]
            &&& forall|j: int| i + 1 < j < after.len() ==> after[j] == lines[j - 1]
        }),
{
    let i = c.line as int;
    assert(lines[i].push('\n') =~= lines[i] + seq!['\n']);
}

} // verus!
