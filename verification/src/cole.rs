//! The first editor prototype: key states kept per scancode, a mode, and
//! commands sent for the text.
use std::collections::HashMap;
use vstd::prelude::*;

use crate::editor::Cursor;
use crate::editor::can_put_char;
use crate::editor::cursor_after_put;
use crate::editor::line_after_put;
use crate::editor::put_char;
use crate::editor::put_char_fits;
use crate::keyboard::ElementState;
use crate::keyboard::ValueMap;
use crate::keyboard::update_values;
use crate::keyboard::saturating_sum;
use crate::layout::Layout;
use crate::layout::dvorak_char;

verus! {

broadcast use vstd::std_specs::hash::group_hash_axioms;

/// What a key is doing, with how long it has done so (microseconds).
#[derive(Clone, Copy, Debug, PartialEq, Eq, Structural)]
pub enum KeyState {
    JustPressed,
    JustReleased,
    Pressed(u64),
    Released(u64),
}

/// The state of every key seen so far, by scancode.
#[derive(Debug)]
pub struct KeyPresses(HashMap<u32, KeyState>);

/// Whether keys move the cursor (normal) or type (insert).
#[derive(Clone, Copy, Debug, PartialEq, Eq, Structural)]
pub enum Mode {
    Normal,
    Insert,
}

/// What the text is asked to do.
#[derive(Clone, Debug, PartialEq, Eq)]
pub enum Command {
    PutChar(char),
    PutString(String),
    RemoveBefore,
    RemoveAfter,
    RemoveLine,
    MoveCursorH(i16),
    MoveCursorV(i16),
}

/// What a key event does to the scroll speed: nothing, less by the maximum,
/// more by the maximum, or back to rest.
#[derive(Clone, Copy, Debug, PartialEq, Eq, Structural)]
pub enum ScrollChange {
    Unchanged,
    Down,
    Up,
    Reset,
}

/// A key event as this prototype reads it.
#[derive(Clone, Copy, Debug, PartialEq, Eq, Structural)]
pub struct KeyEvent {
    pub scan_code: u32,
    /// Whether the key's code is backspace.
    pub backspace: bool,
    pub state: ElementState,
}

/// A key state after `dt` microseconds: a fresh press or release becomes a
/// held or released key with no time yet, and held or released keys age.
pub open spec fn aged(s: KeyState, dt: u64) -> KeyState {
    match s {
        KeyState::Released(t) => KeyState::Released(saturating_sum(t, dt)),
        KeyState::Pressed(t) => KeyState::Pressed(saturating_sum(t, dt)),
        KeyState::JustReleased => KeyState::Released(0),
        KeyState::JustPressed => KeyState::Pressed(0),
    }
}

/// The key states after an event for key `sc`.
pub open spec fn states_after(m: Map<u32, KeyState>, ev: KeyEvent) -> Map<u32, KeyState> {
    let sc = ev.scan_code;
    match ev.state {
        ElementState::Pressed => if m.contains_key(sc) {
            match m[sc] {
                KeyState::Released(_) => m.insert(sc, KeyState::JustPressed),
                _ => m,
            }
        } else {
            m.insert(sc, KeyState::JustPressed)
        },
        ElementState::Released => m.insert(sc, KeyState::JustReleased),
    }
}

/// Whether the prototype takes in `ev` without panicking: a released key
/// must have been seen, and the cursor must not run past `usize::MAX`.
pub open spec fn event_fits(m: Map<u32, KeyState>, mode: Mode, c: Cursor, ev: KeyEvent) -> bool {
    &&& ev.state == ElementState::Released ==> m.contains_key(ev.scan_code)
    &&& (mode == Mode::Normal && ev.scan_code == 36) ==> c.line < usize::MAX
    &&& (mode == Mode::Normal && ev.scan_code == 37) ==> c.col < usize::MAX
}

/// The mode after a key event.
pub open spec fn mode_after_event(mode: Mode, ev: KeyEvent) -> Mode {
    match mode {
        Mode::Normal => if ev.scan_code == 34 {
            Mode::Insert
        } else {
            Mode::Normal
        },
        Mode::Insert => if ev.scan_code == 1 || ev.scan_code == 58 {
            Mode::Normal
        } else {
            Mode::Insert
        },
    }
}

/// The cursor after a key event.
pub open spec fn cursor_after_event(mode: Mode, c: Cursor, ev: KeyEvent) -> Cursor {
    if mode == Mode::Normal && ev.scan_code == 36 {
        Cursor { line: (c.line + 1) as usize, ind: None, ..c }
    } else if mode == Mode::Normal && ev.scan_code == 37 {
        Cursor { col: (c.col + 1) as usize, ind: None, ..c }
    } else {
        c
    }
}

/// The command a key event sends, if any.
pub open spec fn command_of_event(mode: Mode, ev: KeyEvent) -> Option<Command> {
    match mode {
        Mode::Normal => if ev.scan_code == 35 {
            Some(Command::RemoveLine)
        } else {
            None
        },
        Mode::Insert => if ev.scan_code == 1 || ev.scan_code == 58 {
            None
        } else if ev.backspace {
            Some(Command::RemoveLine)
        } else {
            Some(Command::PutChar(dvorak_char(ev.scan_code)))
        },
    }
}

/// What a key event does to the scroll speed.
pub open spec fn scroll_of_event(mode: Mode, ev: KeyEvent) -> ScrollChange {
    if mode == Mode::Insert {
        ScrollChange::Unchanged
    } else if ev.scan_code == 50 {
        ScrollChange::Down
    } else if ev.scan_code == 51 {
        ScrollChange::Up
    } else if 34 <= ev.scan_code <= 37 {
        ScrollChange::Unchanged
    } else {
        ScrollChange::Reset
    }
}

/// The Dvorak character of the key with scancode `sc` (`'\0'` for keys that
/// type nothing).
pub fn scdv(sc: u32) -> (c: char)
    ensures
        c == dvorak_char(sc),
{
    Layout::Dvorak.scch(sc)
}

/// Ages key states by `dt` microseconds.
struct AgeKeyState {
    dt: u64,
}

impl ValueMap<KeyState> for AgeKeyState {
    closed spec fn apply(&self, v: KeyState) -> KeyState {
        aged(v, self.dt)
    }

    fn call(&self, v: KeyState) -> (r: KeyState) {
        match v {
            KeyState::Released(t) => KeyState::Released(t.saturating_add(self.dt)),
            KeyState::Pressed(t) => KeyState::Pressed(t.saturating_add(self.dt)),
            KeyState::JustReleased => KeyState::Released(0),
            KeyState::JustPressed => KeyState::Pressed(0),
        }
    }
}

impl KeyPresses {
    /// The key states, by scancode.
    pub closed spec fn states(&self) -> Map<u32, KeyState> {
        self.0@
    }

    /// No key seen yet.
    pub fn new() -> (k: Self)
        ensures
            k.states() == Map::<u32, KeyState>::empty(),
    {
        KeyPresses(HashMap::new())
    }

    /// The state of the key with scancode `sc`, if it was seen.
    pub fn state(&self, sc: u32) -> (r: Option<KeyState>)
        ensures
            r == self.states().index_opt(sc),
    {
        match self.0.get(&sc) {
            Some(s) => Some(*s),
            None => None,
        }
    }

    /// Lets `dt` microseconds pass for every key.
    pub fn tick(&mut self, dt: u64)
        ensures
            final(self).states() == old(self).states().map_values(|s: KeyState| aged(s, dt)),
    {
        update_values(&mut self.0, &AgeKeyState { dt });
        assert(self.0@ =~= old(self).0@.map_values(|s: KeyState| aged(s, dt)));
    }

    /// Whether `input_event` can take in `ev` without panicking.
    pub fn event_fits(&self, mode: Mode, cursor: &Cursor, ev: &KeyEvent) -> (b: bool)
        ensures
            b == event_fits(self.states(), mode, *cursor, *ev),
    {
        (ev.state == ElementState::Pressed || self.0.contains_key(&ev.scan_code)) && (
        mode == Mode::Insert || (ev.scan_code != 36 || cursor.line < usize::MAX) && (ev.scan_code
            != 37 || cursor.col < usize::MAX))
    }

    /// Takes in one key event: updates the key's state, then, by mode,
    /// changes mode, moves the cursor, picks a command to send and says
    /// what happens to the scroll speed.
    pub fn input_event(&mut self, mode: &mut Mode, cursor: &mut Cursor, ev: &KeyEvent) -> (r: (
        Option<Command>,
        ScrollChange,
    ))
        requires
            event_fits(old(self).states(), *old(mode), *old(cursor), *ev),
        ensures
            final(self).states() == states_after(old(self).states(), *ev),
            *final(mode) == mode_after_event(*old(mode), *ev),
            *final(cursor) == cursor_after_event(*old(mode), *old(cursor), *ev),
            r.0 == command_of_event(*old(mode), *ev),
            r.1 == scroll_of_event(*old(mode), *ev),
    {
        let sc = ev.scan_code;
        if ev.state == ElementState::Pressed {
            match self.0.get(&sc) {
                Some(ks) => {
                    if let KeyState::Released(_) = ks {
                        self.0.insert(sc, KeyState::JustPressed);
                    }
                },
                None => {
                    self.0.insert(sc, KeyState::JustPressed);
                },
            }
        } else {
            self.0.insert(sc, KeyState::JustReleased);
        }
        let mut command: Option<Command> = None;
        let mut scroll = ScrollChange::Unchanged;
        match *mode {
            Mode::Normal => {
                if sc == 34 {
                    *mode = Mode::Insert;
                } else if sc == 35 {
                    command = Some(Command::RemoveLine);
                    scroll = ScrollChange::Unchanged;
                } else if sc == 36 {
                    cursor.line = cursor.line + 1;
                    cursor.ind = None;
                } else if sc == 37 {
                    cursor.col = cursor.col + 1;
                    cursor.ind = None;
                } else if sc == 50 {
                    scroll = ScrollChange::Down;
                } else if sc == 51 {
                    scroll = ScrollChange::Up;
                } else {
                    scroll = ScrollChange::Reset;
                }
            },
            Mode::Insert => {
                if sc == 1 || sc == 58 {
                    *mode = Mode::Normal;
                } else if ev.backspace {
                    command = Some(Command::RemoveLine);
                } else {
                    command = Some(Command::PutChar(scdv(sc)));
                }
            },
        }
        (command, scroll)
    }
}

/// Whether `process_command` can carry out `cmd` on `text` at `c`.
pub open spec fn command_fits(text: Seq<char>, c: Cursor, cmd: Command) -> bool {
    match cmd {
        Command::PutChar(ch) => put_char_fits(text, c, ch),
        _ => true,
    }
}

/// The text after `cmd`: a removed line clears it, a typed character goes in
/// at the cursor, other commands leave it.
pub open spec fn text_after(text: Seq<char>, c: Cursor, cmd: Command) -> Seq<char> {
    match cmd {
        Command::RemoveLine => Seq::empty(),
        Command::PutChar(ch) => line_after_put(text, c, ch),
        _ => text,
    }
}

/// The cursor after `cmd`.
pub open spec fn cursor_after_command(text: Seq<char>, c: Cursor, cmd: Command) -> Cursor {
    match cmd {
        Command::RemoveLine => Cursor { col: 0, ind: None, ..c },
        Command::PutChar(ch) => cursor_after_put(text, c, ch),
        _ => c,
    }
}

/// Carries out one command on the text and the cursor.
pub fn process_command(text: &mut Vec<char>, cursor: &mut Cursor, cmd: &Command)
    requires
        command_fits(old(text)@, *old(cursor), *cmd),
    ensures
        final(text)@ == text_after(old(text)@, *old(cursor), *cmd),
        *final(cursor) == cursor_after_command(old(text)@, *old(cursor), *cmd),
{
    match cmd {
        Command::RemoveLine => {
            text.clear();
            cursor.col = 0;
            cursor.ind = None;
        },
        Command::PutChar(ch) => {
            put_char(text, cursor, *ch);
        },
        _ => {},
    }
}

/// The heading shown for `mode`.
pub fn mode_title(mode: Mode) -> (s: &'static str)
    ensures
        mode == Mode::Normal ==> s@ == "NORMAL MODE"@,
        mode == Mode::Insert ==> s@ == "INSERT MODE"@,
{
    match mode {
        Mode::Normal => "NORMAL MODE",
        Mode::Insert => "INSERT MODE",
    }
}

/// Whether `process_command` can carry out `cmd` (where it cannot, the
/// command would panic).
pub fn can_process(text: &Vec<char>, cursor: &Cursor, cmd: &Command) -> (b: bool)
    ensures
        b == command_fits(text@, *cursor, *cmd),
{
    match cmd {
        Command::PutChar(ch) => can_put_char(text, cursor, *ch),
        _ => true,
    }
}

/// After time passes, no key is just pressed or just released any more, and
/// every key seen stays seen.
pub proof fn lemma_tick_settles(m: Map<u32, KeyState>, dt: u64, sc: u32)
    requires
        m.contains_key(sc),
    ensures
        m.map_values(|s: KeyState| aged(s, dt)).contains_key(sc),
        m.map_values(|s: KeyState| aged(s, dt))[sc] != KeyState::JustPressed,
        m.map_values(|s: KeyState| aged(s, dt))[sc] != KeyState::JustReleased,
{
}

/// A press of a released key starts it over as just pressed; a press of a
/// key that is already down changes nothing.
pub proof fn lemma_press_of_released_and_held(m: Map<u32, KeyState>, sc: u32, backspace: bool)
    requires
        m.contains_key(sc),
    ensures
        ({
            let ev = KeyEvent { scan_code: sc, backspace, state: ElementState::Pressed };
            &&& (m[sc] is Released ==> states_after(m, ev)[sc] == KeyState::JustPressed)
            &&& (m[sc] is Pressed || m[sc] is JustPressed || m[sc] is JustReleased ==> states_after(m, ev) == m)
        }),
{
}

/// In insert mode, escape (1) and caps lock (58) go back to normal mode and
/// send nothing; any other key stays in insert mode and sends a line removal
/// for backspace or else the key's Dvorak character. Insert mode never
/// touches the scroll speed or the cursor.
pub proof fn lemma_insert_mode_events(c: Cursor, ev: KeyEvent)
    ensures
        (ev.scan_code == 1 || ev.scan_code == 58) ==> {
            &&& mode_after_event(Mode::Insert, ev) == Mode::Normal
            &&& command_of_event(Mode::Insert, ev) is None
        },
        !(ev.scan_code == 1 || ev.scan_code == 58) ==> {
            &&& mode_after_event(Mode::Insert, ev) == Mode::Insert
            &&& ev.backspace ==> command_of_event(Mode::Insert, ev) == Some(Command::RemoveLine)
            &&& !ev.backspace ==> command_of_event(Mode::Insert, ev) == Some(
                Command::PutChar(dvorak_char(ev.scan_code)),
            )
        },
        scroll_of_event(Mode::Insert, ev) == ScrollChange::Unchanged,
        cursor_after_event(Mode::Insert, c, ev) == c,
{
}

/// In normal mode: 34 enters insert mode; 35 sends a line removal; 36 moves
/// the cursor one line down and 37 one column right, forgetting its byte
/// position; 50 and 51 scroll down and up; any other key stops the
/// scrolling. Only 34 changes the mode and only 35 sends a command.
pub proof fn lemma_normal_mode_events(c: Cursor, ev: KeyEvent)
    requires
        c.line < usize::MAX,
        c.col < usize::MAX,
    ensures
        (mode_after_event(Mode::Normal, ev) == Mode::Insert) <==> ev.scan_code == 34,
        ev.scan_code == 35 ==> command_of_event(Mode::Normal, ev) == Some(Command::RemoveLine),
        ev.scan_code != 35 ==> command_of_event(Mode::Normal, ev) is None,
        ev.scan_code == 36 ==> cursor_after_event(Mode::Normal, c, ev) == (Cursor {
            line: (c.line + 1) as usize,
            col: c.col,
            ind: None,
        }),
        ev.scan_code == 37 ==> cursor_after_event(Mode::Normal, c, ev) == (Cursor {
            line: c.line,
            col: (c.col + 1) as usize,
            ind: None,
        }),
        ev.scan_code != 36 && ev.scan_code != 37 ==> cursor_after_event(Mode::Normal, c, ev) == c,
        ev.scan_code == 50 ==> scroll_of_event(Mode::Normal, ev) == ScrollChange::Down,
        ev.scan_code == 51 ==> scroll_of_event(Mode::Normal, ev) == ScrollChange::Up,
        (34 <= ev.scan_code <= 37) ==> scroll_of_event(Mode::Normal, ev) == ScrollChange::Unchanged,
        !(34 <= ev.scan_code <= 37 || ev.scan_code == 50 || ev.scan_code == 51) ==> scroll_of_event(
            Mode::Normal,
            ev,
        ) == ScrollChange::Reset,
{
}

/// A press of a key never seen or released makes it just pressed; a press of
/// a key already down changes nothing; a release makes it just released. No
/// other key's state changes.
pub proof fn lemma_key_state_events(m: Map<u32, KeyState>, ev: KeyEvent, k: u32)
    ensures
        ev.state == ElementState::Pressed && (!m.contains_key(ev.scan_code) || m[ev.scan_code] is Released)
            ==> states_after(m, ev)[ev.scan_code] == KeyState::JustPressed,
        ev.state == ElementState::Pressed && m.contains_key(ev.scan_code) && !(m[ev.scan_code] is Released)
            ==> states_after(m, ev) == m,
        ev.state == ElementState::Released ==> states_after(m, ev)[ev.scan_code]
            == KeyState::JustReleased,
        states_after(m, ev).contains_key(ev.scan_code),
        k != ev.scan_code ==> states_after(m, ev).contains_key(k) == m.contains_key(k),
        k != ev.scan_code && m.contains_key(k) ==> states_after(m, ev)[k] == m[k],
{
}

/// Time passing: a fresh press or release settles into a held or released
/// key of no age, and held or released keys age by `dt` (stopping at
/// `u64::MAX`).
pub proof fn lemma_aging(t: u64, dt: u64)
    ensures
        aged(KeyState::JustPressed, dt) == KeyState::Pressed(0),
        aged(KeyState::JustReleased, dt) == KeyState::Released(0),
        t + dt <= u64::MAX ==> aged(KeyState::Pressed(t), dt) == KeyState::Pressed((t + dt) as u64),
        t + dt <= u64::MAX ==> aged(KeyState::Released(t), dt) == KeyState::Released((t + dt) as u64),
        t + dt > u64::MAX ==> aged(KeyState::Pressed(t), dt) == KeyState::Pressed(u64::MAX),
        t + dt > u64::MAX ==> aged(KeyState::Released(t), dt) == KeyState::Released(u64::MAX),
{
}

/// A cleared text is empty with the cursor at its first column; other
/// commands than typing and clearing leave text and cursor as they are.
pub proof fn lemma_clear_and_ignored_commands(text: Seq<char>, c: Cursor, cmd: Command)
    ensures
        text_after(text, c, Command::RemoveLine).len() == 0,
        cursor_after_command(text, c, Command::RemoveLine) == (Cursor { line: c.line, col: 0, ind: None }),
        !(cmd is RemoveLine || cmd is PutChar) ==> text_after(text, c, cmd) == text
            && cursor_after_command(text, c, cmd) == c,
{
}

} // verus!
