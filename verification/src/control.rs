//! How the held and pressed keys steer the editor: its mode, its layout, its
//! scrolling and the commands it is given.
use std::collections::HashSet;
use vstd::prelude::*;

use crate::editor::Cursor;
use crate::editor::EditorCommand;
use crate::editor::EditorCommands;
use crate::editor::EditorMode;
use crate::editor::ScrollState;
use crate::editor::command_fits;
use crate::editor::cursor_consistent;
use crate::editor::lemma_put_char_at_column;
use crate::editor::run_commands;
use crate::editor::typing_position;
use crate::keyboard::KeyStrokes;
use crate::keyboard::double_pressed_keys;
use crate::keyboard::just_pressed_keys;
use crate::layout::Layout;
use crate::layout::layout_char;
use crate::layout::switched;

verus! {

broadcast use vstd::std_specs::hash::group_hash_axioms;

/// Scancode of the key that enters insert mode from normal mode.
pub const KEY_INSERT: u32 = 34;
/// Scancode of the key that moves the cursor down (up with space held).
pub const KEY_VERTICAL: u32 = 36;
/// Scancode of the key that moves the cursor right (left with space held).
pub const KEY_HORIZONTAL: u32 = 37;
/// Scancode of the key whose double press removes the line.
pub const KEY_REMOVE_LINE: u32 = 35;
/// Scancode of the key that scrolls down while held.
pub const KEY_SCROLL_DOWN: u32 = 50;
/// Scancode of the key that scrolls up while held.
pub const KEY_SCROLL_UP: u32 = 51;
/// Scancode of the space bar.
pub const KEY_SPACE: u32 = 57;
/// Scancode of escape.
pub const KEY_ESCAPE: u32 = 1;
/// Scancode of caps lock.
pub const KEY_CAPS: u32 = 58;
/// Scancode of the key that switches the layout in insert mode.
pub const KEY_SWITCH_LAYOUT: u32 = 42;
/// Scancode of enter.
pub const KEY_ENTER: u32 = 28;

/// Whether `sc` leaves insert mode.
pub open spec fn is_exit_key(sc: u32) -> bool {
    sc == KEY_ESCAPE || sc == KEY_CAPS
}

/// The mode after one control step.
pub open spec fn mode_after(mode: EditorMode, jp: Option<u32>) -> EditorMode {
    match mode {
        EditorMode::Normal => if jp == Some(KEY_INSERT) {
            EditorMode::Insert
        } else {
            EditorMode::Normal
        },
        EditorMode::Insert => match jp {
            Some(k) => if is_exit_key(k) {
                EditorMode::Normal
            } else {
                EditorMode::Insert
            },
            None => EditorMode::Insert,
        },
    }
}

/// The layout after one control step.
pub open spec fn layout_after(mode: EditorMode, layout: Layout, jp: Option<u32>) -> Layout {
    if mode == EditorMode::Insert && jp == Some(KEY_SWITCH_LAYOUT) {
        switched(layout)
    } else {
        layout
    }
}

/// The scroll state after one control step.
pub open spec fn scroll_after(mode: EditorMode, scroll: ScrollState, p: Option<u32>) -> ScrollState {
    if mode == EditorMode::Normal && p == Some(KEY_SCROLL_DOWN) {
        ScrollState::ScrollingDown
    } else if mode == EditorMode::Normal && p == Some(KEY_SCROLL_UP) {
        ScrollState::ScrollingUp
    } else {
        scroll
    }
}

/// The commands that one control step queues, in order.
pub open spec fn commands_from_keys(
    mode: EditorMode,
    layout: Layout,
    jp: Option<u32>,
    dp: Option<u32>,
    space_down: bool,
) -> Seq<EditorCommand> {
    match mode {
        EditorMode::Normal => {
            let moves = if jp == Some(KEY_VERTICAL) {
                seq![
                    if space_down {
                        EditorCommand::MoveCursorUp(1)
                    } else {
                        EditorCommand::MoveCursorDown(1)
                    },
                ]
            } else if jp == Some(KEY_HORIZONTAL) {
                seq![
                    if space_down {
                        EditorCommand::MoveCursorLeft(1)
                    } else {
                        EditorCommand::MoveCursorRight(1)
                    },
                ]
            } else {
                Seq::empty()
            };
            if dp == Some(KEY_REMOVE_LINE) {
                moves.push(EditorCommand::RemoveLine)
            } else {
                moves
            }
        },
        EditorMode::Insert => match jp {
            Some(k) => if is_exit_key(k) || k == KEY_SWITCH_LAYOUT {
                Seq::empty()
            } else if k == KEY_ENTER {
                seq![EditorCommand::AddLine]
            } else {
                seq![EditorCommand::PutChar(layout_char(layout, k))]
            },
            None => Seq::empty(),
        },
    }
}

/// One control step, given one just-pressed key `jp`, one held key `p`, one
/// double-pressed key `dp` (each where there is one) and whether space is
/// held.
pub fn control_step(
    m: &mut EditorMode,
    c: &mut EditorCommands,
    l: &mut Layout,
    s: &mut ScrollState,
    jp: Option<u32>,
    p: Option<u32>,
    dp: Option<u32>,
    space_down: bool,
)
    ensures
        *final(m) == mode_after(*old(m), jp),
        *final(l) == layout_after(*old(m), *old(l), jp),
        *final(s) == scroll_after(*old(m), *old(s), p),
        final(c)@ == old(c)@ + commands_from_keys(*old(m), *old(l), jp, dp, space_down),
{
    let ghost c0 = c@;
    match *m {
        EditorMode::Normal => {
            if let Some(jp) = jp {
                if jp == KEY_INSERT {
                    *m = EditorMode::Insert;
                } else if jp == KEY_VERTICAL {
                    if space_down {
                        c.push(EditorCommand::MoveCursorUp(1));
                    } else {
                        c.push(EditorCommand::MoveCursorDown(1));
                    }
                } else if jp == KEY_HORIZONTAL {
                    if space_down {
                        c.push(EditorCommand::MoveCursorLeft(1));
                    } else {
                        c.push(EditorCommand::MoveCursorRight(1));
                    }
                }
            }
            if let Some(p) = p {
                if p == KEY_SCROLL_DOWN {
                    *s = ScrollState::ScrollingDown;
                } else if p == KEY_SCROLL_UP {
                    *s = ScrollState::ScrollingUp;
                }
            }
            if let Some(dp) = dp {
                if dp == KEY_REMOVE_LINE {
                    c.push(EditorCommand::RemoveLine);
                }
            }
        },
        EditorMode::Insert => {
            if let Some(p) = jp {
                if p == KEY_ESCAPE || p == KEY_CAPS {
                    *m = EditorMode::Normal;
                } else if p == KEY_SWITCH_LAYOUT {
                    l.switch();
                } else if p == KEY_ENTER {
                    c.push(EditorCommand::AddLine);
                } else {
                    c.push(EditorCommand::PutChar(l.scch(p)));
                }
            }
        },
    }
    assert(c@ =~= c0 + commands_from_keys(*old(m), *old(l), jp, dp, space_down));
}

/// Whether `k` is one element of `set`, or `None` for an empty set.
pub open spec fn picked_from(k: Option<u32>, set: Set<u32>) -> bool {
    match k {
        Some(x) => set.contains(x),
        None => set.is_empty(),
    }
}

/// Some element of `set`, or `None` where it is empty; which one depends on
/// the order in which the set is walked.
fn any_of(set: &HashSet<u32>) -> (k: Option<u32>)
    ensures
        picked_from(k, set@),
{
    let mut r: Option<u32> = None;
    for k in it: set.iter()
        invariant
            it.seq().unref().to_set() == set@,
            r matches Some(x) ==> set@.contains(x),
            r is None ==> it.index() == 0,
            r is None && it.index() == it.seq().len() ==> set@ =~= Set::<u32>::empty(),
        ensures
            picked_from(r, set@),
    {
        proof {
            assert(it.seq().unref().contains(*k));
        }
        r = Some(*k);
        break;
    }
    r
}

/// One control step driven by the keys: one of the just-pressed keys, one of
/// the held keys and one of the double-pressed keys (whichever the sets give
/// first), with space counting as held where it is held.
pub fn control(
    keystrokes: &KeyStrokes,
    m: &mut EditorMode,
    c: &mut EditorCommands,
    l: &mut Layout,
    s: &mut ScrollState,
)
    ensures
        exists|jp: Option<u32>, p: Option<u32>, dp: Option<u32>|
            #![trigger picked_from(jp, just_pressed_keys(keystrokes.stroke_map())), picked_from(p, keystrokes.stroke_map().dom()), picked_from(dp, double_pressed_keys(keystrokes.stroke_map()))]
            {
                &&& picked_from(jp, just_pressed_keys(keystrokes.stroke_map()))
                &&& picked_from(p, keystrokes.stroke_map().dom())
                &&& picked_from(dp, double_pressed_keys(keystrokes.stroke_map()))
                &&& *final(m) == mode_after(*old(m), jp)
                &&& *final(l) == layout_after(*old(m), *old(l), jp)
                &&& *final(s) == scroll_after(*old(m), *old(s), p)
                &&& final(c)@ == old(c)@ + commands_from_keys(
                    *old(m),
                    *old(l),
                    jp,
                    dp,
                    keystrokes.stroke_map().contains_key(KEY_SPACE),
                )
            },
{
    let down = keystrokes.get_down();
    let p = any_of(&down);
    let jp = any_of(&keystrokes.get_just_pressed());
    let dp = any_of(&keystrokes.get_double_pressed());
    let space_down = down.contains(&KEY_SPACE);
    control_step(m, c, l, s, jp, p, dp, space_down);
    assert(picked_from(jp, just_pressed_keys(keystrokes.stroke_map())) && picked_from(p, keystrokes.stroke_map().dom()) && picked_from(dp, double_pressed_keys(keystrokes.stroke_map())));
}

/// In insert mode a just-pressed key other than escape, caps lock, the
/// layout switch and enter types exactly its character in the current
/// layout, and leaves the mode and the layout as they were.
pub proof fn lemma_insert_mode_types_layout_char(
    layout: Layout,
    k: u32,
    p: Option<u32>,
    dp: Option<u32>,
    space_down: bool,
)
    requires
        !is_exit_key(k),
        k != KEY_SWITCH_LAYOUT,
        k != KEY_ENTER,
    ensures
        commands_from_keys(EditorMode::Insert, layout, Some(k), dp, space_down)
            == seq![EditorCommand::PutChar(layout_char(layout, k))],
        mode_after(EditorMode::Insert, Some(k)) == EditorMode::Insert,
        layout_after(EditorMode::Insert, layout, Some(k)) == layout,
{
}

/// Entering insert mode and leaving it again by escape or caps lock gives
/// back normal mode; neither step queues a command.
pub proof fn lemma_insert_and_back(layout: Layout, exit: u32, dp: Option<u32>, space_down: bool)
    requires
        is_exit_key(exit),
        dp != Some(KEY_REMOVE_LINE),
    ensures
        mode_after(mode_after(EditorMode::Normal, Some(KEY_INSERT)), Some(exit)) == EditorMode::Normal,
        commands_from_keys(EditorMode::Normal, layout, Some(KEY_INSERT), dp, space_down).len() == 0,
        commands_from_keys(EditorMode::Insert, layout, Some(exit), dp, space_down).len() == 0,
{
}

/// Without a just-pressed key, the mode and the layout stay as they are.
pub proof fn lemma_no_key_no_change(mode: EditorMode, layout: Layout)
    ensures
        mode_after(mode, None) == mode,
        layout_after(mode, layout, None) == layout,
{
}

/// In insert mode, a just-pressed typing key, once its commands are carried
/// out, puts the key's character of the current layout into the cursor's
/// line at the cursor's column (clamped to the line), and nothing else
/// changes in the other lines.
pub proof fn lemma_typed_key_lands_at_cursor(
    lines: Seq<Seq<char>>,
    c: Cursor,
    layout: Layout,
    k: u32,
    dp: Option<u32>,
    space_down: bool,
)
    requires
        !is_exit_key(k),
        k != KEY_SWITCH_LAYOUT,
        k != KEY_ENTER,
        c.line < lines.len(),
        cursor_consistent(lines, c),
        command_fits(lines, c, EditorCommand::PutChar(layout_char(layout, k))),
    ensures
        ({
            let cmds = commands_from_keys(EditorMode::Insert, layout, Some(k), dp, space_down);
            let (after, _) = run_commands(lines, c, cmds);
            let i = c.line as int;
            &&& after.len() == lines.len()
            &&& after[i] == lines[i].insert(typing_position(lines[i], c).0, layout_char(layout, k))
            &&& forall|j: int| 0 <= j < lines.len() && j != i ==> after[j] == lines[j]
        }),
{
    let ch = layout_char(layout, k);
    let cmds = commands_from_keys(EditorMode::Insert, layout, Some(k), dp, space_down);
    assert(cmds == seq![EditorCommand::PutChar(ch)]);
    assert(cmds.drop_first() =~= Seq::<EditorCommand>::empty());
    lemma_put_char_at_column(lines[c.line as int], c, ch);
    let l1 = crate::editor::lines_after(lines, c, cmds[0]);
    let c1 = crate::editor::cursor_after(lines, c, cmds[0]);
    assert(run_commands(l1, c1, cmds.drop_first()) == (l1, c1));
    assert(run_commands(lines, c, cmds) == (l1, c1));
}

/// Only the layout-switch key (scancode 42) in insert mode changes the
/// layout; there it always changes it. In normal mode no key does.
pub proof fn lemma_layout_changes_only_on_switch_in_insert(layout: Layout, jp: Option<u32>)
    ensures
        layout_after(EditorMode::Normal, layout, jp) == layout,
        jp != Some(42u32) ==> layout_after(EditorMode::Insert, layout, jp) == layout,
        layout_after(EditorMode::Insert, layout, Some(42)) != layout,
        layout_after(EditorMode::Insert, layout, Some(42)) == switched(layout),
{
}

/// Normal mode goes to insert mode exactly on scancode 34; insert mode goes
/// back to normal mode exactly on escape (1) or caps lock (58).
pub proof fn lemma_mode_changes(jp: Option<u32>)
    ensures
        (mode_after(EditorMode::Normal, jp) == EditorMode::Insert) <==> jp == Some(34u32),
        (mode_after(EditorMode::Insert, jp) == EditorMode::Normal) <==> (jp == Some(1u32) || jp
            == Some(58u32)),
{
}

/// Held keys 50 and 51 scroll down and up in normal mode; any other held key,
/// and any key in insert mode, leaves the scroll state as it is.
pub proof fn lemma_scroll_keys(mode: EditorMode, scroll: ScrollState, p: Option<u32>)
    ensures
        scroll_after(EditorMode::Normal, scroll, Some(50)) == ScrollState::ScrollingDown,
        scroll_after(EditorMode::Normal, scroll, Some(51)) == ScrollState::ScrollingUp,
        p != Some(50u32) && p != Some(51u32) ==> scroll_after(mode, scroll, p) == scroll,
        scroll_after(EditorMode::Insert, scroll, p) == scroll,
{
}

/// In normal mode, 36 moves the cursor down (up with space held), 37 moves it
/// right (left with space held), a double press of 35 then removes the line,
/// and nothing else queues a command.
pub proof fn lemma_normal_mode_commands(layout: Layout, jp: Option<u32>, dp: Option<u32>, space: bool)
    ensures
        commands_from_keys(EditorMode::Normal, layout, Some(36), None, false) == seq![
            EditorCommand::MoveCursorDown(1),
        ],
        commands_from_keys(EditorMode::Normal, layout, Some(36), None, true) == seq![
            EditorCommand::MoveCursorUp(1),
        ],
        commands_from_keys(EditorMode::Normal, layout, Some(37), None, false) == seq![
            EditorCommand::MoveCursorRight(1),
        ],
        commands_from_keys(EditorMode::Normal, layout, Some(37), None, true) == seq![
            EditorCommand::MoveCursorLeft(1),
        ],
        commands_from_keys(EditorMode::Normal, layout, jp, Some(35), space).last()
            == EditorCommand::RemoveLine,
        jp != Some(36u32) && jp != Some(37u32) && dp != Some(35u32) ==> commands_from_keys(
            EditorMode::Normal,
            layout,
            jp,
            dp,
            space,
        ).len() == 0,
{
}

/// In insert mode, enter (28) opens a new line, and escape, caps lock and the
/// layout switch queue nothing.
pub proof fn lemma_insert_mode_special_keys(layout: Layout, dp: Option<u32>, space: bool)
    ensures
        commands_from_keys(EditorMode::Insert, layout, Some(28), dp, space) == seq![
            EditorCommand::AddLine,
        ],
        commands_from_keys(EditorMode::Insert, layout, Some(1), dp, space).len() == 0,
        commands_from_keys(EditorMode::Insert, layout, Some(58), dp, space).len() == 0,
        commands_from_keys(EditorMode::Insert, layout, Some(42), dp, space).len() == 0,
        commands_from_keys(EditorMode::Insert, layout, None, dp, space).len() == 0,
{
}

} // verus!
