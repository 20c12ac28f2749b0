//! What the pointer, the keyboard and the window do to a terminal, over several
//! events.
use vstd::prelude::*;

use crate::term::client_grid::GridModel;
use crate::term::keys;
use crate::term::keys::{KeyActionModel, KeyPress, Platform};
use crate::term::widget;
use crate::term::widget::{
    CellPosition,
    ContextItem,
    Event,
    MenuPoint,
    Preedit,
    Press,
    PublishModel,
    Selection,
    StateModel,
};

verus! {

/// Pressing the left button, moving the pointer and letting the button go selects
/// from the cell of the press to the cell of the last move, in rows of the
/// history. Moving the pointer after that selects nothing else.
pub proof fn law_dragging_selects(
    s: StateModel,
    grid: GridModel,
    from: (u16, u16),
    to: (u16, u16),
    later: (u16, u16),
    platform: Platform,
)
    requires
        widget::rows_have_numbers(grid),
    ensures
        ({
            let pressed = s.after(
                grid,
                Event::LeftPressed(Some(Press { menu_item: None, cell: Some(from) })),
                platform,
            ).0;
            let moved = pressed.after(
                grid,
                Event::CursorMoved { cell: Some(to), menu_item: None },
                platform,
            ).0;
            let released = moved.after(grid, Event::LeftReleased, platform).0;
            let wanted = Selection {
                anchor: CellPosition { row: (grid.viewport_start + from.0) as u64, col: from.1 },
                head: CellPosition { row: (grid.viewport_start + to.0) as u64, col: to.1 },
            };
            &&& pressed.focused
            &&& pressed.selecting
            &&& pressed.context_menu is None
            &&& moved.selection == Some(wanted)
            &&& released.selection == Some(wanted)
            &&& !released.selecting
            &&& released.after(
                grid,
                Event::CursorMoved { cell: Some(later), menu_item: None },
                platform,
            ).0.selection == Some(wanted)
        }),
{
}

/// While a selection is being made, scrolling moves its end with the cell below
/// the pointer and keeps its start; once it is made, scrolling keeps both.
pub proof fn law_scrolling_extends_the_selection(
    s: StateModel,
    grid: GridModel,
    cell: (u16, u16),
    sel: Selection,
)
    requires
        widget::rows_have_numbers(grid),
        s.selection == Some(sel),
        s.drag_viewport_cell == Some(cell),
        s.last_viewport_start != grid.viewport_start,
    ensures
        s.selecting ==> s.seen(grid).selection == Some(
            Selection {
                anchor: sel.anchor,
                head: CellPosition { row: (grid.viewport_start + cell.0) as u64, col: cell.1 },
            },
        ),
        !s.selecting ==> s.seen(grid).selection == Some(sel),
{
}

/// The wheel scrolls by the lines that it moved, and by nothing where it moved
/// less than a line; what is left of a line is kept.
pub proof fn law_wheel_scrolls(
    s: StateModel,
    grid: GridModel,
    lines: i32,
    remainder_bits: u32,
    platform: Platform,
)
    ensures
        ({
            let (after, out) = s.after(
                grid,
                Event::WheelScrolled { lines, remainder_bits },
                platform,
            );
            &&& after.wheel_remainder_bits == remainder_bits
            &&& after.selection == s.selection
            &&& lines == 0 ==> out.publish.len() == 0 && after.scrolled == s.scrolled
            &&& lines != 0 ==> out.publish == seq![PublishModel::Scroll(lines)] && after.scrolled
            &&& out.copy is None
            &&& !out.read_clipboard
        }),
{
}

/// A key that writes bytes sends exactly them. In the history the terminal first
/// scrolls to its end, once; the selection and the menu go.
pub proof fn law_keys_send_their_bytes(
    s: StateModel,
    grid: GridModel,
    press: KeyPress,
    bytes: Seq<u8>,
    platform: Platform,
)
    requires
        s.focused,
        s.window_focused,
        keys::key_action(press, platform) == KeyActionModel::Bytes(bytes),
    ensures
        ({
            let (after, out) = s.after(grid, Event::KeyPressed(press), platform);
            let again = after.after(grid, Event::KeyPressed(press), platform).1;
            &&& s.scrolled ==> out.publish == seq![
                PublishModel::Scroll((-1_000_000) as i32),
                PublishModel::Input(bytes),
            ]
            &&& !s.scrolled ==> out.publish == seq![PublishModel::Input(bytes)]
            &&& again.publish == seq![PublishModel::Input(bytes)]
            &&& out.capture
            &&& out.copy is None
            &&& !out.read_clipboard
            &&& after.selection is None
            &&& after.context_menu is None
            &&& !after.scrolled
        }),
{
}

/// The keys for copying copy what is selected and keep it; those for pasting ask
/// for the clipboard, and its text is then sent byte by byte. Neither sends
/// anything else. A key without a meaning does nothing.
pub proof fn law_keys_copy_and_paste(
    s: StateModel,
    grid: GridModel,
    press: KeyPress,
    text: Seq<char>,
    platform: Platform,
)
    requires
        s.focused,
        s.window_focused,
    ensures
        ({
            let (after, out) = s.after(grid, Event::KeyPressed(press), platform);
            &&& keys::key_action(press, platform) is Copy ==> out.copy == s.selected(grid)
                && !out.read_clipboard && out.publish.len() == 0 && after.selection is Some
                == s.selection is Some
            &&& keys::key_action(press, platform) is Paste ==> out.copy is None
                && out.read_clipboard && out.publish.len() == 0
            &&& keys::key_action(press, platform) is Ignore ==> after == s && !out.capture
                && out.copy is None && !out.read_clipboard && out.publish.len() == 0
        }),
        text.len() > 0 && !s.scrolled ==> s.pasted(Some(text)).1 == seq![
            PublishModel::Paste(vstd::utf8::encode_utf8(text)),
        ],
        text.len() > 0 && s.scrolled ==> s.pasted(Some(text)).1 == seq![
            PublishModel::Scroll((-1_000_000) as i32),
            PublishModel::Paste(vstd::utf8::encode_utf8(text)),
        ],
        s.pasted(Some(Seq::empty())).1.len() == 0,
        s.pasted(None).1.len() == 0,
{
}

/// The menu opens where the right button goes down. Its first entry copies what
/// is selected, its second asks for the clipboard; both close it.
pub proof fn law_menu_does_what_it_says(
    s: StateModel,
    grid: GridModel,
    at: MenuPoint,
    cell: Option<(u16, u16)>,
    platform: Platform,
)
    ensures
        ({
            let opened = s.after(grid, Event::RightPressed(Some(at)), platform).0;
            let (copied, copy) = opened.after(
                grid,
                Event::LeftPressed(Some(Press { menu_item: Some(ContextItem::Copy), cell })),
                platform,
            );
            let (pasted, paste) = opened.after(
                grid,
                Event::LeftPressed(Some(Press { menu_item: Some(ContextItem::Paste), cell })),
                platform,
            );
            &&& opened.context_menu == Some(at)
            &&& opened.focused
            &&& opened.selection == s.selection
            &&& copy.copy == opened.selected(grid)
            &&& !copy.read_clipboard
            &&& copied.context_menu is None
            &&& copied.selection is Some <==> s.selection is Some
            &&& paste.copy is None
            &&& paste.read_clipboard
            &&& pasted.context_menu is None
            &&& pasted.selection == s.selection
            &&& s.after(grid, Event::RightPressed(None), platform).0 == s
        }),
{
}

/// An entry of the open menu shows as chosen while the pointer is on it; the one
/// that copies only where something can be copied.
pub proof fn law_menu_shows_the_entry(
    s: StateModel,
    grid: GridModel,
    cell: Option<(u16, u16)>,
    platform: Platform,
)
    requires
        s.context_menu is Some,
        !s.selecting,
    ensures
        ({
            let on = |item: Option<ContextItem>|
                s.after(grid, Event::CursorMoved { cell, menu_item: item }, platform).0;
            &&& on(Some(ContextItem::Paste)).context_hover == Some(ContextItem::Paste)
            &&& on(None).context_hover is None
            &&& s.selected(grid) is Some ==> on(Some(ContextItem::Copy)).context_hover == Some(
                ContextItem::Copy,
            )
            &&& s.selected(grid) is None ==> on(Some(ContextItem::Copy)).context_hover is None
            &&& on(None).context_menu == s.context_menu
        }),
{
}

/// What an input method writes is shown until it is done, and then sent byte by
/// byte; without the focus nothing of it arrives.
pub proof fn law_input_method_writes(
    s: StateModel,
    grid: GridModel,
    preedit: Preedit,
    content: String,
    platform: Platform,
)
    ensures
        ({
            let (shown, nothing) = s.after(grid, Event::InputMethodPreedit(preedit), platform);
            let (done, sent) = s.after(grid, Event::InputMethodCommit(content), platform);
            &&& nothing.publish.len() == 0
            &&& s.focused ==> shown.preedit == Some(preedit@)
            &&& !s.focused ==> shown == s && done == s && sent.publish.len() == 0
            &&& s.focused && content@.len() > 0 ==> sent.publish == seq![
                PublishModel::Input(vstd::utf8::encode_utf8(content@)),
            ]
            &&& content@.len() == 0 ==> sent.publish.len() == 0
            &&& s.focused ==> done.preedit is Some && done.preedit->0.content.len() == 0
            &&& s.after(grid, Event::InputMethodClosed, platform).0.preedit is None
        }),
{
}

/// A press outside takes the focus away, and so does leaving the window for as
/// long as it is left; the terminal asks for an input method while it has both.
pub proof fn law_focus(
    s: StateModel,
    grid: GridModel,
    press: KeyPress,
    size: Option<(u16, u16)>,
    platform: Platform,
)
    ensures
        ({
            let outside = s.after(grid, Event::LeftPressed(None), platform).0;
            let left = s.after(grid, Event::WindowUnfocused, platform).0;
            let back = left.after(grid, Event::WindowFocused, platform).0;
            &&& !outside.focused
            &&& outside.context_menu is None
            &&& !outside.selecting
            &&& outside.preedit is None
            &&& !left.window_focused
            &&& left.preedit is None
            &&& left.focused == s.focused
            &&& back.window_focused
            &&& back.focused == s.focused
            &&& outside.after(grid, Event::KeyPressed(press), platform).1.publish.len() == 0
            &&& left.after(grid, Event::KeyPressed(press), platform).1.publish.len() == 0
            &&& s.after(grid, Event::RedrawRequested(size), platform).1.input_method <==> s.focused
                && s.window_focused
        }),
{
}

/// A new size is told as it is, and again after the scale of the window changed.
pub proof fn law_size_is_told(
    s: StateModel,
    grid: GridModel,
    cols: u16,
    rows: u16,
    bits: u32,
    platform: Platform,
)
    ensures
        ({
            let event = Event::RedrawRequested(Some((cols, rows)));
            let told = seq![PublishModel::Resize(cols, rows)];
            let (drawn, out) = s.after(grid, event, platform);
            let rescaled = drawn.after(grid, Event::WindowRescaled(bits), platform).0;
            &&& s.last_grid_size != Some((cols, rows)) ==> out.publish == told
            &&& s.last_grid_size == Some((cols, rows)) ==> out.publish.len() == 0
            &&& drawn.last_grid_size == Some((cols, rows))
            &&& 0 < bits < 0x7f80_0000 ==> rescaled.scale_bits == bits && rescaled.after(
                grid,
                event,
                platform,
            ).1.publish == told
            &&& bits == 0 || bits >= 0x7f80_0000 ==> rescaled == drawn
        }),
{
}

/// What shows over the text is the same where the version is.
pub open spec fn is_renewed(before: StateModel, after: StateModel) -> bool {
    after.interaction_version == before.interaction_version ==> {
        &&& after.selection == before.selection
        &&& after.context_menu == before.context_menu
        &&& after.context_hover == before.context_hover
    }
}

proof fn lemma_press_renews(s: StateModel, grid: GridModel, press: Option<Press>)
    ensures
        is_renewed(s, s.left_pressed(grid, press).0),
{
}

proof fn lemma_move_renews(
    s: StateModel,
    grid: GridModel,
    cell: Option<(u16, u16)>,
    item: Option<ContextItem>,
)
    ensures
        is_renewed(s, s.cursor_moved(grid, cell, item).0),
{
}

proof fn lemma_key_renews(s: StateModel, grid: GridModel, press: KeyPress, platform: Platform)
    ensures
        is_renewed(s, s.key_pressed(grid, press, platform).0),
{
    let action = keys::key_action(press, platform);
    assert(action is Bytes || action is Paste || action is Copy || action is Ignore);
}

/// Whatever changes the selection, the menu or its chosen entry also changes the
/// version by which what is drawn is renewed.
pub proof fn law_what_shows_is_renewed(
    s: StateModel,
    grid: GridModel,
    event: Event,
    platform: Platform,
)
    ensures
        ({
            let after = s.after(grid, event, platform).0;
            after.interaction_version == s.interaction_version ==> after.selection == s.selection
                && after.context_menu == s.context_menu && after.context_hover == s.context_hover
        }),
{
    match event {
        Event::LeftPressed(press) => lemma_press_renews(s, grid, press),
        Event::CursorMoved { cell, menu_item } => lemma_move_renews(s, grid, cell, menu_item),
        Event::KeyPressed(press) => lemma_key_renews(s, grid, press, platform),
        _ => {},
    }
}

/// Another session starts without a selection and without a menu; the same one
/// keeps them.
pub proof fn law_sessions_are_kept_apart(
    s: StateModel,
    session_key: Seq<char>,
    grid: GridModel,
)
    ensures
        ({
            let after = s.attending(session_key, grid);
            &&& s.session_key != session_key ==> after.selection is None && after.context_menu
                is None && !after.selecting && !after.scrolled
            &&& s.session_key == session_key ==> after.context_menu == s.context_menu
                && after.scrolled == s.scrolled && after.selecting == s.selecting
            &&& after.session_key == session_key
            &&& after.last_viewport_start == grid.viewport_start
        }),
{
}

} // verus!
