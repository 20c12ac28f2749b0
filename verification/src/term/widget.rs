//! How the pointer, the keyboard and the window act on a terminal.
use std::collections::BTreeMap;
use vstd::prelude::*;

use crate::strings;
use crate::term::client_grid;
use crate::term::client_grid::{ClientCell, ClientGrid, GridModel};
use crate::term::keys;
use crate::term::keys::{KeyAction, KeyActionModel, KeyPress, Platform};

verus! {

/// Scrolls so far down that the last line shows.
pub const SCROLL_TO_BOTTOM: i32 = -1_000_000;

/// The bits of the single precision number one.
pub const SCALE_ONE: u32 = 0x3f80_0000;

/// The bits of the single precision infinity: those of a positive finite number
/// are below.
pub const SCALE_INFINITE: u32 = 0x7f80_0000;

/// A cell of the history.
#[derive(Debug, Clone, Copy, PartialEq, Eq, Structural)]
pub struct CellPosition {
    pub row: u64,
    pub col: u16,
}

/// The cells from one position to another.
#[derive(Debug, Clone, Copy, PartialEq, Eq, Structural)]
pub struct Selection {
    pub anchor: CellPosition,
    pub head: CellPosition,
}

/// An entry of the context menu.
#[derive(Debug, Clone, Copy, PartialEq, Eq, Structural)]
pub enum ContextItem {
    Copy,
    Paste,
}

/// The labels of the context menu.
#[derive(Debug, PartialEq)]
pub struct ContextLabels {
    pub copy: String,
    pub paste: String,
}

impl ContextLabels {
    /// The label of an item.
    pub fn label(&self, item: ContextItem) -> (res: &str)
        ensures
            res@ == (match item {
                ContextItem::Copy => self.copy@,
                ContextItem::Paste => self.paste@,
            }),
    {
        match item {
            ContextItem::Copy => self.copy.as_str(),
            ContextItem::Paste => self.paste.as_str(),
        }
    }
}

/// A point of the terminal, by the bits of its single precision coordinates.
#[derive(Debug, Clone, Copy, PartialEq, Eq, Structural)]
pub struct MenuPoint {
    pub x_bits: u32,
    pub y_bits: u32,
}

/// What an input method is about to write.
#[derive(Debug, PartialEq)]
pub struct Preedit {
    pub content: String,
    pub selection: Option<(usize, usize)>,
}

/// What an input method is about to write.
#[verifier::ext_equal]
pub struct PreeditModel {
    pub content: Seq<char>,
    pub selection: Option<(usize, usize)>,
}

impl View for Preedit {
    type V = PreeditModel;

    open spec fn view(&self) -> PreeditModel {
        PreeditModel { content: self.content@, selection: self.selection }
    }
}

impl PreeditModel {
    pub open spec fn blank() -> PreeditModel {
        PreeditModel { content: Seq::empty(), selection: None }
    }
}

impl CellPosition {
    /// This cell stands before the other one or is the same.
    pub open spec fn at_or_before(self, other: CellPosition) -> bool {
        self.row < other.row || self.row == other.row && self.col <= other.col
    }
}

impl Selection {
    pub open spec fn first(self) -> CellPosition {
        if self.anchor.at_or_before(self.head) {
            self.anchor
        } else {
            self.head
        }
    }

    pub open spec fn last(self) -> CellPosition {
        if self.anchor.at_or_before(self.head) {
            self.head
        } else {
            self.anchor
        }
    }

    /// The first and the last cell.
    pub fn ordered(self) -> (res: (CellPosition, CellPosition))
        ensures
            res == (self.first(), self.last()),
            res.0.at_or_before(res.1),
    {
        if self.anchor.row < self.head.row || self.anchor.row == self.head.row && self.anchor.col
            <= self.head.col {
            (self.anchor, self.head)
        } else {
            (self.head, self.anchor)
        }
    }

    pub fn is_non_empty(self) -> (res: bool)
        ensures
            res == (self.anchor != self.head),
    {
        self.anchor != self.head
    }
}

// ---------------------------------------------------------------------------
// Selected text
// ---------------------------------------------------------------------------

/// The cells of a row from one column to another, as far as the row goes.
pub open spec fn columns(cells: Seq<ClientCell>, from: int, to: int) -> Seq<ClientCell> {
    let end = if to + 1 < cells.len() {
        to + 1
    } else {
        cells.len() as int
    };
    if from < end {
        cells.subrange(from, end)
    } else {
        Seq::empty()
    }
}

/// The first column of a selection in a row.
pub open spec fn selected_from(sel: Selection, row: int) -> int {
    if row == sel.first().row {
        sel.first().col as int
    } else {
        0
    }
}

/// The last column of a selection in a row of a grid of `cols` columns.
pub open spec fn selected_to(sel: Selection, row: int, cols: u16) -> int {
    let edge = if cols == 0 {
        0
    } else {
        cols - 1
    };
    if row == sel.last().row && sel.last().col < edge {
        sel.last().col as int
    } else {
        edge
    }
}

/// The text of a selection in a row: without spacers and without the blanks at
/// its end.
pub open spec fn selected_line(
    rows: Map<u64, Seq<ClientCell>>,
    cols: u16,
    sel: Selection,
    row: int,
) -> Seq<char> {
    if rows.contains_key(row as u64) {
        client_grid::without_padding(
            client_grid::visible_chars(
                columns(rows[row as u64], selected_from(sel, row), selected_to(sel, row, cols)),
            ),
        )
    } else {
        Seq::empty()
    }
}

/// The text of a selection, one line per row.
pub open spec fn selection_lines(
    rows: Map<u64, Seq<ClientCell>>,
    cols: u16,
    sel: Selection,
) -> Seq<Seq<char>> {
    Seq::new(
        (sel.last().row - sel.first().row + 1) as nat,
        |k: int| selected_line(rows, cols, sel, sel.first().row + k),
    )
}

/// The text of a selection; `None` where it is empty.
pub open spec fn selection_text(
    rows: Map<u64, Seq<ClientCell>>,
    cols: u16,
    selection: Option<Selection>,
) -> Option<Seq<char>> {
    match selection {
        Some(sel) => if sel.anchor == sel.head {
            None
        } else {
            let text = strings::joined(selection_lines(rows, cols, sel), "\n"@);
            if text.len() == 0 {
                None
            } else {
                Some(text)
            }
        },
        None => None,
    }
}

/// The cells of rows by the number of the row.
pub open spec fn row_models(rows: Map<u64, Vec<ClientCell>>) -> Map<u64, Seq<ClientCell>> {
    rows.map_values(|cells: Vec<ClientCell>| cells@)
}

/// The text of a selection in cached rows; `None` where it is empty.
pub fn selected_text(
    rows: &BTreeMap<u64, Vec<ClientCell>>,
    cols: u16,
    selection: Option<Selection>,
) -> (res: Option<String>)
    ensures
        strings::opt_text(res) == selection_text(row_models(rows@), cols, selection),
{
    let sel = match selection {
        Some(sel) => sel,
        None => return None,
    };
    if !sel.is_non_empty() {
        return None;
    }
    let (start, end) = sel.ordered();
    let edge: u16 = if cols == 0 {
        0
    } else {
        cols - 1
    };
    let ghost models = row_models(rows@);
    let mut lines: Vec<String> = Vec::new();
    let mut row: u64 = start.row;
    let mut more: bool = true;
    while more
        invariant
            start == sel.first(),
            end == sel.last(),
            edge == (if cols == 0 { 0 } else { cols - 1 }),
            models == row_models(rows@),
            start.row <= row <= end.row,
            more ==> lines@.len() == row - start.row,
            !more ==> row == end.row && lines@.len() == row - start.row + 1,
            forall|k: int|
                0 <= k < lines@.len() ==> (#[trigger] lines@[k])@ == selected_line(
                    models,
                    cols,
                    sel,
                    start.row + k,
                ),
        decreases end.row - row + (if more { 1int } else { 0 }),
    {
        let from: u16 = if row == start.row {
            start.col
        } else {
            0
        };
        let to: u16 = if row == end.row && end.col < edge {
            end.col
        } else {
            edge
        };
        let line = match rows.get(&row) {
            Some(cells) => line_text(cells, from, to),
            None => String::new(),
        };
        lines.push(line);
        if row == end.row {
            more = false;
        } else {
            row += 1;
        }
    }
    proof {
        assert(strings::texts(lines@) =~= selection_lines(models, cols, sel));
    }
    let text = strings::join(&lines, "\n");
    if text.as_str().is_empty() {
        None
    } else {
        Some(text)
    }
}

/// The text of the columns `from..=to` of a row.
fn line_text(cells: &Vec<ClientCell>, from: u16, to: u16) -> (res: String)
    ensures
        res@ == client_grid::without_padding(
            client_grid::visible_chars(columns(cells@, from as int, to as int)),
        ),
{
    let start: usize = from as usize;
    let end: usize = if (to as usize) + 1 < cells.len() {
        to as usize + 1
    } else {
        cells.len()
    };
    if start < end {
        let part = vstd::slice::slice_subrange(cells.as_slice(), start, end);
        let chars = client_grid::visible(part);
        client_grid::trim_padding(&chars)
    } else {
        let out = String::new();
        proof {
            assert(out@ =~= client_grid::without_padding(
                client_grid::visible_chars(columns(cells@, from as int, to as int)),
            ));
        }
        out
    }
}

/// A selection gives the same text in whichever direction it was drawn.
pub proof fn law_selection_has_no_direction(
    rows: Map<u64, Seq<ClientCell>>,
    cols: u16,
    sel: Selection,
)
    ensures
        selection_text(rows, cols, Some(sel)) == selection_text(
            rows,
            cols,
            Some(Selection { anchor: sel.head, head: sel.anchor }),
        ),
{
    let back = Selection { anchor: sel.head, head: sel.anchor };
    assert(back.first() == sel.first());
    assert(back.last() == sel.last());
    assert(selection_lines(rows, cols, sel) =~= selection_lines(rows, cols, back));
}

// ---------------------------------------------------------------------------
// State
// ---------------------------------------------------------------------------

/// The state of the interaction with a terminal.
#[derive(Debug)]
pub struct State {
    pub session_key: String,
    pub focused: bool,
    pub window_focused: bool,
    /// The bits of the scale factor of the window.
    pub scale_bits: u32,
    pub preedit: Option<Preedit>,
    pub last_grid_size: Option<(u16, u16)>,
    pub selecting: bool,
    pub selection: Option<Selection>,
    pub selection_rows: BTreeMap<u64, Vec<ClientCell>>,
    pub drag_viewport_cell: Option<(u16, u16)>,
    pub last_viewport_start: u64,
    pub context_menu: Option<MenuPoint>,
    pub context_hover: Option<ContextItem>,
    /// The bits of the part of a line that the wheel has moved.
    pub wheel_remainder_bits: u32,
    pub scrolled: bool,
    pub interaction_version: u64,
}

/// What the state of the interaction holds.
#[verifier::ext_equal]
pub struct StateModel {
    pub session_key: Seq<char>,
    pub focused: bool,
    pub window_focused: bool,
    pub scale_bits: u32,
    pub preedit: Option<PreeditModel>,
    pub last_grid_size: Option<(u16, u16)>,
    pub selecting: bool,
    pub selection: Option<Selection>,
    pub selection_rows: Map<u64, Seq<ClientCell>>,
    pub drag_viewport_cell: Option<(u16, u16)>,
    pub last_viewport_start: u64,
    pub context_menu: Option<MenuPoint>,
    pub context_hover: Option<ContextItem>,
    pub wheel_remainder_bits: u32,
    pub scrolled: bool,
    pub interaction_version: u64,
}

/// What an input method is about to write, if anything.
pub open spec fn preedit_model(p: Option<Preedit>) -> Option<PreeditModel> {
    match p {
        Some(preedit) => Some(preedit@),
        None => None,
    }
}

impl View for State {
    type V = StateModel;

    open spec fn view(&self) -> StateModel {
        StateModel {
            session_key: self.session_key@,
            focused: self.focused,
            window_focused: self.window_focused,
            scale_bits: self.scale_bits,
            preedit: preedit_model(self.preedit),
            last_grid_size: self.last_grid_size,
            selecting: self.selecting,
            selection: self.selection,
            selection_rows: row_models(self.selection_rows@),
            drag_viewport_cell: self.drag_viewport_cell,
            last_viewport_start: self.last_viewport_start,
            context_menu: self.context_menu,
            context_hover: self.context_hover,
            wheel_remainder_bits: self.wheel_remainder_bits,
            scrolled: self.scrolled,
            interaction_version: self.interaction_version,
        }
    }
}

/// The numbers of the rows that a grid may show fit in 64 bits.
pub open spec fn rows_have_numbers(grid: GridModel) -> bool {
    grid.viewport_start + u16::MAX <= u64::MAX
}

impl StateModel {
    /// The state before any interaction.
    pub open spec fn initial() -> StateModel {
        StateModel {
            session_key: Seq::empty(),
            focused: false,
            window_focused: true,
            scale_bits: SCALE_ONE,
            preedit: None,
            last_grid_size: None,
            selecting: false,
            selection: None,
            selection_rows: Map::empty(),
            drag_viewport_cell: None,
            last_viewport_start: 0,
            context_menu: None,
            context_hover: None,
            wheel_remainder_bits: 0,
            scrolled: false,
            interaction_version: 0,
        }
    }

    /// The state with one change more counted.
    pub open spec fn changed(self) -> StateModel {
        StateModel {
            interaction_version: client_grid::next_version(self.interaction_version),
            ..self
        }
    }

    /// The state at the start of a session: whatever belongs to another session
    /// is gone.
    pub open spec fn reset_for(self, session_key: Seq<char>) -> StateModel {
        StateModel {
            session_key,
            selecting: false,
            selection: None,
            selection_rows: Map::empty(),
            drag_viewport_cell: None,
            last_viewport_start: 0,
            context_menu: None,
            context_hover: None,
            wheel_remainder_bits: 0,
            scrolled: false,
            ..self
        }.changed()
    }

    pub open spec fn without_menu(self) -> StateModel {
        StateModel { context_menu: None, context_hover: None, ..self }
    }

    /// The state without a menu and with nothing dragged.
    pub open spec fn settled(self) -> StateModel {
        StateModel { selecting: false, drag_viewport_cell: None, ..self }.without_menu().changed()
    }

    pub open spec fn without_selection(self) -> StateModel {
        StateModel {
            selection: None,
            selection_rows: Map::empty(),
            drag_viewport_cell: None,
            ..self
        }
    }

    /// The cached rows with those of a grid added, by their numbers in the
    /// history.
    pub open spec fn rows_with(self, grid: GridModel) -> Map<u64, Seq<ClientCell>> {
        Map::new(
            |r: u64|
                self.selection_rows.contains_key(r) || grid.viewport_start <= r
                    < grid.viewport_start + grid.rows,
            |r: u64|
                if grid.viewport_start <= r < grid.viewport_start + grid.rows {
                    grid.row(r - grid.viewport_start)
                } else {
                    self.selection_rows[r]
                },
        )
    }

    /// The head of a selection that is being drawn, where the grid has scrolled
    /// below the pointer.
    pub open spec fn dragged(self, grid: GridModel) -> StateModel {
        match (self.drag_viewport_cell, self.selection) {
            (Some((row, col)), Some(sel)) => if self.selecting && grid.viewport_start
                != self.last_viewport_start {
                StateModel {
                    selection: Some(
                        Selection {
                            head: CellPosition { row: (grid.viewport_start + row) as u64, col },
                            ..sel
                        },
                    ),
                    ..self
                }.changed()
            } else {
                self
            },
            _ => self,
        }
    }

    /// The state after a look at a grid: while there is a selection, the rows
    /// that show are kept.
    pub open spec fn seen(self, grid: GridModel) -> StateModel {
        let kept = if self.selection is Some {
            StateModel { selection_rows: self.rows_with(grid), ..self }.dragged(grid)
        } else {
            self
        };
        StateModel { last_viewport_start: grid.viewport_start, ..kept }
    }

    /// The text of the selection, together with the rows of a grid.
    pub open spec fn selected(self, grid: GridModel) -> Option<Seq<char>> {
        let s = self.seen(grid);
        selection_text(s.selection_rows, grid.cols, s.selection)
    }
}

impl Default for State {
    fn default() -> (res: Self)
        ensures
            res@ == StateModel::initial(),
    {
        let state = State {
            session_key: String::new(),
            focused: false,
            window_focused: true,
            scale_bits: SCALE_ONE,
            preedit: None,
            last_grid_size: None,
            selecting: false,
            selection: None,
            selection_rows: BTreeMap::new(),
            drag_viewport_cell: None,
            last_viewport_start: 0,
            context_menu: None,
            context_hover: None,
            wheel_remainder_bits: 0,
            scrolled: false,
            interaction_version: 0,
        };
        proof {
            assert(state@.session_key =~= Seq::<char>::empty());
            assert(state@.selection_rows =~= Map::<u64, Seq<ClientCell>>::empty());
        }
        state
    }
}

/// A copy of a row of cells.
fn copy_cells(cells: &[ClientCell]) -> (res: Vec<ClientCell>)
    ensures
        res@ == cells@,
{
    let mut out: Vec<ClientCell> = Vec::new();
    let mut i: usize = 0;
    while i < cells.len()
        invariant
            i <= cells@.len(),
            out@ =~= cells@.take(i as int),
        decreases cells@.len() - i,
    {
        out.push(cells[i]);
        i += 1;
    }
    proof {
        assert(cells@.take(i as int) =~= cells@);
    }
    out
}

impl State {
    pub fn focus(&mut self)
        ensures
            final(self)@ == (StateModel { focused: true, ..old(self)@ }),
    {
        self.focused = true;
    }

    pub fn unfocus(&mut self)
        ensures
            final(self)@ == (StateModel { focused: false, preedit: None, ..old(self)@ }),
    {
        self.focused = false;
        self.preedit = None;
    }

    pub fn is_focused(&self) -> (res: bool)
        ensures
            res == self@.focused,
    {
        self.focused
    }

    fn touch(&mut self)
        ensures
            final(self)@ == old(self)@.changed(),
    {
        self.interaction_version = self.interaction_version.wrapping_add(1);
    }

    /// Starts over for a session.
    pub fn reset_for_session(&mut self, session_key: &str)
        ensures
            final(self)@ == old(self)@.reset_for(session_key@),
    {
        self.session_key = session_key.to_string();
        self.selecting = false;
        self.selection = None;
        self.selection_rows.clear();
        self.drag_viewport_cell = None;
        self.last_viewport_start = 0;
        self.context_menu = None;
        self.context_hover = None;
        self.wheel_remainder_bits = 0;
        self.scrolled = false;
        self.touch();
        proof {
            assert(self@.selection_rows =~= Map::<u64, Seq<ClientCell>>::empty());
        }
    }

    pub fn clear_transient_interaction(&mut self)
        ensures
            final(self)@ == old(self)@.settled(),
    {
        self.selecting = false;
        self.drag_viewport_cell = None;
        self.context_menu = None;
        self.context_hover = None;
        self.touch();
    }

    pub fn clear_selection(&mut self)
        ensures
            final(self)@ == old(self)@.without_selection(),
    {
        self.selection = None;
        self.selection_rows.clear();
        self.drag_viewport_cell = None;
        proof {
            assert(self@.selection_rows =~= Map::<u64, Seq<ClientCell>>::empty());
        }
    }

    /// Looks at a grid: while there is a selection, the rows that show are kept.
    pub fn cache_snapshot(&mut self, grid: &ClientGrid)
        requires
            grid@.wf(),
            rows_have_numbers(grid@),
        ensures
            final(self)@ == old(self)@.seen(grid@),
    {
        if self.selection.is_none() {
            self.last_viewport_start = grid.viewport_start;
            return ;
        }
        let ghost start = self@;
        let mut row: u16 = 0;
        proof {
            assert(start.selection_rows =~= self@.selection_rows);
        }
        while row < grid.rows
            invariant
                row <= grid.rows,
                grid@.wf(),
                rows_have_numbers(grid@),
                self@ == (StateModel { selection_rows: self@.selection_rows, ..start }),
                self@.selection_rows =~= Map::new(
                    |r: u64|
                        start.selection_rows.contains_key(r) || grid.viewport_start <= r
                            < grid.viewport_start + row,
                    |r: u64|
                        if grid.viewport_start <= r < grid.viewport_start + row {
                            grid@.row(r - grid.viewport_start)
                        } else {
                            start.selection_rows[r]
                        },
                ),
            decreases grid.rows - row,
        {
            if let Some(cells) = grid.line_cells(row) {
                let copy = copy_cells(cells);
                let number: u64 = grid.viewport_start + row as u64;
                let ghost before = self.selection_rows@;
                self.selection_rows.insert(number, copy);
                proof {
                    assert(row_models(self.selection_rows@) =~= row_models(before).insert(
                        number,
                        copy@,
                    ));
                }
            }
            row += 1;
        }
        proof {
            assert(self@.selection_rows =~= start.rows_with(grid@));
        }
        if self.selecting && grid.viewport_start != self.last_viewport_start {
            if let Some((viewport_row, col)) = self.drag_viewport_cell {
                if let Some(selection) = self.selection {
                    self.selection = Some(
                        Selection {
                            anchor: selection.anchor,
                            head: CellPosition {
                                row: grid.viewport_start + viewport_row as u64,
                                col,
                            },
                        },
                    );
                    self.touch();
                }
            }
        }
        self.last_viewport_start = grid.viewport_start;
    }

    /// The text of the selection, together with the rows of a grid.
    pub fn selected_text(&mut self, grid: &ClientGrid) -> (res: Option<String>)
        requires
            grid@.wf(),
            rows_have_numbers(grid@),
        ensures
            final(self)@ == old(self)@.seen(grid@),
            strings::opt_text(res) == old(self)@.selected(grid@),
    {
        self.cache_snapshot(grid);
        selected_text(&self.selection_rows, grid.cols, self.selection)
    }
}

/// While there is a selection, a row that was kept stays as it was until the
/// grid shows it again, and each row that shows is kept.
pub proof fn law_seen_rows_are_kept(s: StateModel, grid: GridModel, row: u64)
    requires
        s.selection is Some,
        rows_have_numbers(grid),
    ensures
        s.selection_rows.contains_key(row) && !(grid.viewport_start <= row < grid.viewport_start
            + grid.rows) ==> s.seen(grid).selection_rows.contains_key(row)
            && s.seen(grid).selection_rows[row] == s.selection_rows[row],
        grid.viewport_start <= row < grid.viewport_start + grid.rows ==> s.seen(
            grid,
        ).selection_rows.contains_key(row) && s.seen(grid).selection_rows[row] == grid.row(
            row - grid.viewport_start,
        ),
{
}

/// Starting over for a session forgets the selection, the rows kept for it and
/// the menu, but keeps the focus and what the window is like.
pub proof fn law_reset_forgets_the_other_session(s: StateModel, session_key: Seq<char>)
    ensures
        s.reset_for(session_key).selection is None,
        s.reset_for(session_key).selection_rows.dom().is_empty(),
        s.reset_for(session_key).context_menu is None,
        s.reset_for(session_key).focused == s.focused,
        s.reset_for(session_key).window_focused == s.window_focused,
        s.reset_for(session_key).scale_bits == s.scale_bits,
{
}

// ---------------------------------------------------------------------------
// Events
// ---------------------------------------------------------------------------

/// Where the pointer is as its left button goes down.
#[derive(Debug, Clone, Copy, PartialEq, Eq)]
pub struct Press {
    /// The entry of the context menu below the pointer.
    pub menu_item: Option<ContextItem>,
    /// The cell below the pointer, by its row and column in the viewport.
    pub cell: Option<(u16, u16)>,
}

/// What happens to a terminal.
#[derive(Debug, PartialEq)]
pub enum Event {
    /// The left button goes down; `None` outside the terminal.
    LeftPressed(Option<Press>),
    /// The pointer moves; the cell and the entry of the context menu below it.
    CursorMoved { cell: Option<(u16, u16)>, menu_item: Option<ContextItem> },
    LeftReleased,
    /// The right button goes down; `None` outside the terminal.
    RightPressed(Option<MenuPoint>),
    /// The wheel turns above the terminal: the whole lines that it has moved
    /// and the bits of the part of a line that is left.
    WheelScrolled { lines: i32, remainder_bits: u32 },
    KeyPressed(KeyPress),
    InputMethodOpened,
    InputMethodPreedit(Preedit),
    InputMethodCommit(String),
    InputMethodClosed,
    WindowFocused,
    WindowUnfocused,
    /// The bits of the new scale factor.
    WindowRescaled(u32),
    /// The terminal is drawn again with room for so many columns and rows.
    RedrawRequested(Option<(u16, u16)>),
    Other,
}

/// A message of the terminal to the application.
#[derive(Debug, PartialEq)]
pub enum Publish {
    Input(Vec<u8>),
    Paste(Vec<u8>),
    Resize(u16, u16),
    Scroll(i32),
}

/// A message of the terminal to the application.
#[verifier::ext_equal]
pub enum PublishModel {
    Input(Seq<u8>),
    Paste(Seq<u8>),
    Resize(u16, u16),
    Scroll(i32),
}

impl View for Publish {
    type V = PublishModel;

    open spec fn view(&self) -> PublishModel {
        match self {
            Publish::Input(bytes) => PublishModel::Input(bytes@),
            Publish::Paste(bytes) => PublishModel::Paste(bytes@),
            Publish::Resize(cols, rows) => PublishModel::Resize(*cols, *rows),
            Publish::Scroll(lines) => PublishModel::Scroll(*lines),
        }
    }
}

/// The messages of a list.
pub open spec fn publish_models(list: Seq<Publish>) -> Seq<PublishModel> {
    Seq::new(list.len(), |i: int| list[i]@)
}

/// What an event brings about beside the new state.
#[derive(Debug, PartialEq)]
pub struct Outcome {
    pub publish: Vec<Publish>,
    /// Text for the clipboard.
    pub copy: Option<String>,
    /// The clipboard is to be read and handed to `paste`.
    pub read_clipboard: bool,
    pub redraw: bool,
    pub capture: bool,
    /// The input method is to open at the cursor.
    pub input_method: bool,
}

/// What an event brings about beside the new state.
#[verifier::ext_equal]
pub struct OutcomeModel {
    pub publish: Seq<PublishModel>,
    pub copy: Option<Seq<char>>,
    pub read_clipboard: bool,
    pub redraw: bool,
    pub capture: bool,
    pub input_method: bool,
}

impl View for Outcome {
    type V = OutcomeModel;

    open spec fn view(&self) -> OutcomeModel {
        OutcomeModel {
            publish: publish_models(self.publish@),
            copy: strings::opt_text(self.copy),
            read_clipboard: self.read_clipboard,
            redraw: self.redraw,
            capture: self.capture,
            input_method: self.input_method,
        }
    }
}

impl OutcomeModel {
    pub open spec fn nothing() -> OutcomeModel {
        OutcomeModel {
            publish: Seq::empty(),
            copy: None,
            read_clipboard: false,
            redraw: false,
            capture: false,
            input_method: false,
        }
    }

    pub open spec fn captured() -> OutcomeModel {
        OutcomeModel { capture: true, ..OutcomeModel::nothing() }
    }

    pub open spec fn redrawn() -> OutcomeModel {
        OutcomeModel { redraw: true, ..OutcomeModel::captured() }
    }
}

impl Outcome {
    fn nothing() -> (res: Outcome)
        ensures
            res@ == OutcomeModel::nothing(),
    {
        let res = Outcome {
            publish: Vec::new(),
            copy: None,
            read_clipboard: false,
            redraw: false,
            capture: false,
            input_method: false,
        };
        proof {
            assert(res@.publish =~= Seq::<PublishModel>::empty());
        }
        res
    }

    fn send(&mut self, message: Publish)
        ensures
            final(self)@ == (OutcomeModel {
                publish: old(self)@.publish.push(message@),
                ..old(self)@
            }),
    {
        let ghost before = self@.publish;
        self.publish.push(message);
        proof {
            assert(self@.publish =~= before.push(message@));
        }
    }
}

/// The messages that come before the bytes of a key or of the clipboard: a
/// terminal that was scrolled goes back to its last line.
pub open spec fn leave_history(s: StateModel) -> Seq<PublishModel> {
    if s.scrolled {
        seq![PublishModel::Scroll(SCROLL_TO_BOTTOM)]
    } else {
        Seq::empty()
    }
}

/// The cell of the history that a cell of the viewport shows.
pub open spec fn history_cell(grid: GridModel, cell: (u16, u16)) -> CellPosition {
    CellPosition { row: (grid.viewport_start + cell.0) as u64, col: cell.1 }
}

impl StateModel {
    /// A press of the left button: on an entry of the menu it copies or pastes,
    /// elsewhere it begins a selection.
    pub open spec fn left_pressed(self, grid: GridModel, press: Option<Press>) -> (
        StateModel,
        OutcomeModel,
    ) {
        match press {
            None => (
                StateModel { focused: false, preedit: None, ..self }.settled(),
                OutcomeModel::nothing(),
            ),
            Some(at) => if self.context_menu is Some && at.menu_item is Some {
                let focused = StateModel { focused: true, ..self };
                match at.menu_item->0 {
                    ContextItem::Copy => (
                        focused.seen(grid).settled(),
                        OutcomeModel { copy: self.selected(grid), ..OutcomeModel::redrawn() },
                    ),
                    ContextItem::Paste => (
                        focused.settled(),
                        OutcomeModel { read_clipboard: true, ..OutcomeModel::redrawn() },
                    ),
                }
            } else {
                (
                    StateModel {
                        focused: true,
                        selection: match at.cell {
                            Some(cell) => Some(
                                Selection {
                                    anchor: history_cell(grid, cell),
                                    head: history_cell(grid, cell),
                                },
                            ),
                            None => None,
                        },
                        selecting: at.cell is Some,
                        drag_viewport_cell: at.cell,
                        selection_rows: Map::empty(),
                        ..self
                    }.seen(grid).without_menu().changed(),
                    OutcomeModel::redrawn(),
                )
            },
        }
    }

    /// A move of the pointer: it draws a selection further, or moves over the
    /// menu. The entry for copying shows no hover while there is nothing to
    /// copy.
    pub open spec fn cursor_moved(
        self,
        grid: GridModel,
        cell: Option<(u16, u16)>,
        menu_item: Option<ContextItem>,
    ) -> (StateModel, OutcomeModel) {
        if self.selecting {
            match (cell, self.selection) {
                (Some(at), Some(sel)) => {
                    let moved = StateModel { drag_viewport_cell: cell, ..self };
                    let head = history_cell(grid, at);
                    if sel.head == head {
                        (moved, OutcomeModel::captured())
                    } else {
                        (
                            StateModel {
                                selection: Some(Selection { head, ..sel }),
                                ..moved
                            }.changed(),
                            OutcomeModel::redrawn(),
                        )
                    }
                },
                _ => (self, OutcomeModel::captured()),
            }
        } else if self.context_menu is Some {
            let looked = if menu_item == Some(ContextItem::Copy) {
                self.seen(grid)
            } else {
                self
            };
            let hovered = if menu_item == Some(ContextItem::Copy) && self.selected(grid) is None {
                None
            } else {
                menu_item
            };
            if looked.context_hover == hovered {
                (looked, OutcomeModel::captured())
            } else {
                (
                    StateModel { context_hover: hovered, ..looked }.changed(),
                    OutcomeModel::redrawn(),
                )
            }
        } else {
            (self, OutcomeModel::nothing())
        }
    }

    /// A turn of the wheel.
    pub open spec fn wheel_scrolled(self, lines: i32, remainder_bits: u32) -> (
        StateModel,
        OutcomeModel,
    ) {
        let moved = StateModel { wheel_remainder_bits: remainder_bits, ..self };
        if lines == 0 {
            (moved, OutcomeModel::captured())
        } else {
            (
                StateModel { scrolled: true, ..moved }.without_menu().changed(),
                OutcomeModel {
                    publish: seq![PublishModel::Scroll(lines)],
                    ..OutcomeModel::redrawn()
                },
            )
        }
    }

    /// A key: its bytes go to the terminal, and a shortcut copies or pastes.
    pub open spec fn key_pressed(self, grid: GridModel, press: KeyPress, platform: Platform) -> (
        StateModel,
        OutcomeModel,
    ) {
        if !self.focused || !self.window_focused {
            (self, OutcomeModel::nothing())
        } else {
            match keys::key_action(press, platform) {
                KeyActionModel::Bytes(bytes) => (
                    StateModel { scrolled: false, ..self }.without_selection().without_menu().changed(),
                    OutcomeModel {
                        publish: leave_history(self).push(PublishModel::Input(bytes)),
                        ..OutcomeModel::redrawn()
                    },
                ),
                KeyActionModel::Paste => (
                    self.without_selection().without_menu().changed(),
                    OutcomeModel { read_clipboard: true, ..OutcomeModel::redrawn() },
                ),
                KeyActionModel::Copy => (
                    self.seen(grid).without_menu().changed(),
                    OutcomeModel { copy: self.selected(grid), ..OutcomeModel::redrawn() },
                ),
                KeyActionModel::Ignore => (self, OutcomeModel::nothing()),
            }
        }
    }

    /// A new scale factor, where it is a positive finite number.
    pub open spec fn rescaled(self, bits: u32) -> (StateModel, OutcomeModel) {
        if 0 < bits < SCALE_INFINITE {
            (
                StateModel { scale_bits: bits, last_grid_size: None, ..self },
                OutcomeModel { redraw: true, ..OutcomeModel::nothing() },
            )
        } else {
            (self, OutcomeModel::nothing())
        }
    }

    /// The terminal is drawn again: a size that it did not have before is
    /// published.
    pub open spec fn redraw_requested(self, size: Option<(u16, u16)>) -> (
        StateModel,
        OutcomeModel,
    ) {
        let resized = size is Some && self.last_grid_size != size;
        (
            if resized {
                StateModel { last_grid_size: size, ..self }
            } else {
                self
            },
            OutcomeModel {
                publish: if resized {
                    seq![PublishModel::Resize((size->0).0, (size->0).1)]
                } else {
                    Seq::empty()
                },
                input_method: self.focused && self.window_focused,
                ..OutcomeModel::nothing()
            },
        )
    }

    /// What an event does to a state that belongs to the session of the grid
    /// and has looked at it.
    pub open spec fn after(self, grid: GridModel, event: Event, platform: Platform) -> (
        StateModel,
        OutcomeModel,
    ) {
        let nothing = OutcomeModel::nothing();
        match event {
            Event::LeftPressed(press) => self.left_pressed(grid, press),
            Event::CursorMoved { cell, menu_item } => self.cursor_moved(grid, cell, menu_item),
            Event::LeftReleased => if self.selecting {
                (
                    StateModel { selecting: false, drag_viewport_cell: None, ..self },
                    OutcomeModel::captured(),
                )
            } else {
                (self, nothing)
            },
            Event::RightPressed(at) => if at is Some {
                (
                    StateModel {
                        focused: true,
                        selecting: false,
                        context_menu: at,
                        context_hover: None,
                        ..self
                    }.changed(),
                    OutcomeModel::redrawn(),
                )
            } else {
                (self, nothing)
            },
            Event::WheelScrolled { lines, remainder_bits } => self.wheel_scrolled(
                lines,
                remainder_bits,
            ),
            Event::KeyPressed(press) => self.key_pressed(grid, press, platform),
            Event::InputMethodOpened => if self.focused {
                (
                    StateModel { preedit: Some(PreeditModel::blank()), ..self },
                    OutcomeModel::redrawn(),
                )
            } else {
                (self, nothing)
            },
            Event::InputMethodPreedit(preedit) => if self.focused {
                (StateModel { preedit: Some(preedit@), ..self }, OutcomeModel::redrawn())
            } else {
                (self, nothing)
            },
            Event::InputMethodCommit(content) => if self.focused {
                (
                    StateModel { preedit: Some(PreeditModel::blank()), ..self },
                    OutcomeModel {
                        publish: if content@.len() == 0 {
                            Seq::empty()
                        } else {
                            seq![PublishModel::Input(vstd::utf8::encode_utf8(content@))]
                        },
                        ..OutcomeModel::captured()
                    },
                )
            } else {
                (self, nothing)
            },
            Event::InputMethodClosed => (StateModel { preedit: None, ..self }, nothing),
            Event::WindowFocused => (
                StateModel { window_focused: true, ..self },
                OutcomeModel { redraw: self.focused, ..nothing },
            ),
            Event::WindowUnfocused => (
                StateModel { window_focused: false, preedit: None, ..self },
                nothing,
            ),
            Event::WindowRescaled(bits) => self.rescaled(bits),
            Event::RedrawRequested(size) => self.redraw_requested(size),
            Event::Other => (self, nothing),
        }
    }

    /// The state as an event finds it: it belongs to the session, and has
    /// looked at the grid.
    pub open spec fn attending(self, session_key: Seq<char>, grid: GridModel) -> StateModel {
        if self.session_key == session_key {
            self.seen(grid)
        } else {
            self.reset_for(session_key).seen(grid)
        }
    }

    /// The clipboard was read: its text goes to the terminal.
    pub open spec fn pasted(self, content: Option<Seq<char>>) -> (StateModel, Seq<PublishModel>) {
        match content {
            Some(text) => if text.len() == 0 {
                (self, Seq::empty())
            } else {
                (
                    StateModel { scrolled: false, ..self },
                    leave_history(self).push(PublishModel::Paste(vstd::utf8::encode_utf8(text))),
                )
            },
            None => (self, Seq::empty()),
        }
    }
}

impl State {
    /// An event of the terminal.
    pub fn update(
        &mut self,
        session_key: &str,
        grid: &ClientGrid,
        event: Event,
        platform: Platform,
    ) -> (res: Outcome)
        requires
            grid@.wf(),
            rows_have_numbers(grid@),
        ensures
            (final(self)@, res@) == old(self)@.attending(session_key@, grid@).after(
                grid@,
                event,
                platform,
            ),
    {
        if !strings::text_eq(self.session_key.as_str(), session_key) {
            self.reset_for_session(session_key);
        }
        self.cache_snapshot(grid);
        let mut out = Outcome::nothing();
        match event {
            Event::LeftPressed(press) => self.press_left(grid, press),
            Event::CursorMoved { cell, menu_item } => self.move_cursor(grid, cell, menu_item),
            Event::LeftReleased => {
                if self.selecting {
                    self.selecting = false;
                    self.drag_viewport_cell = None;
                    out.capture = true;
                }
                out
            },
            Event::RightPressed(at) => {
                if at.is_some() {
                    self.focused = true;
                    self.selecting = false;
                    self.context_menu = at;
                    self.context_hover = None;
                    self.touch();
                    out.redraw = true;
                    out.capture = true;
                }
                out
            },
            Event::WheelScrolled { lines, remainder_bits } => {
                self.wheel_remainder_bits = remainder_bits;
                if lines != 0 {
                    self.scrolled = true;
                    self.context_menu = None;
                    self.context_hover = None;
                    self.touch();
                    out.send(Publish::Scroll(lines));
                    out.redraw = true;
                    proof {
                        assert(out@.publish =~= seq![PublishModel::Scroll(lines)]);
                    }
                }
                out.capture = true;
                out
            },
            Event::KeyPressed(press) => self.press_key(grid, press, platform),
            Event::InputMethodOpened => {
                if self.focused {
                    self.preedit = Some(blank_preedit());
                    out.redraw = true;
                    out.capture = true;
                }
                out
            },
            Event::InputMethodPreedit(preedit) => {
                if self.focused {
                    self.preedit = Some(preedit);
                    out.redraw = true;
                    out.capture = true;
                }
                out
            },
            Event::InputMethodCommit(content) => {
                if self.focused {
                    self.preedit = Some(blank_preedit());
                    if !content.as_str().is_empty() {
                        out.send(Publish::Input(content.as_str().as_bytes_vec()));
                        proof {
                            assert(out@.publish =~= seq![
                                PublishModel::Input(vstd::utf8::encode_utf8(content@)),
                            ]);
                        }
                    }
                    out.capture = true;
                }
                out
            },
            Event::InputMethodClosed => {
                self.preedit = None;
                out
            },
            Event::WindowFocused => {
                self.window_focused = true;
                if self.focused {
                    out.redraw = true;
                }
                out
            },
            Event::WindowUnfocused => {
                self.window_focused = false;
                self.preedit = None;
                out
            },
            Event::WindowRescaled(bits) => {
                if 0 < bits && bits < SCALE_INFINITE {
                    self.scale_bits = bits;
                    self.last_grid_size = None;
                    out.redraw = true;
                }
                out
            },
            Event::RedrawRequested(size) => {
                if let Some((cols, rows)) = size {
                    let known: bool = match self.last_grid_size {
                        Some(last) => last.0 == cols && last.1 == rows,
                        None => false,
                    };
                    if !known {
                        self.last_grid_size = size;
                        out.send(Publish::Resize(cols, rows));
                        proof {
                            assert(out@.publish =~= seq![PublishModel::Resize(cols, rows)]);
                        }
                    }
                }
                out.input_method = self.focused && self.window_focused;
                out
            },
            Event::Other => out,
        }
    }

    fn press_left(&mut self, grid: &ClientGrid, press: Option<Press>) -> (res: Outcome)
        requires
            grid@.wf(),
            rows_have_numbers(grid@),
        ensures
            (final(self)@, res@) == old(self)@.left_pressed(grid@, press),
    {
        let mut out = Outcome::nothing();
        let at = match press {
            None => {
                self.focused = false;
                self.preedit = None;
                self.clear_transient_interaction();
                return out;
            },
            Some(at) => at,
        };
        self.focused = true;
        if self.context_menu.is_some() {
            if let Some(item) = at.menu_item {
                match item {
                    ContextItem::Copy => {
                        proof {
                            let plain = old(self)@;
                            assert(self@.seen(grid@).selection_rows =~= plain.seen(
                                grid@,
                            ).selection_rows);
                            assert(self@.seen(grid@).selection == plain.seen(grid@).selection);
                        }
                        out.copy = self.selected_text(grid);
                    },
                    ContextItem::Paste => {
                        out.read_clipboard = true;
                    },
                }
                self.clear_transient_interaction();
                out.redraw = true;
                out.capture = true;
                return out;
            }
        }
        match at.cell {
            Some((row, col)) => {
                let anchor = CellPosition { row: grid.viewport_start + row as u64, col };
                self.selection = Some(Selection { anchor, head: anchor });
                self.selecting = true;
            },
            None => {
                self.selection = None;
                self.selecting = false;
            },
        }
        self.drag_viewport_cell = at.cell;
        self.selection_rows.clear();
        proof {
            assert(self@.selection_rows =~= Map::<u64, Seq<ClientCell>>::empty());
        }
        self.cache_snapshot(grid);
        self.context_menu = None;
        self.context_hover = None;
        self.touch();
        out.redraw = true;
        out.capture = true;
        out
    }

    fn move_cursor(
        &mut self,
        grid: &ClientGrid,
        cell: Option<(u16, u16)>,
        menu_item: Option<ContextItem>,
    ) -> (res: Outcome)
        requires
            grid@.wf(),
            rows_have_numbers(grid@),
        ensures
            (final(self)@, res@) == old(self)@.cursor_moved(grid@, cell, menu_item),
    {
        let mut out = Outcome::nothing();
        if self.selecting {
            if let Some((row, col)) = cell {
                if let Some(selection) = self.selection {
                    let head = CellPosition { row: grid.viewport_start + row as u64, col };
                    self.drag_viewport_cell = cell;
                    if selection.head != head {
                        self.selection = Some(Selection { anchor: selection.anchor, head });
                        self.touch();
                        out.redraw = true;
                    }
                }
            }
            out.capture = true;
            return out;
        }
        if self.context_menu.is_some() {
            let mut hovered = menu_item;
            if let Some(ContextItem::Copy) = menu_item {
                if self.selected_text(grid).is_none() {
                    hovered = None;
                }
            }
            let same: bool = match (self.context_hover, hovered) {
                (None, None) => true,
                (Some(a), Some(b)) => a == b,
                _ => false,
            };
            if !same {
                self.context_hover = hovered;
                self.touch();
                out.redraw = true;
            }
            out.capture = true;
        }
        out
    }

    fn press_key(&mut self, grid: &ClientGrid, press: KeyPress, platform: Platform) -> (res:
        Outcome)
        requires
            grid@.wf(),
            rows_have_numbers(grid@),
        ensures
            (final(self)@, res@) == old(self)@.key_pressed(grid@, press, platform),
    {
        let mut out = Outcome::nothing();
        if !self.focused || !self.window_focused {
            return out;
        }
        match keys::translate_key(&press, platform) {
            KeyAction::Bytes(bytes) => {
                if self.scrolled {
                    out.send(Publish::Scroll(SCROLL_TO_BOTTOM));
                    self.scrolled = false;
                }
                proof {
                    assert(out@.publish =~= leave_history(old(self)@));
                }
                self.clear_selection();
                self.context_menu = None;
                self.context_hover = None;
                self.touch();
                out.send(Publish::Input(bytes));
            },
            KeyAction::Paste => {
                out.read_clipboard = true;
                self.clear_selection();
                self.context_menu = None;
                self.context_hover = None;
                self.touch();
            },
            KeyAction::Copy => {
                out.copy = self.selected_text(grid);
                self.context_menu = None;
                self.context_hover = None;
                self.touch();
            },
            KeyAction::Ignore => {
                return out;
            },
        }
        out.redraw = true;
        out.capture = true;
        out
    }

    /// The clipboard was read: its text goes to the terminal, as messages in
    /// order.
    pub fn paste(&mut self, content: Option<String>) -> (res: Vec<Publish>)
        ensures
            (final(self)@, publish_models(res@)) == old(self)@.pasted(strings::opt_text(content)),
    {
        let mut out = Outcome::nothing();
        if let Some(text) = content {
            if !text.as_str().is_empty() {
                if self.scrolled {
                    out.send(Publish::Scroll(SCROLL_TO_BOTTOM));
                    self.scrolled = false;
                }
                proof {
                    assert(out@.publish =~= leave_history(old(self)@));
                }
                out.send(Publish::Paste(text.as_str().as_bytes_vec()));
            }
        }
        out.publish
    }
}

/// An input method that writes nothing yet.
fn blank_preedit() -> (res: Preedit)
    ensures
        res@ == PreeditModel::blank(),
{
    let res = Preedit { content: String::new(), selection: None };
    proof {
        assert(res@.content =~= Seq::<char>::empty());
    }
    res
}

/// Bytes of a key reach the terminal only while both the terminal and its
/// window have the focus, and leave no selection and no menu behind.
pub proof fn law_keys_need_focus(
    s: StateModel,
    grid: GridModel,
    press: KeyPress,
    platform: Platform,
)
    ensures
        !(s.focused && s.window_focused) ==> s.key_pressed(grid, press, platform) == (
            s,
            OutcomeModel::nothing(),
        ),
        s.key_pressed(grid, press, platform).1.publish.len() > 0 ==> {
            let after = s.key_pressed(grid, press, platform).0;
            after.selection is None && after.context_menu is None && !after.scrolled
        },
{
}

/// A size that was published is not published again until the scale changes.
pub proof fn law_size_is_published_once(s: StateModel, size: Option<(u16, u16)>)
    ensures
        s.redraw_requested(size).0.redraw_requested(size).1.publish.len() == 0 || size is None,
        s.redraw_requested(size).0.redraw_requested(size).0 == s.redraw_requested(size).0,
{
}

/// A selection within one row copies what the cells from its first to its last
/// column show, without the padding at the end: no cell outside of these
/// columns adds to it.
pub proof fn law_selection_in_a_row(
    rows: Map<u64, Seq<ClientCell>>,
    cols: u16,
    row: u64,
    a: u16,
    b: u16,
)
    requires
        rows.contains_key(row),
        rows[row].len() == cols,
        a < b < cols,
    ensures
        ({
            let sel = Selection {
                anchor: CellPosition { row, col: a },
                head: CellPosition { row, col: b },
            };
            let text = client_grid::without_padding(
                client_grid::visible_chars(rows[row].subrange(a as int, b + 1)),
            );
            selection_text(rows, cols, Some(sel)) == (if text.len() == 0 {
                None
            } else {
                Some(text)
            })
        }),
{
    let sel = Selection {
        anchor: CellPosition { row, col: a },
        head: CellPosition { row, col: b },
    };
    let lines = selection_lines(rows, cols, sel);
    assert(lines.len() == 1);
    assert(lines[0] == selected_line(rows, cols, sel, row as int));
    assert(columns(rows[row], a as int, b as int) =~= rows[row].subrange(a as int, b + 1));
}

/// A cell is selected: it stands neither before the first nor behind the last
/// cell of the selection.
pub open spec fn is_selected(sel: Selection, row: int, col: int) -> bool {
    let (a, b) = if sel.anchor.row < sel.head.row || (sel.anchor.row == sel.head.row
        && sel.anchor.col <= sel.head.col) {
        (sel.anchor, sel.head)
    } else {
        (sel.head, sel.anchor)
    };
    &&& a.row < row || (a.row == row && a.col <= col)
    &&& row < b.row || (row == b.row && col <= b.col)
}

proof fn lemma_same_line(
    p: Map<u64, Seq<ClientCell>>,
    q: Map<u64, Seq<ClientCell>>,
    cols: u16,
    sel: Selection,
    row: int,
)
    requires
        sel.first().row <= row <= sel.last().row,
        p.contains_key(row as u64) <==> q.contains_key(row as u64),
        p.contains_key(row as u64) ==> p[row as u64].len() == cols && q[row as u64].len() == cols,
        forall|col: int|
            p.contains_key(row as u64) && 0 <= col < cols && is_selected(sel, row, col)
                ==> #[trigger] p[row as u64][col] == q[row as u64][col],
    ensures
        selected_line(p, cols, sel, row) == selected_line(q, cols, sel, row),
{
    if p.contains_key(row as u64) {
        let (x, y) = (p[row as u64], q[row as u64]);
        let from = selected_from(sel, row);
        let to = selected_to(sel, row, cols);
        assert(columns(x, from, to) =~= columns(y, from, to)) by {
            assert forall|k: int| 0 <= k < columns(x, from, to).len() implies columns(
                x,
                from,
                to,
            )[k] == columns(y, from, to)[k] by {
                assert(is_selected(sel, row, from + k));
                assert(x[from + k] == y[from + k]);
            }
        }
    }
}

/// Only selected cells are copied: where two screens agree on them, the same
/// text is copied, whatever the other cells hold.
pub proof fn law_only_selected_cells_are_copied(
    p: Map<u64, Seq<ClientCell>>,
    q: Map<u64, Seq<ClientCell>>,
    cols: u16,
    sel: Selection,
)
    requires
        forall|row: u64| #[trigger] p.contains_key(row) <==> q.contains_key(row),
        forall|row: u64| #[trigger]
            p.contains_key(row) ==> p[row].len() == cols && q[row].len() == cols,
        forall|row: u64, col: int|
            p.contains_key(row) && 0 <= col < cols && is_selected(sel, row as int, col)
                ==> #[trigger] p[row][col] == q[row][col],
    ensures
        selection_text(p, cols, Some(sel)) == selection_text(q, cols, Some(sel)),
{
    assert forall|k: int| 0 <= k < selection_lines(p, cols, sel).len() implies selection_lines(
        p,
        cols,
        sel,
    )[k] == selection_lines(q, cols, sel)[k] by {
        lemma_same_line(p, q, cols, sel, sel.first().row + k);
    }
    assert(selection_lines(p, cols, sel) =~= selection_lines(q, cols, sel));
}

/// A selection over several rows copies the end of the first row, the whole of
/// the rows between, and the beginning of the last row, one line for each.
pub proof fn law_selection_over_rows(
    rows: Map<u64, Seq<ClientCell>>,
    cols: u16,
    a: CellPosition,
    b: CellPosition,
    lines: Seq<Seq<char>>,
)
    requires
        a.row < b.row,
        a.col < cols,
        b.col < cols,
        forall|row: u64| a.row <= row <= b.row ==> #[trigger] rows.contains_key(row)
            && rows[row].len() == cols,
        lines.len() == b.row - a.row + 1,
        forall|k: int|
            0 <= k < lines.len() ==> #[trigger] lines[k] == client_grid::without_padding(
                client_grid::visible_chars(
                    rows[(a.row + k) as u64].subrange(
                        if k == 0 {
                            a.col as int
                        } else {
                            0
                        },
                        if k == b.row - a.row {
                            b.col + 1
                        } else {
                            cols as int
                        },
                    ),
                ),
            ),
    ensures
        selection_text(rows, cols, Some(Selection { anchor: a, head: b })) == Some(
            strings::joined(lines, "\n"@),
        ),
{
    let sel = Selection { anchor: a, head: b };
    assert forall|k: int| 0 <= k < lines.len() implies #[trigger] lines[k] == selected_line(
        rows,
        cols,
        sel,
        a.row + k,
    ) by {
        let row = (a.row + k) as u64;
        assert(rows.contains_key(row));
        let from = selected_from(sel, row as int);
        let to = selected_to(sel, row as int, cols);
        assert(columns(rows[row], from, to) =~= rows[row].subrange(from, to + 1));
    }
    assert(lines =~= selection_lines(rows, cols, sel));
    lemma_joined_rows_not_empty(lines);
}

proof fn lemma_joined_rows_not_empty(lines: Seq<Seq<char>>)
    requires
        lines.len() > 1,
    ensures
        strings::joined(lines, "\n"@).len() > 0,
{
    reveal_strlit("\n");
}

} // verus!
