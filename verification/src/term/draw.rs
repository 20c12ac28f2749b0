//! What is drawn for a terminal: shapes and texts in the order of drawing, in
//! rows and columns of cells.
use vstd::prelude::*;

use crate::strings;
use crate::term::client_grid::{ClientCell, ClientGrid, ColorSpec, GridModel, WIDE_SPACER};
use crate::term::frame::{BOLD, HIDDEN, ITALIC, REVERSE, STRIKEOUT, UNDERLINE, WIDE};
use crate::term::primitive;
use crate::term::primitive::{resolve_bg, resolve_text_fg};
use crate::term::widget;
use crate::term::widget::{ContextItem, MenuPoint, Selection, State, StateModel};

verus! {

/// The number of characters that one text holds at most.
pub const BATCH: usize = 32;

/// One thing to draw.
#[derive(Debug, PartialEq)]
pub enum Shape {
    /// The default background behind everything.
    Backdrop,
    /// The background of a cell.
    Fill { row: u16, col: u16, wide: bool, color: (u8, u8, u8) },
    Underline { row: u16, col: u16, wide: bool, color: (u8, u8, u8) },
    Strike { row: u16, col: u16, wide: bool, color: (u8, u8, u8) },
    /// The highlight of the selected columns of a row.
    Highlight { row: u16, start_col: u16, end_col: u16 },
    /// Characters of one style from a cell on.
    Text {
        row: u16,
        col: u16,
        content: String,
        color: (u8, u8, u8),
        bold: bool,
        italic: bool,
    },
    MenuShadow,
    MenuPanel,
    MenuHover(ContextItem),
    MenuDivider,
    MenuLabel { item: ContextItem, enabled: bool },
}

/// One thing to draw.
#[verifier::ext_equal]
pub enum ShapeModel {
    Backdrop,
    Fill { row: u16, col: u16, wide: bool, color: (u8, u8, u8) },
    Underline { row: u16, col: u16, wide: bool, color: (u8, u8, u8) },
    Strike { row: u16, col: u16, wide: bool, color: (u8, u8, u8) },
    Highlight { row: u16, start_col: u16, end_col: u16 },
    Text {
        row: u16,
        col: u16,
        content: Seq<char>,
        color: (u8, u8, u8),
        bold: bool,
        italic: bool,
    },
    MenuShadow,
    MenuPanel,
    MenuHover(ContextItem),
    MenuDivider,
    MenuLabel { item: ContextItem, enabled: bool },
}

impl View for Shape {
    type V = ShapeModel;

    open spec fn view(&self) -> ShapeModel {
        match self {
            Shape::Backdrop => ShapeModel::Backdrop,
            Shape::Fill { row, col, wide, color } => ShapeModel::Fill {
                row: *row,
                col: *col,
                wide: *wide,
                color: *color,
            },
            Shape::Underline { row, col, wide, color } => ShapeModel::Underline {
                row: *row,
                col: *col,
                wide: *wide,
                color: *color,
            },
            Shape::Strike { row, col, wide, color } => ShapeModel::Strike {
                row: *row,
                col: *col,
                wide: *wide,
                color: *color,
            },
            Shape::Highlight { row, start_col, end_col } => ShapeModel::Highlight {
                row: *row,
                start_col: *start_col,
                end_col: *end_col,
            },
            Shape::Text { row, col, content, color, bold, italic } => ShapeModel::Text {
                row: *row,
                col: *col,
                content: content@,
                color: *color,
                bold: *bold,
                italic: *italic,
            },
            Shape::MenuShadow => ShapeModel::MenuShadow,
            Shape::MenuPanel => ShapeModel::MenuPanel,
            Shape::MenuHover(item) => ShapeModel::MenuHover(*item),
            Shape::MenuDivider => ShapeModel::MenuDivider,
            Shape::MenuLabel { item, enabled } => ShapeModel::MenuLabel {
                item: *item,
                enabled: *enabled,
            },
        }
    }
}

/// The shapes of a list.
pub open spec fn shapes(list: Seq<Shape>) -> Seq<ShapeModel> {
    Seq::new(list.len(), |i: int| list[i]@)
}

/// The rows and the columns that the context menu covers, where it is open.
#[derive(Debug, PartialEq)]
pub struct MenuCover {
    pub rows: Vec<bool>,
    pub cols: Vec<bool>,
}

/// The menu covers a cell.
pub open spec fn covers(cover: Option<MenuCover>, row: int, col: int) -> bool {
    match cover {
        Some(menu) => row < menu.rows@.len() && col < menu.cols@.len() && menu.rows@[row]
            && menu.cols@[col],
        None => false,
    }
}

fn is_covered(cover: &Option<MenuCover>, row: u16, col: u16) -> (res: bool)
    ensures
        res == covers(*cover, row as int, col as int),
{
    match cover {
        Some(menu) => (row as usize) < menu.rows.len() && (col as usize) < menu.cols.len()
            && menu.rows[row as usize] && menu.cols[col as usize],
        None => false,
    }
}

// ---------------------------------------------------------------------------
// Cells
// ---------------------------------------------------------------------------

/// The cursor shows in a cell.
pub open spec fn cursor_in(grid: GridModel, cursor_on: bool, row: int, col: int) -> bool {
    cursor_on && grid.cursor_visible && row == grid.cursor_row && col == grid.cursor_col
}

/// The color of the character of a cell, and of the lines through it. Below the
/// cursor it is the color of the background.
pub open spec fn ink(cell: ClientCell, cursor: bool) -> (u8, u8, u8) {
    if cursor {
        primitive::shown_bg(cell)
    } else {
        primitive::shown_fg(cell)
    }
}

/// The shapes of a cell: its background where it has one of its own, the
/// underline and the line through it.
pub open spec fn cell_shapes(cell: ClientCell, row: u16, col: u16, cursor: bool) -> Seq<ShapeModel> {
    if cell.flags & WIDE_SPACER != 0 {
        Seq::empty()
    } else {
        let wide = cell.flags & WIDE != 0;
        let color = ink(cell, cursor);
        let fill = if cursor {
            seq![ShapeModel::Fill { row, col, wide, color: primitive::shown_fg(cell) }]
        } else if cell.bg != ColorSpec::Default || cell.flags & REVERSE != 0 {
            seq![ShapeModel::Fill { row, col, wide, color: primitive::shown_bg(cell) }]
        } else {
            Seq::empty()
        };
        let under = if cell.flags & UNDERLINE != 0 {
            seq![ShapeModel::Underline { row, col, wide, color }]
        } else {
            Seq::empty()
        };
        let strike = if cell.flags & STRIKEOUT != 0 {
            seq![ShapeModel::Strike { row, col, wide, color }]
        } else {
            Seq::empty()
        };
        fill + under + strike
    }
}

/// The shapes of the first `cols` cells of a row.
pub open spec fn row_shapes(grid: GridModel, cursor_on: bool, row: int, cols: int) -> Seq<ShapeModel>
    decreases cols,
{
    if cols <= 0 {
        Seq::empty()
    } else {
        row_shapes(grid, cursor_on, row, cols - 1) + cell_shapes(
            grid.at(row, cols - 1),
            row as u16,
            (cols - 1) as u16,
            cursor_in(grid, cursor_on, row, cols - 1),
        )
    }
}

/// The shapes of the first `rows` rows.
pub open spec fn grid_shapes(grid: GridModel, cursor_on: bool, rows: int) -> Seq<ShapeModel>
    decreases rows,
{
    if rows <= 0 {
        Seq::empty()
    } else {
        grid_shapes(grid, cursor_on, rows - 1) + row_shapes(
            grid,
            cursor_on,
            rows - 1,
            grid.cols as int,
        )
    }
}

fn push_shape(out: &mut Vec<Shape>, shape: Shape)
    ensures
        shapes(final(out)@) == shapes(old(out)@).push(shape@),
{
    let ghost before = out@;
    out.push(shape);
    proof {
        assert(shapes(out@) =~= shapes(before).push(shape@));
    }
}

fn push_cell(out: &mut Vec<Shape>, cell: &ClientCell, row: u16, col: u16, cursor: bool)
    ensures
        shapes(final(out)@) == shapes(old(out)@) + cell_shapes(*cell, row, col, cursor),
{
    let ghost before = shapes(out@);
    if cell.flags & WIDE_SPACER != 0 {
        proof {
            assert(before + Seq::<ShapeModel>::empty() =~= before);
        }
        return ;
    }
    let wide: bool = cell.flags & WIDE != 0;
    let fg = resolve_text_fg(cell);
    let bg = resolve_bg(cell);
    if cursor {
        push_shape(out, Shape::Fill { row, col, wide, color: fg });
    } else if cell.bg != ColorSpec::Default || cell.flags & REVERSE != 0 {
        push_shape(out, Shape::Fill { row, col, wide, color: bg });
    }
    let color: (u8, u8, u8) = if cursor {
        bg
    } else {
        fg
    };
    if cell.flags & UNDERLINE != 0 {
        push_shape(out, Shape::Underline { row, col, wide, color });
    }
    if cell.flags & STRIKEOUT != 0 {
        push_shape(out, Shape::Strike { row, col, wide, color });
    }
    proof {
        assert(shapes(out@) =~= before + cell_shapes(*cell, row, col, cursor));
    }
}

fn push_grid(out: &mut Vec<Shape>, grid: &ClientGrid, cursor_on: bool)
    requires
        grid@.wf(),
    ensures
        shapes(final(out)@) == shapes(old(out)@) + grid_shapes(grid@, cursor_on, grid.rows as int),
{
    let ghost start = shapes(out@);
    let mut row: u16 = 0;
    proof {
        assert(start + grid_shapes(grid@, cursor_on, 0) =~= start);
    }
    while row < grid.rows
        invariant
            row <= grid.rows,
            grid@.wf(),
            shapes(out@) == start + grid_shapes(grid@, cursor_on, row as int),
        decreases grid.rows - row,
    {
        let ghost above = shapes(out@);
        let mut col: u16 = 0;
        proof {
            assert(above + row_shapes(grid@, cursor_on, row as int, 0) =~= above);
        }
        while col < grid.cols
            invariant
                col <= grid.cols,
                row < grid.rows,
                grid@.wf(),
                shapes(out@) == above + row_shapes(grid@, cursor_on, row as int, col as int),
            decreases grid.cols - col,
        {
            let ghost before = row_shapes(grid@, cursor_on, row as int, col as int);
            if let Some(cell) = grid.cell(row, col) {
                let cursor: bool = cursor_on && grid.cursor_visible && row == grid.cursor_row && col
                    == grid.cursor_col;
                push_cell(out, cell, row, col, cursor);
                proof {
                    assert(above + (before + cell_shapes(*cell, row, col, cursor)) =~= above + before
                        + cell_shapes(*cell, row, col, cursor));
                }
            }
            col += 1;
        }
        proof {
            assert(start + (grid_shapes(grid@, cursor_on, row as int) + row_shapes(
                grid@,
                cursor_on,
                row as int,
                grid.cols as int,
            )) =~= start + grid_shapes(grid@, cursor_on, row as int) + row_shapes(
                grid@,
                cursor_on,
                row as int,
                grid.cols as int,
            ));
        }
        row += 1;
    }
}

// ---------------------------------------------------------------------------
// Selection
// ---------------------------------------------------------------------------

/// The highlight of a selection in a row of the grid.
pub open spec fn row_highlight(grid: GridModel, sel: Selection, row: int) -> Seq<ShapeModel> {
    let history_row = grid.viewport_start + row;
    let from = if history_row == sel.first().row {
        sel.first().col
    } else {
        0
    };
    let to = if history_row == sel.last().row {
        sel.last().col
    } else if grid.cols == 0 {
        0
    } else {
        (grid.cols - 1) as u16
    };
    if sel.first().row <= history_row <= sel.last().row && from <= to {
        seq![ShapeModel::Highlight { row: row as u16, start_col: from, end_col: to }]
    } else {
        Seq::empty()
    }
}

/// The highlights of a selection in the first `rows` rows.
pub open spec fn highlights(grid: GridModel, sel: Selection, rows: int) -> Seq<ShapeModel>
    decreases rows,
{
    if rows <= 0 {
        Seq::empty()
    } else {
        highlights(grid, sel, rows - 1) + row_highlight(grid, sel, rows - 1)
    }
}

/// The highlights of a selection of more than one cell.
pub open spec fn selection_shapes(grid: GridModel, selection: Option<Selection>) -> Seq<ShapeModel> {
    match selection {
        Some(sel) => if sel.anchor == sel.head {
            Seq::empty()
        } else {
            highlights(grid, sel, grid.rows as int)
        },
        None => Seq::empty(),
    }
}

fn push_selection(out: &mut Vec<Shape>, grid: &ClientGrid, selection: Option<Selection>)
    requires
        crate::term::widget::rows_have_numbers(grid@),
    ensures
        shapes(final(out)@) == shapes(old(out)@) + selection_shapes(grid@, selection),
{
    let ghost start = shapes(out@);
    proof {
        assert(start + Seq::<ShapeModel>::empty() =~= start);
    }
    let sel = match selection {
        Some(sel) => sel,
        None => return ,
    };
    if !sel.is_non_empty() {
        return ;
    }
    let (first, last) = sel.ordered();
    let mut row: u16 = 0;
    while row < grid.rows
        invariant
            row <= grid.rows,
            crate::term::widget::rows_have_numbers(grid@),
            first == sel.first(),
            last == sel.last(),
            shapes(out@) == start + highlights(grid@, sel, row as int),
        decreases grid.rows - row,
    {
        let ghost above = shapes(out@);
        let history_row: u64 = grid.viewport_start + row as u64;
        if first.row <= history_row && history_row <= last.row {
            let from: u16 = if history_row == first.row {
                first.col
            } else {
                0
            };
            let to: u16 = if history_row == last.row {
                last.col
            } else if grid.cols == 0 {
                0
            } else {
                grid.cols - 1
            };
            if from <= to {
                push_shape(out, Shape::Highlight { row, start_col: from, end_col: to });
            }
        }
        proof {
            assert(shapes(out@) =~= above + row_highlight(grid@, sel, row as int));
            assert(start + (highlights(grid@, sel, row as int) + row_highlight(
                grid@,
                sel,
                row as int,
            )) =~= start + highlights(grid@, sel, row as int) + row_highlight(
                grid@,
                sel,
                row as int,
            ));
        }
        row += 1;
    }
}

// ---------------------------------------------------------------------------
// Text
// ---------------------------------------------------------------------------

/// Characters of one style that are drawn together.
#[verifier::ext_equal]
pub struct BatchModel {
    pub start_col: u16,
    pub content: Seq<char>,
    pub color: (u8, u8, u8),
    pub bold: bool,
    pub italic: bool,
}

struct Batch {
    start_col: u16,
    content: String,
    count: usize,
    color: (u8, u8, u8),
    bold: bool,
    italic: bool,
}

impl Batch {
    spec fn model(self) -> BatchModel {
        BatchModel {
            start_col: self.start_col,
            content: self.content@,
            color: self.color,
            bold: self.bold,
            italic: self.italic,
        }
    }
}

spec fn batch_model(batch: Option<Batch>) -> Option<BatchModel> {
    match batch {
        Some(b) => Some(b.model()),
        None => None,
    }
}

/// The character of the cell is drawn.
pub open spec fn shows_glyph(cell: ClientCell, covered: bool) -> bool {
    &&& cell.flags & WIDE_SPACER == 0
    &&& cell.flags & HIDDEN == 0
    &&& !covered
    &&& cell.ch != ' '
    &&& cell.ch != '\0'
}

/// The character of the cell may be drawn together with its neighbours: it is
/// a visible character of ASCII, one column wide and not below the cursor.
pub open spec fn batchable(cell: ClientCell, covered: bool, cursor: bool) -> bool {
    &&& shows_glyph(cell, covered)
    &&& !cursor
    &&& '!' <= cell.ch <= '~'
    &&& cell.flags & WIDE == 0
}

/// The batch that begins with the character of a cell.
pub open spec fn new_batch(cell: ClientCell, col: int, cursor: bool) -> BatchModel {
    BatchModel {
        start_col: col as u16,
        content: seq![cell.ch],
        color: ink(cell, cursor),
        bold: cell.flags & BOLD != 0,
        italic: cell.flags & ITALIC != 0,
    }
}

/// The text of a batch.
pub open spec fn batch_shape(row: int, b: BatchModel) -> ShapeModel {
    ShapeModel::Text {
        row: row as u16,
        col: b.start_col,
        content: b.content,
        color: b.color,
        bold: b.bold,
        italic: b.italic,
    }
}

/// A character can join a batch: it stands next to it, has its style, and the
/// batch is not full.
pub open spec fn joins(b: BatchModel, cell: ClientCell, col: int, cursor: bool) -> bool {
    let own = new_batch(cell, col, cursor);
    &&& b.start_col + b.content.len() == col
    &&& b.color == own.color
    &&& b.bold == own.bold
    &&& b.italic == own.italic
    &&& b.content.len() < BATCH
}

/// The texts of a row so far, and the batch that the next character may join.
pub struct TextsModel {
    pub done: Seq<ShapeModel>,
    pub open_batch: Option<BatchModel>,
}

impl TextsModel {
    /// The texts with the open batch among them.
    pub open spec fn flushed(self, row: int) -> Seq<ShapeModel> {
        match self.open_batch {
            Some(b) => self.done.push(batch_shape(row, b)),
            None => self.done,
        }
    }

    /// The texts after one cell more.
    pub open spec fn then_cell(self, cell: ClientCell, row: int, col: int, covered: bool, cursor: bool) -> TextsModel {
        if batchable(cell, covered, cursor) {
            if self.open_batch is Some && joins(self.open_batch->0, cell, col, cursor) {
                let b = self.open_batch->0;
                TextsModel {
                    done: self.done,
                    open_batch: Some(BatchModel { content: b.content.push(cell.ch), ..b }),
                }
            } else {
                TextsModel {
                    done: self.flushed(row),
                    open_batch: Some(new_batch(cell, col, cursor)),
                }
            }
        } else if shows_glyph(cell, covered) {
            TextsModel {
                done: self.flushed(row).push(batch_shape(row, new_batch(cell, col, cursor))),
                open_batch: None,
            }
        } else {
            TextsModel { done: self.flushed(row), open_batch: None }
        }
    }
}

/// The texts of the first `cols` cells of a row.
pub open spec fn row_texts(
    grid: GridModel,
    cursor_on: bool,
    cover: Option<MenuCover>,
    row: int,
    cols: int,
) -> TextsModel
    decreases cols,
{
    if cols <= 0 {
        TextsModel { done: Seq::empty(), open_batch: None }
    } else {
        row_texts(grid, cursor_on, cover, row, cols - 1).then_cell(
            grid.at(row, cols - 1),
            row,
            cols - 1,
            covers(cover, row, cols - 1),
            cursor_in(grid, cursor_on, row, cols - 1),
        )
    }
}

/// The texts of the first `rows` rows.
pub open spec fn grid_texts(
    grid: GridModel,
    cursor_on: bool,
    cover: Option<MenuCover>,
    rows: int,
) -> Seq<ShapeModel>
    decreases rows,
{
    if rows <= 0 {
        Seq::empty()
    } else {
        grid_texts(grid, cursor_on, cover, rows - 1) + row_texts(
            grid,
            cursor_on,
            cover,
            rows - 1,
            grid.cols as int,
        ).flushed(rows - 1)
    }
}

fn flush(out: &mut Vec<Shape>, row: u16, batch: Option<Batch>)
    ensures
        shapes(final(out)@) == (TextsModel {
            done: shapes(old(out)@),
            open_batch: batch_model(batch),
        }).flushed(row as int),
{
    if let Some(b) = batch {
        push_shape(
            out,
            Shape::Text {
                row,
                col: b.start_col,
                content: b.content,
                color: b.color,
                bold: b.bold,
                italic: b.italic,
            },
        );
    }
}

fn glyph(cell: &ClientCell, col: u16, cursor: bool) -> (res: Batch)
    ensures
        res.model() == new_batch(*cell, col as int, cursor),
        res.count == 1,
{
    let mut content = String::new();
    content.push(cell.ch);
    proof {
        assert(content@ =~= seq![cell.ch]);
    }
    Batch {
        start_col: col,
        content,
        count: 1,
        color: if cursor {
            resolve_bg(cell)
        } else {
            resolve_text_fg(cell)
        },
        bold: cell.flags & BOLD != 0,
        italic: cell.flags & ITALIC != 0,
    }
}

/// Adds the character of one cell to the texts of a row.
fn add_cell(
    out: &mut Vec<Shape>,
    batch: Option<Batch>,
    cell: &ClientCell,
    row: u16,
    col: u16,
    covered: bool,
    cursor: bool,
) -> (res: Option<Batch>)
    requires
        batch matches Some(b) ==> b.count == b.content@.len() && b.count <= BATCH,
    ensures
        res matches Some(b) ==> b.count == b.content@.len() && b.count <= BATCH,
        ({
            let before = TextsModel { done: shapes(old(out)@), open_batch: batch_model(batch) };
            let after = before.then_cell(*cell, row as int, col as int, covered, cursor);
            shapes(final(out)@) == after.done && batch_model(res) == after.open_batch
        }),
{
    let visible: bool = cell.flags & WIDE_SPACER == 0 && cell.flags & HIDDEN == 0 && !covered
        && cell.ch != ' ' && cell.ch != '\0';
    let batched: bool = visible && !cursor && '!' <= cell.ch && cell.ch <= '~' && cell.flags & WIDE
        == 0;
    let own = glyph(cell, col, cursor);
    if batched {
        match batch {
            Some(b) => {
                if b.start_col as usize + b.count == col as usize && b.color.0 == own.color.0
                    && b.color.1 == own.color.1 && b.color.2 == own.color.2 && b.bold == own.bold
                    && b.italic == own.italic && b.count < BATCH {
                    let mut joined = b;
                    joined.content.push(cell.ch);
                    joined.count = joined.count + 1;
                    Some(joined)
                } else {
                    flush(out, row, Some(b));
                    Some(own)
                }
            },
            None => {
                flush(out, row, None);
                Some(own)
            },
        }
    } else {
        flush(out, row, batch);
        if visible {
            flush(out, row, Some(own));
        }
        None
    }
}

fn push_texts(out: &mut Vec<Shape>, grid: &ClientGrid, cursor_on: bool, cover: &Option<MenuCover>)
    requires
        grid@.wf(),
    ensures
        shapes(final(out)@) == shapes(old(out)@) + grid_texts(
            grid@,
            cursor_on,
            *cover,
            grid.rows as int,
        ),
{
    let ghost start = shapes(out@);
    let mut row: u16 = 0;
    proof {
        assert(start + grid_texts(grid@, cursor_on, *cover, 0) =~= start);
    }
    while row < grid.rows
        invariant
            row <= grid.rows,
            grid@.wf(),
            shapes(out@) == start + grid_texts(grid@, cursor_on, *cover, row as int),
        decreases grid.rows - row,
    {
        let ghost above = shapes(out@);
        let mut col: u16 = 0;
        let mut batch: Option<Batch> = None;
        proof {
            assert(above + row_texts(grid@, cursor_on, *cover, row as int, 0).done =~= above);
        }
        while col < grid.cols
            invariant
                col <= grid.cols,
                row < grid.rows,
                grid@.wf(),
                batch matches Some(b) ==> b.count == b.content@.len() && b.count <= BATCH,
                shapes(out@) == above + row_texts(
                    grid@,
                    cursor_on,
                    *cover,
                    row as int,
                    col as int,
                ).done,
                batch_model(batch) == row_texts(
                    grid@,
                    cursor_on,
                    *cover,
                    row as int,
                    col as int,
                ).open_batch,
            decreases grid.cols - col,
        {
            let ghost before = row_texts(grid@, cursor_on, *cover, row as int, col as int);
            if let Some(cell) = grid.cell(row, col) {
                let cursor: bool = cursor_on && grid.cursor_visible && row == grid.cursor_row && col
                    == grid.cursor_col;
                let covered: bool = is_covered(cover, row, col);
                batch = add_cell(out, batch, cell, row, col, covered, cursor);
                proof {
                    lemma_then_cell_prefix(
                        above,
                        before,
                        *cell,
                        row as int,
                        col as int,
                        covered,
                        cursor,
                    );
                }
            }
            col += 1;
        }
        let ghost last = row_texts(grid@, cursor_on, *cover, row as int, grid.cols as int);
        flush(out, row, batch);
        proof {
            assert(shapes(out@) =~= above + last.flushed(row as int));
            assert(start + (grid_texts(grid@, cursor_on, *cover, row as int) + last.flushed(
                row as int,
            )) =~= start + grid_texts(grid@, cursor_on, *cover, row as int) + last.flushed(
                row as int,
            ));
        }
        row += 1;
    }
}

/// What stands before the texts of a row does not matter for what follows.
proof fn lemma_then_cell_prefix(
    above: Seq<ShapeModel>,
    before: TextsModel,
    cell: ClientCell,
    row: int,
    col: int,
    covered: bool,
    cursor: bool,
)
    ensures
        ({
            let whole = TextsModel { done: above + before.done, open_batch: before.open_batch };
            let a = whole.then_cell(cell, row, col, covered, cursor);
            let b = before.then_cell(cell, row, col, covered, cursor);
            a.done == above + b.done && a.open_batch == b.open_batch
        }),
{
    let whole = TextsModel { done: above + before.done, open_batch: before.open_batch };
    assert(whole.flushed(row) =~= above + before.flushed(row));
    let own = batch_shape(row, new_batch(cell, col, cursor));
    assert(whole.flushed(row).push(own) =~= above + before.flushed(row).push(own));
}

// ---------------------------------------------------------------------------
// Menu and the whole
// ---------------------------------------------------------------------------

/// The shapes of the context menu. Its entry for copying is enabled where more
/// than one cell is selected.
pub open spec fn menu_shapes(
    open_menu: bool,
    hover: Option<ContextItem>,
    selection: Option<Selection>,
) -> Seq<ShapeModel> {
    if !open_menu {
        Seq::empty()
    } else {
        seq![ShapeModel::MenuShadow, ShapeModel::MenuPanel] + (match hover {
            Some(item) => seq![ShapeModel::MenuHover(item)],
            None => Seq::empty(),
        }) + seq![
            ShapeModel::MenuDivider,
            ShapeModel::MenuLabel {
                item: ContextItem::Copy,
                enabled: selection matches Some(sel) && sel.anchor != sel.head,
            },
            ShapeModel::MenuLabel { item: ContextItem::Paste, enabled: true },
        ]
    }
}

/// Everything that is drawn for a terminal: backgrounds and lines first, the
/// selection over them, then the texts and the menu.
pub open spec fn plan(
    grid: GridModel,
    cursor_on: bool,
    selection: Option<Selection>,
    cover: Option<MenuCover>,
    hover: Option<ContextItem>,
) -> Seq<ShapeModel> {
    seq![ShapeModel::Backdrop] + grid_shapes(grid, cursor_on, grid.rows as int) + selection_shapes(
        grid,
        selection,
    ) + grid_texts(grid, cursor_on, cover, grid.rows as int) + menu_shapes(
        cover is Some,
        hover,
        selection,
    )
}

fn push_menu(
    out: &mut Vec<Shape>,
    open_menu: bool,
    hover: Option<ContextItem>,
    selection: Option<Selection>,
)
    ensures
        shapes(final(out)@) == shapes(old(out)@) + menu_shapes(open_menu, hover, selection),
{
    let ghost before = shapes(out@);
    if open_menu {
        push_shape(out, Shape::MenuShadow);
        push_shape(out, Shape::MenuPanel);
        if let Some(item) = hover {
            push_shape(out, Shape::MenuHover(item));
        }
        push_shape(out, Shape::MenuDivider);
        let enabled: bool = match selection {
            Some(sel) => sel.is_non_empty(),
            None => false,
        };
        push_shape(out, Shape::MenuLabel { item: ContextItem::Copy, enabled });
        push_shape(out, Shape::MenuLabel { item: ContextItem::Paste, enabled: true });
    }
    proof {
        assert(shapes(out@) =~= before + menu_shapes(open_menu, hover, selection));
    }
}

/// Everything that is drawn for a terminal, in the order of drawing. `cover`
/// tells which rows and columns the context menu covers, where it is open.
pub fn draw_grid(
    grid: &ClientGrid,
    cursor_on: bool,
    selection: Option<Selection>,
    cover: &Option<MenuCover>,
    hover: Option<ContextItem>,
) -> (res: Vec<Shape>)
    requires
        grid@.wf(),
        crate::term::widget::rows_have_numbers(grid@),
    ensures
        shapes(res@) == plan(grid@, cursor_on, selection, *cover, hover),
{
    let mut out: Vec<Shape> = Vec::new();
    push_shape(&mut out, Shape::Backdrop);
    proof {
        assert(shapes(out@) =~= seq![ShapeModel::Backdrop]);
    }
    push_grid(&mut out, grid, cursor_on);
    push_selection(&mut out, grid, selection);
    push_texts(&mut out, grid, cursor_on, cover);
    push_menu(&mut out, cover.is_some(), hover, selection);
    out
}

/// What of the interaction shows in the drawing of a session.
#[derive(Debug, Clone, Copy, PartialEq, Eq)]
pub struct Overlay {
    pub selection: Option<Selection>,
    pub context_menu: Option<MenuPoint>,
    pub context_hover: Option<ContextItem>,
    pub interaction_version: u64,
}

/// The overlay of a session: nothing while the state belongs to another one.
pub open spec fn overlay_of(state: StateModel, session_key: Seq<char>) -> Overlay {
    if state.session_key == session_key {
        Overlay {
            selection: state.selection,
            context_menu: state.context_menu,
            context_hover: state.context_hover,
            interaction_version: state.interaction_version,
        }
    } else {
        Overlay {
            selection: None,
            context_menu: None,
            context_hover: None,
            interaction_version: 0,
        }
    }
}

/// The overlay of a session: nothing while the state belongs to another one.
pub fn overlay(state: &State, session_key: &str) -> (res: Overlay)
    ensures
        res == overlay_of(state@, session_key@),
{
    if strings::text_eq(state.session_key.as_str(), session_key) {
        Overlay {
            selection: state.selection,
            context_menu: state.context_menu,
            context_hover: state.context_hover,
            interaction_version: state.interaction_version,
        }
    } else {
        Overlay {
            selection: None,
            context_menu: None,
            context_hover: None,
            interaction_version: 0,
        }
    }
}

// ---------------------------------------------------------------------------
// Each character is drawn once
// ---------------------------------------------------------------------------

/// One character, where it stands and how it looks.
pub struct Glyph {
    pub row: u16,
    pub col: int,
    pub ch: char,
    pub color: (u8, u8, u8),
    pub bold: bool,
    pub italic: bool,
}

/// A character of a batch.
pub open spec fn batch_glyph(row: int, b: BatchModel, k: int) -> Glyph {
    Glyph {
        row: row as u16,
        col: b.start_col + k,
        ch: b.content[k],
        color: b.color,
        bold: b.bold,
        italic: b.italic,
    }
}

/// The characters of a batch, each in its column.
pub open spec fn batch_glyphs(row: int, b: BatchModel) -> Seq<Glyph> {
    Seq::new(b.content.len(), |k: int| batch_glyph(row, b, k))
}

/// The characters that a shape draws.
pub open spec fn shape_glyphs(shape: ShapeModel) -> Seq<Glyph> {
    match shape {
        ShapeModel::Text { row, col, content, color, bold, italic } => batch_glyphs(
            row as int,
            BatchModel { start_col: col, content, color, bold, italic },
        ),
        _ => Seq::empty(),
    }
}

/// The characters that shapes draw, in order.
pub open spec fn drawn_glyphs(list: Seq<ShapeModel>) -> Seq<Glyph>
    decreases list.len(),
{
    if list.len() == 0 {
        Seq::empty()
    } else {
        drawn_glyphs(list.drop_last()) + shape_glyphs(list.last())
    }
}

/// The characters of the first `cols` cells of a row that show, in order.
pub open spec fn visible_glyphs(
    grid: GridModel,
    cursor_on: bool,
    cover: Option<MenuCover>,
    row: int,
    cols: int,
) -> Seq<Glyph>
    decreases cols,
{
    if cols <= 0 {
        Seq::empty()
    } else {
        let before = visible_glyphs(grid, cursor_on, cover, row, cols - 1);
        let cell = grid.at(row, cols - 1);
        if shows_glyph(cell, covers(cover, row, cols - 1)) {
            before.push(
                Glyph {
                    row: row as u16,
                    col: cols - 1,
                    ch: cell.ch,
                    color: ink(cell, cursor_in(grid, cursor_on, row, cols - 1)),
                    bold: cell.flags & BOLD != 0,
                    italic: cell.flags & ITALIC != 0,
                },
            )
        } else {
            before
        }
    }
}

proof fn lemma_drawn_push(list: Seq<ShapeModel>, shape: ShapeModel)
    ensures
        drawn_glyphs(list.push(shape)) == drawn_glyphs(list) + shape_glyphs(shape),
{
    assert(list.push(shape).drop_last() =~= list);
}

proof fn lemma_flushed_glyphs(t: TextsModel, row: int)
    requires
        0 <= row <= u16::MAX,
    ensures
        drawn_glyphs(t.flushed(row)) == (match t.open_batch {
            Some(b) => drawn_glyphs(t.done) + batch_glyphs(row, b),
            None => drawn_glyphs(t.done),
        }),
{
    match t.open_batch {
        Some(b) => {
            lemma_drawn_push(t.done, batch_shape(row, b));
            assert(shape_glyphs(batch_shape(row, b)) =~= batch_glyphs(row, b));
        },
        None => {},
    }
}

proof fn lemma_own_glyph(cell: ClientCell, row: int, col: int, cursor: bool)
    requires
        0 <= col <= u16::MAX,
    ensures
        batch_glyphs(row, new_batch(cell, col, cursor)) == seq![
            Glyph {
                row: row as u16,
                col,
                ch: cell.ch,
                color: ink(cell, cursor),
                bold: cell.flags & BOLD != 0,
                italic: cell.flags & ITALIC != 0,
            },
        ],
{
    let own = new_batch(cell, col, cursor);
    assert(own.content.len() == 1);
    assert(own.content[0] == cell.ch);
    assert(batch_glyphs(row, own).len() == own.content.len());
    assert(batch_glyphs(row, own)[0].ch == cell.ch);
}

/// The texts of a row draw each of its visible characters once, in its column
/// and its style, and nothing else; one text holds at most 32 of them.
pub proof fn law_row_draws_each_glyph_once(
    grid: GridModel,
    cursor_on: bool,
    cover: Option<MenuCover>,
    row: int,
    cols: int,
)
    requires
        0 <= row <= u16::MAX,
        0 <= cols <= u16::MAX,
    ensures
        drawn_glyphs(row_texts(grid, cursor_on, cover, row, cols).flushed(row)) == visible_glyphs(
            grid,
            cursor_on,
            cover,
            row,
            cols,
        ),
        row_texts(grid, cursor_on, cover, row, cols).open_batch matches Some(b) ==> 0
            < b.content.len() <= BATCH,
    decreases cols,
{
    if cols > 0 {
        law_row_draws_each_glyph_once(grid, cursor_on, cover, row, cols - 1);
        let before = row_texts(grid, cursor_on, cover, row, cols - 1);
        let after = row_texts(grid, cursor_on, cover, row, cols);
        let cell = grid.at(row, cols - 1);
        let covered = covers(cover, row, cols - 1);
        let cursor = cursor_in(grid, cursor_on, row, cols - 1);
        let own = new_batch(cell, cols - 1, cursor);
        let g = batch_glyphs(row, own)[0];
        lemma_own_glyph(cell, row, cols - 1, cursor);
        lemma_flushed_glyphs(before, row);
        lemma_flushed_glyphs(after, row);
        if batchable(cell, covered, cursor) {
            if before.open_batch is Some && joins(before.open_batch->0, cell, cols - 1, cursor) {
                let b = before.open_batch->0;
                let grown = BatchModel { content: b.content.push(cell.ch), ..b };
                assert(batch_glyphs(row, grown) =~= batch_glyphs(row, b).push(g));
                assert(drawn_glyphs(before.done) + batch_glyphs(row, grown) =~= (drawn_glyphs(
                    before.done,
                ) + batch_glyphs(row, b)).push(g));
            } else {
                assert(drawn_glyphs(before.flushed(row)) + batch_glyphs(row, own) =~= drawn_glyphs(
                    before.flushed(row),
                ).push(g));
            }
        } else if shows_glyph(cell, covered) {
            lemma_drawn_push(before.flushed(row), batch_shape(row, own));
            assert(drawn_glyphs(before.flushed(row)) + shape_glyphs(batch_shape(row, own))
                =~= drawn_glyphs(before.flushed(row)).push(g));
        }
    }
}

/// A cell is drawn from its own place. Below its text lies its background, where
/// it has one of its own; the cursor swaps the two colors. It is underlined and
/// struck out in the color of its text, exactly where its style says so.
pub proof fn law_cells_are_drawn(cell: ClientCell, row: u16, col: u16, cursor: bool, shape: ShapeModel)
    ensures
        ({
            let drawn = cell_shapes(cell, row, col, cursor);
            let wide = cell.flags & WIDE != 0;
            let fg = primitive::shown_fg(cell);
            let bg = primitive::shown_bg(cell);
            let text = if cursor {
                bg
            } else {
                fg
            };
            let fills = cursor || cell.bg != ColorSpec::Default || cell.flags & REVERSE != 0;
            let back = ShapeModel::Fill {
                row,
                col,
                wide,
                color: if cursor {
                    fg
                } else {
                    bg
                },
            };
            let under = ShapeModel::Underline { row, col, wide, color: text };
            let strike = ShapeModel::Strike { row, col, wide, color: text };
            &&& ink(cell, cursor) == text
            &&& cell.flags & WIDE_SPACER != 0 ==> drawn.len() == 0
            &&& cell.flags & WIDE_SPACER == 0 ==> {
                &&& drawn.contains(shape) <==> {
                    ||| shape == back && fills
                    ||| shape == under && cell.flags & UNDERLINE != 0
                    ||| shape == strike && cell.flags & STRIKEOUT != 0
                }
                &&& fills ==> drawn[0] == back
            }
        }),
{
    let drawn = cell_shapes(cell, row, col, cursor);
    let wide = cell.flags & WIDE != 0;
    let fg = primitive::shown_fg(cell);
    let bg = primitive::shown_bg(cell);
    let text = if cursor {
        bg
    } else {
        fg
    };
    let fills = cursor || cell.bg != ColorSpec::Default || cell.flags & REVERSE != 0;
    let back = ShapeModel::Fill {
        row,
        col,
        wide,
        color: if cursor {
            fg
        } else {
            bg
        },
    };
    let under = ShapeModel::Underline { row, col, wide, color: text };
    let strike = ShapeModel::Strike { row, col, wide, color: text };
    if cell.flags & WIDE_SPACER == 0 {
        let a: int = if fills {
            1
        } else {
            0
        };
        let b: int = if cell.flags & UNDERLINE != 0 {
            1
        } else {
            0
        };
        if fills {
            assert(drawn[0] == back);
        }
        if cell.flags & UNDERLINE != 0 {
            assert(drawn[a] == under);
        }
        if cell.flags & STRIKEOUT != 0 {
            assert(drawn[a + b] == strike);
        }
    }
}

/// A row of the selection is highlighted in one piece.
proof fn lemma_highlights_hold(grid: GridModel, sel: Selection, rows: int, shape: ShapeModel)
    requires
        rows <= grid.rows,
    ensures
        highlights(grid, sel, rows).contains(shape) <==> exists|r: int|
            0 <= r < rows && (#[trigger] row_highlight(grid, sel, r)).contains(shape),
    decreases rows,
{
    if rows > 0 {
        let before = highlights(grid, sel, rows - 1);
        let last = row_highlight(grid, sel, rows - 1);
        lemma_highlights_hold(grid, sel, rows - 1, shape);
        let all = highlights(grid, sel, rows);
        if all.contains(shape) {
            let k = choose|k: int| 0 <= k < all.len() && all[k] == shape;
            if k < before.len() {
                assert(before[k] == shape);
            } else {
                assert(last[k - before.len()] == shape);
                assert(row_highlight(grid, sel, rows - 1).contains(shape));
            }
        }
        if before.contains(shape) {
            let k = choose|k: int| 0 <= k < before.len() && before[k] == shape;
            assert(all[k] == shape);
        }
        if last.contains(shape) {
            let k = choose|k: int| 0 <= k < last.len() && last[k] == shape;
            assert(all[before.len() + k] == shape);
        }
    }
}

/// Exactly the selected cells are highlighted.
pub proof fn law_highlight_is_the_selection(grid: GridModel, sel: Selection, row: u16, col: u16)
    requires
        sel.anchor != sel.head,
        row < grid.rows,
        col < grid.cols,
    ensures
        (exists|start_col: u16, end_col: u16|
            start_col <= col <= end_col && #[trigger] selection_shapes(grid, Some(sel)).contains(
                ShapeModel::Highlight { row, start_col, end_col },
            )) <==> widget::is_selected(sel, grid.viewport_start + row, col as int),
        selection_shapes(grid, None).len() == 0,
{
    let own = row_highlight(grid, sel, row as int);
    if widget::is_selected(sel, grid.viewport_start + row, col as int) {
        assert(own.len() == 1);
        match own[0] {
            ShapeModel::Highlight { row: r, start_col, end_col } => {
                assert(own.contains(own[0]));
                lemma_highlights_hold(grid, sel, grid.rows as int, own[0]);
                assert(selection_shapes(grid, Some(sel)).contains(
                    ShapeModel::Highlight { row, start_col, end_col },
                ));
            },
            _ => {},
        }
    }
    assert forall|start_col: u16, end_col: u16|
        start_col <= col <= end_col && #[trigger] selection_shapes(grid, Some(sel)).contains(
            ShapeModel::Highlight { row, start_col, end_col },
        ) implies widget::is_selected(sel, grid.viewport_start + row, col as int) by {
        let shape = ShapeModel::Highlight { row, start_col, end_col };
        lemma_highlights_hold(grid, sel, grid.rows as int, shape);
        let r = choose|r: int|
            0 <= r < grid.rows && (#[trigger] row_highlight(grid, sel, r)).contains(shape);
        assert(row_highlight(grid, sel, r).len() == 1);
        assert(row_highlight(grid, sel, r)[0] == shape);
    }
}

/// A character shows unless its cell is blank, hidden, covered by the menu or
/// the second half of a wide one; the cursor is where the grid has it while it
/// is on and visible.
pub proof fn law_what_shows(
    cell: ClientCell,
    covered: bool,
    grid: GridModel,
    cursor_on: bool,
    row: int,
    col: int,
)
    ensures
        cell.ch == ' ' || cell.ch == '\0' || covered || cell.flags & 0x10 != 0 || cell.flags & 0x80
            != 0 <==> !shows_glyph(cell, covered),
        cursor_in(grid, cursor_on, row, col) <==> cursor_on && grid.cursor_visible && (row, col) == (
            grid.cursor_row as int,
            grid.cursor_col as int,
        ),
{
}

/// The open menu shows both entries after everything else; copying is possible
/// exactly where something is selected. A closed one shows nothing.
pub proof fn law_menu_is_drawn(
    grid: GridModel,
    cursor_on: bool,
    selection: Option<Selection>,
    cover: Option<MenuCover>,
    hover: Option<ContextItem>,
)
    ensures
        ({
            let drawn = plan(grid, cursor_on, selection, cover, hover);
            let some = selection is Some && selection->0.anchor != selection->0.head;
            &&& drawn[0] == ShapeModel::Backdrop
            &&& cover is Some ==> drawn.len() > 2 && drawn.last() == (ShapeModel::MenuLabel {
                item: ContextItem::Paste,
                enabled: true,
            }) && drawn[drawn.len() - 2] == (ShapeModel::MenuLabel {
                item: ContextItem::Copy,
                enabled: some,
            })
            &&& cover is None ==> menu_shapes(false, hover, selection).len() == 0
            &&& menu_shapes(true, hover, selection).contains(
                ShapeModel::MenuHover(ContextItem::Copy),
            ) <==> hover == Some(ContextItem::Copy)
            &&& menu_shapes(true, hover, selection).contains(
                ShapeModel::MenuHover(ContextItem::Paste),
            ) <==> hover == Some(ContextItem::Paste)
        }),
{
    let menu = menu_shapes(true, hover, selection);
    if hover is Some {
        assert(menu[2] == ShapeModel::MenuHover(hover->0));
    }
}

/// The selection and the menu show over their own session alone.
pub proof fn law_overlay_belongs_to_its_session(state: StateModel, session_key: Seq<char>)
    ensures
        ({
            let o = overlay_of(state, session_key);
            &&& state.session_key == session_key ==> o.selection == state.selection
                && o.context_menu == state.context_menu && o.context_hover == state.context_hover
                && o.interaction_version == state.interaction_version
            &&& state.session_key != session_key ==> o.selection is None && o.context_menu is None
                && o.context_hover is None
        }),
{
}

} // verus!
