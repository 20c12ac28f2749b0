//! The visible grid of a terminal.
use vstd::prelude::*;
use vstd::slice::slice_subrange;

use crate::strings;
use crate::term::frame;
use crate::term::frame::{FrameModel, LineModel, LineUpdate, TerminalFrame};

verus! {

/// A color of a cell.
#[derive(Debug, Clone, Copy, PartialEq, Eq, Structural)]
pub enum ColorSpec {
    /// The default color of the theme.
    Default,
    /// A color of the palette of 256.
    Indexed(u8),
    /// A color in 24 bits.
    Rgb(u8, u8, u8),
}

/// The cell is the second column of a wide character.
pub const WIDE_SPACER: u8 = 0x80;

/// One visible cell.
#[derive(Debug, Clone, Copy, PartialEq, Eq, Structural)]
pub struct ClientCell {
    pub ch: char,
    pub fg: ColorSpec,
    pub bg: ColorSpec,
    pub flags: u8,
}

/// The visible screen.
#[derive(Debug, PartialEq)]
pub struct ClientGrid {
    pub rows: u16,
    pub cols: u16,
    pub cells: Vec<ClientCell>,
    pub cursor_row: u16,
    pub cursor_col: u16,
    pub cursor_visible: bool,
    /// The line of the history that the first row shows.
    pub viewport_start: u64,
    /// The sequence number of the last frame that was applied.
    pub last_seq: Option<u64>,
    /// Counts the changes of the contents: it only grows, by one each time.
    pub version: u64,
}

/// What a grid holds.
#[verifier::ext_equal]
pub struct GridModel {
    pub rows: u16,
    pub cols: u16,
    pub cells: Seq<ClientCell>,
    pub cursor_row: u16,
    pub cursor_col: u16,
    pub cursor_visible: bool,
    pub viewport_start: u64,
    pub last_seq: Option<u64>,
    pub version: u64,
}

impl View for ClientGrid {
    type V = GridModel;

    open spec fn view(&self) -> GridModel {
        GridModel {
            rows: self.rows,
            cols: self.cols,
            cells: self.cells@,
            cursor_row: self.cursor_row,
            cursor_col: self.cursor_col,
            cursor_visible: self.cursor_visible,
            viewport_start: self.viewport_start,
            last_seq: self.last_seq,
            version: self.version,
        }
    }
}

/// The cell of an empty screen.
pub open spec fn blank_cell() -> ClientCell {
    ClientCell { ch: ' ', fg: ColorSpec::Default, bg: ColorSpec::Default, flags: 0 }
}

/// `v` plus one, beginning again at zero behind the last number.
pub open spec fn next_version(v: u64) -> u64 {
    if v == u64::MAX {
        0
    } else {
        (v + 1) as u64
    }
}

impl GridModel {
    /// There is a cell for each row and column.
    pub open spec fn wf(self) -> bool {
        self.cells.len() == self.rows * self.cols
    }

    /// A blank grid.
    pub open spec fn blank(rows: u16, cols: u16) -> GridModel {
        GridModel {
            rows,
            cols,
            cells: Seq::new((rows * cols) as nat, |i: int| blank_cell()),
            cursor_row: 0,
            cursor_col: 0,
            cursor_visible: false,
            viewport_start: 0,
            last_seq: None,
            version: 0,
        }
    }

    /// The cell at a row and a column of the grid.
    pub open spec fn at(self, row: int, col: int) -> ClientCell {
        self.cells[row * self.cols + col]
    }

    /// The cells of a row.
    pub open spec fn row(self, row: int) -> Seq<ClientCell> {
        self.cells.subrange(row * self.cols, (row + 1) * self.cols)
    }

    /// The last column that an update of a line reaches.
    pub open spec fn last_col(self, line: LineModel) -> int {
        if line.end_col < self.cols {
            line.end_col as int
        } else {
            self.cols - 1
        }
    }

    /// The line update has columns of the grid to change.
    pub open spec fn touched_by(self, line: LineModel) -> bool {
        line.row < self.rows && line.start_col <= self.last_col(line)
    }

    /// The grid after a line update: the columns of its range hold the cells of
    /// its runs, and blanks where the runs give none.
    pub open spec fn with_line(self, line: LineModel) -> GridModel {
        if self.touched_by(line) {
            let from = line.row * self.cols + line.start_col;
            let to = line.row * self.cols + self.last_col(line);
            let cells = frame::expanded(line.runs, self.cols as int);
            GridModel {
                cells: Seq::new(
                    self.cells.len(),
                    |i: int|
                        if from <= i <= to {
                            if i - from < cells.len() {
                                cells[i - from]
                            } else {
                                blank_cell()
                            }
                        } else {
                            self.cells[i]
                        },
                ),
                ..self
            }
        } else {
            self
        }
    }

    /// The grid after line updates, one after another.
    pub open spec fn with_lines(self, lines: Seq<LineModel>) -> GridModel
        decreases lines.len(),
    {
        if lines.len() == 0 {
            self
        } else {
            self.with_lines(lines.drop_last()).with_line(lines.last())
        }
    }

    /// The grid after a frame.
    pub open spec fn with_frame(self, f: FrameModel) -> GridModel {
        GridModel {
            last_seq: Some(f.seq),
            cursor_row: f.cursor_row,
            cursor_col: f.cursor_col,
            cursor_visible: f.cursor_visible,
            viewport_start: f.viewport_start,
            version: next_version(self.version),
            ..self.with_lines(f.lines)
        }
    }

    /// The grid made blank. Where the size changes, it is a new one that goes on
    /// counting its changes.
    pub open spec fn after_reset(self, rows: u16, cols: u16) -> GridModel {
        if rows != self.rows || cols != self.cols {
            GridModel { version: next_version(self.version), ..GridModel::blank(rows, cols) }
        } else {
            GridModel {
                cells: GridModel::blank(rows, cols).cells,
                cursor_visible: false,
                version: next_version(self.version),
                ..self
            }
        }
    }

    /// A grid without columns takes no update of one of its rows.
    pub open spec fn takes(self, f: FrameModel) -> bool {
        self.cols > 0 || forall|i: int| 0 <= i < f.lines.len() ==> (#[trigger] f.lines[i]).row >= self.rows
    }

    /// The characters of a row from `from` to `to`, without spacers and without
    /// the blanks at the end.
    pub open spec fn row_text(self, row: int) -> Seq<char> {
        without_padding(visible_chars(self.row(row)))
    }

    /// The text of the grid: its rows, one per line.
    pub open spec fn text(self) -> Seq<char> {
        strings::joined(Seq::new(self.rows as nat, |r: int| self.row_text(r)), "\n"@)
    }
}

/// The characters of cells, without the spacers of wide characters.
pub open spec fn visible_chars(cells: Seq<ClientCell>) -> Seq<char>
    decreases cells.len(),
{
    if cells.len() == 0 {
        Seq::empty()
    } else if cells.last().flags & WIDE_SPACER == 0 {
        visible_chars(cells.drop_last()).push(cells.last().ch)
    } else {
        visible_chars(cells.drop_last())
    }
}

/// `c` fills a row behind its text.
pub open spec fn is_padding(c: char) -> bool {
    c == ' ' || c == '\0'
}

/// The text without the blanks and zero characters at its end.
pub open spec fn without_padding(s: Seq<char>) -> Seq<char>
    decreases s.len(),
{
    if s.len() > 0 && is_padding(s.last()) {
        without_padding(s.drop_last())
    } else {
        s
    }
}

/// The text without the blanks and zero characters at its end.
pub fn trim_padding(chars: &Vec<char>) -> (res: String)
    ensures
        res@ == without_padding(chars@),
{
    let mut to: usize = chars.len();
    proof {
        assert(chars@.take(to as int) =~= chars@);
    }
    while to > 0 && (chars[to - 1] == ' ' || chars[to - 1] == '\0')
        invariant
            to <= chars@.len(),
            without_padding(chars@.take(to as int)) == without_padding(chars@),
        ensures
            to <= chars@.len(),
            without_padding(chars@) == chars@.take(to as int),
        decreases to,
    {
        proof {
            assert(chars@.take(to as int).drop_last() =~= chars@.take(to - 1));
        }
        to -= 1;
    }
    let out = strings::string_of(chars, 0, to);
    proof {
        assert(out@ =~= chars@.take(to as int));
    }
    out
}

proof fn lemma_cell_index(row: int, col: int, rows: int, cols: int)
    requires
        0 <= row < rows,
        0 <= col < cols,
    ensures
        0 <= row * cols,
        row * cols + col < rows * cols,
        (row + 1) * cols <= rows * cols,
        (row + 1) * cols == row * cols + cols,
{
    assert(0 <= row * cols) by (nonlinear_arith)
        requires
            0 <= row,
            0 <= cols,
    ;
    assert((row + 1) * cols <= rows * cols) by (nonlinear_arith)
        requires
            row + 1 <= rows,
            0 <= cols,
    ;
    assert((row + 1) * cols == row * cols + cols) by (nonlinear_arith);
}

proof fn lemma_area(rows: u16, cols: u16)
    ensures
        0 <= rows * cols <= 0xfffe_0001,
{
    assert(0 <= rows * cols <= 0xfffe_0001) by (nonlinear_arith)
        requires
            0 <= rows <= 0xffff,
            0 <= cols <= 0xffff,
    ;
}

pub proof fn lemma_with_lines_shape(g: GridModel, lines: Seq<LineModel>)
    ensures
        g.with_lines(lines) == (GridModel { cells: g.with_lines(lines).cells, ..g }),
        g.with_lines(lines).cells.len() == g.cells.len(),
    decreases lines.len(),
{
    if lines.len() > 0 {
        lemma_with_lines_shape(g, lines.drop_last());
    }
}

impl Clone for ClientGrid {
    fn clone(&self) -> (copy: ClientGrid)
        ensures
            copy@ == self@,
    {
        let mut cells: Vec<ClientCell> = Vec::new();
        let mut i: usize = 0;
        while i < self.cells.len()
            invariant
                i <= self.cells@.len(),
                cells@ =~= self.cells@.take(i as int),
            decreases self.cells@.len() - i,
        {
            cells.push(self.cells[i]);
            i += 1;
        }
        ClientGrid {
            rows: self.rows,
            cols: self.cols,
            cells,
            cursor_row: self.cursor_row,
            cursor_col: self.cursor_col,
            cursor_visible: self.cursor_visible,
            viewport_start: self.viewport_start,
            last_seq: self.last_seq,
            version: self.version,
        }
    }
}

/// The cell of an empty screen.
fn blank() -> (res: ClientCell)
    ensures
        res == blank_cell(),
{
    ClientCell { ch: ' ', fg: ColorSpec::Default, bg: ColorSpec::Default, flags: 0 }
}

impl ClientGrid {
    /// A blank grid.
    pub fn new(rows: u16, cols: u16) -> (res: Self)
        ensures
            res@ == GridModel::blank(rows, cols),
            res@.wf(),
    {
        proof {
            lemma_area(rows, cols);
        }
        let area: usize = rows as usize * cols as usize;
        let mut cells: Vec<ClientCell> = Vec::new();
        let mut i: usize = 0;
        while i < area
            invariant
                i <= area,
                cells@.len() == i,
                forall|k: int| 0 <= k < i ==> cells@[k] == blank_cell(),
            decreases area - i,
        {
            cells.push(blank());
            i += 1;
        }
        let grid = ClientGrid {
            rows,
            cols,
            cells,
            cursor_row: 0,
            cursor_col: 0,
            cursor_visible: false,
            viewport_start: 0,
            last_seq: None,
            version: 0,
        };
        proof {
            assert(grid@.cells =~= GridModel::blank(rows, cols).cells);
        }
        grid
    }

    /// The cell at a row and a column; `None` outside the grid.
    pub fn cell(&self, row: u16, col: u16) -> (res: Option<&ClientCell>)
        requires
            self@.wf(),
        ensures
            match res {
                Some(cell) => row < self.rows && col < self.cols && *cell == self@.at(
                    row as int,
                    col as int,
                ),
                None => row >= self.rows || col >= self.cols,
            },
    {
        if row >= self.rows || col >= self.cols {
            return None;
        }
        proof {
            lemma_area(self.rows, self.cols);
            lemma_cell_index(row as int, col as int, self.rows as int, self.cols as int);
        }
        Some(&self.cells[row as usize * self.cols as usize + col as usize])
    }

    /// The cells of a row; `None` outside the grid.
    pub fn line_cells(&self, row: u16) -> (res: Option<&[ClientCell]>)
        requires
            self@.wf(),
        ensures
            match res {
                Some(cells) => row < self.rows && cells@ == self@.row(row as int),
                None => row >= self.rows,
            },
    {
        if row >= self.rows {
            return None;
        }
        proof {
            lemma_area(self.rows, self.cols);
            if self.cols > 0 {
                lemma_cell_index(row as int, 0, self.rows as int, self.cols as int);
            } else {
                assert(row * 0 == 0 && (row + 1) * 0 == 0);
            }
        }
        let from: usize = row as usize * self.cols as usize;
        let to: usize = from + self.cols as usize;
        proof {
            assert((row + 1) * self.cols == row * self.cols + self.cols) by (nonlinear_arith);
        }
        Some(slice_subrange(self.cells.as_slice(), from, to))
    }

    /// Makes the grid blank. Where the size changes, the grid is a new one that
    /// goes on counting its changes.
    pub fn reset(&mut self, rows: u16, cols: u16)
        requires
            old(self)@.wf(),
        ensures
            final(self)@.wf(),
            final(self)@ == old(self)@.after_reset(rows, cols),
    {
        if rows != self.rows || cols != self.cols {
            let version: u64 = self.version.wrapping_add(1);
            *self = ClientGrid::new(rows, cols);
            self.version = version;
            return ;
        }
        let mut i: usize = 0;
        while i < self.cells.len()
            invariant
                i <= self.cells@.len(),
                self.cells@.len() == old(self).cells@.len(),
                self@ == (GridModel { cells: self.cells@, ..old(self)@ }),
                forall|k: int| 0 <= k < i ==> self.cells@[k] == blank_cell(),
            decreases self.cells@.len() - i,
        {
            self.cells.set(i, blank());
            i += 1;
        }
        self.cursor_visible = false;
        self.version = self.version.wrapping_add(1);
        proof {
            assert(self.cells@ =~= GridModel::blank(rows, cols).cells);
        }
    }

    /// Whether the grid takes a frame.
    pub fn fits(&self, f: &TerminalFrame) -> (res: bool)
        ensures
            res == self@.takes(f@),
    {
        if self.cols > 0 {
            return true;
        }
        let mut i: usize = 0;
        while i < f.lines.len()
            invariant
                i <= f.lines@.len(),
                self.cols == 0,
                forall|k: int| 0 <= k < i ==> (#[trigger] f@.lines[k]).row >= self.rows,
            decreases f.lines@.len() - i,
        {
            if f.lines[i].row < self.rows {
                proof {
                    assert(f@.lines[i as int].row < self.rows);
                }
                return false;
            }
            i += 1;
        }
        true
    }

    /// Applies a frame: its line updates, its cursor and its sequence number.
    pub fn apply_frame(&mut self, frame: &TerminalFrame)
        requires
            old(self)@.wf(),
            old(self)@.takes(frame@),
        ensures
            final(self)@.wf(),
            final(self)@ == old(self)@.with_frame(frame@),
    {
        self.last_seq = Some(frame.seq);
        self.cursor_row = frame.cursor_row;
        self.cursor_col = frame.cursor_col;
        self.cursor_visible = frame.cursor_visible;
        self.viewport_start = frame.viewport_start;
        let ghost start = self@;
        let ghost lines = frame::line_models(frame.lines@);
        let mut i: usize = 0;
        proof {
            assert(lines.take(0) =~= Seq::<LineModel>::empty());
        }
        while i < frame.lines.len()
            invariant
                i <= frame.lines@.len(),
                lines == frame::line_models(frame.lines@),
                start.wf(),
                start.takes(frame@),
                self@ == start.with_lines(lines.take(i as int)),
                self@.wf(),
                self.rows == start.rows,
                self.cols == start.cols,
            decreases frame.lines@.len() - i,
        {
            proof {
                assert(lines.take(i + 1).drop_last() =~= lines.take(i as int));
                assert(frame@.lines[i as int] == frame.lines@[i as int]@);
            }
            self.apply_line(&frame.lines[i]);
            i += 1;
        }
        proof {
            assert(lines.take(i as int) =~= lines);
            lemma_with_lines_shape(start, lines);
            lemma_with_lines_shape(old(self)@, lines);
            lemma_with_lines_same_cells(start, old(self)@, lines);
        }
        self.version = self.version.wrapping_add(1);
    }

    /// Applies the update of one line.
    fn apply_line(&mut self, line: &LineUpdate)
        requires
            old(self)@.wf(),
            old(self).cols > 0 || line.row >= old(self).rows,
        ensures
            final(self)@.wf(),
            final(self)@ == old(self)@.with_line(line@),
    {
        if line.row >= self.rows {
            return ;
        }
        let cols: usize = self.cols as usize;
        let end: usize = if (line.end_col as usize) < cols {
            line.end_col as usize
        } else {
            cols - 1
        };
        let start: usize = line.start_col as usize;
        if start > end {
            return ;
        }
        proof {
            lemma_area(self.rows, self.cols);
            lemma_cell_index(line.row as int, end as int, self.rows as int, self.cols as int);
        }
        let row_base: usize = line.row as usize * cols;
        let buf = self.expand_runs(line);
        let ghost before = self@;
        let ghost goal = before.with_line(line@).cells;
        let ghost from = row_base + start;
        let mut col: usize = start;
        while col <= end
            invariant
                start <= col <= end + 1,
                end < cols,
                cols == self.cols,
                row_base + end < self.cells@.len(),
                row_base + end < usize::MAX,
                self.cells@.len() == before.cells.len(),
                self@ == (GridModel { cells: self.cells@, ..before }),
                buf@ == frame::expanded(line.runs@, before.cols as int),
                before.touched_by(line@),
                end == before.last_col(line@),
                start == line.start_col,
                row_base == line.row * before.cols,
                goal == before.with_line(line@).cells,
                from == row_base + start,
                forall|k: int| 0 <= k < before.cells.len() ==> #[trigger] self.cells@[k] == (if k < row_base + col {
                    goal[k]
                } else {
                    before.cells[k]
                }),
            decreases end + 1 - col,
        {
            let k: usize = col - start;
            if k < buf.len() {
                self.cells.set(row_base + col, buf[k]);
            } else {
                self.cells.set(row_base + col, blank());
            }
            col += 1;
        }
        proof {
            assert(self.cells@ =~= goal);
        }
    }

    /// The cells that the runs of a line give.
    fn expand_runs(&self, line: &LineUpdate) -> (res: Vec<ClientCell>)
        ensures
            res@ == frame::expanded(line.runs@, self.cols as int),
    {
        let mut buf: Vec<ClientCell> = Vec::new();
        let mut i: usize = 0;
        proof {
            assert(line.runs@.take(0) =~= Seq::<frame::Run>::empty());
        }
        while i < line.runs.len()
            invariant
                i <= line.runs@.len(),
                buf@ == frame::expanded(line.runs@.take(i as int), self.cols as int),
            decreases line.runs@.len() - i,
        {
            proof {
                frame::lemma_expanded_fits(line.runs@.take(i as int), self.cols as int);
                assert(line.runs@.take(i + 1).drop_last() =~= line.runs@.take(i as int));
            }
            frame::expand_run(&line.runs[i], &mut buf, self.cols);
            i += 1;
        }
        proof {
            assert(line.runs@.take(i as int) =~= line.runs@);
        }
        buf
    }

    /// The text of the grid: its rows without spacers and without the blanks at
    /// their ends, one per line.
    pub fn plain_text(&self) -> (res: String)
        requires
            self@.wf(),
        ensures
            res@ == self@.text(),
    {
        let mut lines: Vec<String> = Vec::new();
        let mut row: u16 = 0;
        while row < self.rows
            invariant
                row <= self.rows,
                self@.wf(),
                lines@.len() == row,
                forall|r: int| 0 <= r < row ==> (#[trigger] lines@[r])@ == self@.row_text(r),
            decreases self.rows - row,
        {
            let text = match self.line_cells(row) {
                Some(cells) => {
                    let chars = visible(cells);
                    trim_padding(&chars)
                },
                None => String::new(),
            };
            lines.push(text);
            row += 1;
        }
        proof {
            assert(strings::texts(lines@) =~= Seq::new(
                self.rows as nat,
                |r: int| self@.row_text(r),
            ));
        }
        strings::join(&lines, "\n")
    }
}

/// The characters of cells, without the spacers of wide characters.
pub fn visible(cells: &[ClientCell]) -> (res: Vec<char>)
    ensures
        res@ == visible_chars(cells@),
{
    let mut out: Vec<char> = Vec::new();
    let mut i: usize = 0;
    proof {
        assert(cells@.take(0) =~= Seq::<ClientCell>::empty());
    }
    while i < cells.len()
        invariant
            i <= cells@.len(),
            out@ == visible_chars(cells@.take(i as int)),
        decreases cells@.len() - i,
    {
        proof {
            assert(cells@.take(i + 1).drop_last() =~= cells@.take(i as int));
        }
        if cells[i].flags & WIDE_SPACER == 0 {
            out.push(cells[i].ch);
        }
        i += 1;
    }
    proof {
        assert(cells@.take(i as int) =~= cells@);
    }
    out
}

proof fn lemma_with_lines_same_cells(a: GridModel, b: GridModel, lines: Seq<LineModel>)
    requires
        a.rows == b.rows,
        a.cols == b.cols,
        a.cells == b.cells,
    ensures
        a.with_lines(lines).cells == b.with_lines(lines).cells,
    decreases lines.len(),
{
    if lines.len() > 0 {
        lemma_with_lines_same_cells(a, b, lines.drop_last());
        lemma_with_lines_shape(a, lines.drop_last());
        lemma_with_lines_shape(b, lines.drop_last());
        assert(a.with_lines(lines).cells =~= b.with_lines(lines).cells);
    }
}

/// A frame, and a reset to any size, gives the grid the next version, which is
/// greater by one as long as the number fits. So what was drawn of the grid
/// before is never taken for what it holds now.
pub proof fn law_changes_give_another_version(g: GridModel, f: FrameModel, rows: u16, cols: u16)
    ensures
        g.with_frame(f).version == next_version(g.version),
        g.after_reset(rows, cols).version == next_version(g.version),
        next_version(g.version) != g.version,
        g.version < u64::MAX ==> next_version(g.version) == g.version + 1,
{
}

/// A frame keeps the size of the grid, and changes no cell that none of its
/// lines touches.
pub proof fn law_frame_changes_only_its_lines(g: GridModel, f: FrameModel, row: int, col: int)
    requires
        g.wf(),
        0 <= row < g.rows,
        0 <= col < g.cols,
        forall|i: int|
            0 <= i < f.lines.len() ==> !((#[trigger] f.lines[i]).row == row && f.lines[i].start_col
                <= col <= f.lines[i].end_col),
    ensures
        g.with_frame(f).wf(),
        g.with_frame(f).rows == g.rows,
        g.with_frame(f).cols == g.cols,
        g.with_frame(f).at(row, col) == g.at(row, col),
{
    lemma_with_lines_shape(g, f.lines);
    lemma_untouched_cell(g, f.lines, row, col);
}

proof fn lemma_untouched_cell(g: GridModel, lines: Seq<LineModel>, row: int, col: int)
    requires
        g.wf(),
        0 <= row < g.rows,
        0 <= col < g.cols,
        forall|i: int|
            0 <= i < lines.len() ==> !((#[trigger] lines[i]).row == row && lines[i].start_col <= col
                <= lines[i].end_col),
    ensures
        g.with_lines(lines).at(row, col) == g.at(row, col),
    decreases lines.len(),
{
    if lines.len() > 0 {
        let before = g.with_lines(lines.drop_last());
        let line = lines.last();
        lemma_untouched_cell(g, lines.drop_last(), row, col);
        lemma_with_lines_shape(g, lines.drop_last());
        lemma_cell_index(row, col, g.rows as int, g.cols as int);
        assert(lines[lines.len() - 1] == line);
        if before.touched_by(line) && line.row != row {
            if line.row < row {
                lemma_row_order(line.row as int, row, g.cols as int);
            } else {
                lemma_row_order(row, line.row as int, g.cols as int);
            }
        }
    }
}

proof fn lemma_row_order(a: int, b: int, cols: int)
    requires
        a < b,
        cols >= 0,
    ensures
        a * cols + cols <= b * cols,
{
    assert(a * cols + cols <= b * cols) by (nonlinear_arith)
        requires
            a + 1 <= b,
            cols >= 0,
    ;
}

/// A frame with an update of a whole row determines that row: it holds the
/// cells of the runs, and blanks behind them.
pub proof fn law_whole_row_update(g: GridModel, line: LineModel, col: int)
    requires
        g.wf(),
        line.row < g.rows,
        line.start_col == 0,
        line.end_col + 1 >= g.cols,
        0 <= col < g.cols,
    ensures
        g.with_line(line).at(line.row as int, col) == (if col < frame::expanded(
            line.runs,
            g.cols as int,
        ).len() {
            frame::expanded(line.runs, g.cols as int)[col]
        } else {
            blank_cell()
        }),
{
    lemma_cell_index(line.row as int, col, g.rows as int, g.cols as int);
}

/// The 256 colors: 16 of the theme, the color cube and the grays.
pub open spec fn palette(idx: u8) -> (u8, u8, u8) {
    if idx < 16 {
        theme_color(idx)
    } else if idx < 232 {
        let n = idx - 16;
        (cube_level(n / 36), cube_level((n / 6) % 6), cube_level(n % 6))
    } else {
        let gray = (8 + (idx - 232) * 10) as u8;
        (gray, gray, gray)
    }
}

/// The level of a step of the color cube.
pub open spec fn cube_level(v: int) -> u8 {
    if v == 0 {
        0
    } else {
        (55 + v * 40) as u8
    }
}

/// The first 16 colors.
pub open spec fn theme_color(idx: u8) -> (u8, u8, u8) {
    match idx {
        0 => (0x1d, 0x1f, 0x21),
        1 => (0xcc, 0x66, 0x66),
        2 => (0xb5, 0xbd, 0x68),
        3 => (0xf0, 0xc6, 0x74),
        4 => (0x81, 0xa2, 0xbe),
        5 => (0xb2, 0x94, 0xbb),
        6 => (0x8a, 0xbe, 0xb7),
        7 => (0xc5, 0xc8, 0xc6),
        8 => (0x66, 0x66, 0x66),
        9 => (0xd5, 0x4e, 0x53),
        10 => (0xb9, 0xca, 0x4a),
        11 => (0xe7, 0xc5, 0x47),
        12 => (0x7a, 0xa6, 0xda),
        13 => (0xc3, 0x97, 0xd8),
        14 => (0x70, 0xc0, 0xb1),
        _ => (0xea, 0xea, 0xea),
    }
}

fn cube(v: u8) -> (res: u8)
    requires
        v < 6,
    ensures
        res == cube_level(v as int),
{
    if v == 0 {
        0
    } else {
        55 + v * 40
    }
}

/// The color of a number of the palette.
pub fn indexed_color(idx: u8) -> (res: (u8, u8, u8))
    ensures
        res == palette(idx),
{
    if idx < 16 {
        return match idx {
            0 => (0x1d, 0x1f, 0x21),
            1 => (0xcc, 0x66, 0x66),
            2 => (0xb5, 0xbd, 0x68),
            3 => (0xf0, 0xc6, 0x74),
            4 => (0x81, 0xa2, 0xbe),
            5 => (0xb2, 0x94, 0xbb),
            6 => (0x8a, 0xbe, 0xb7),
            7 => (0xc5, 0xc8, 0xc6),
            8 => (0x66, 0x66, 0x66),
            9 => (0xd5, 0x4e, 0x53),
            10 => (0xb9, 0xca, 0x4a),
            11 => (0xe7, 0xc5, 0x47),
            12 => (0x7a, 0xa6, 0xda),
            13 => (0xc3, 0x97, 0xd8),
            14 => (0x70, 0xc0, 0xb1),
            _ => (0xea, 0xea, 0xea),
        };
    }
    if idx < 232 {
        let n: u8 = idx - 16;
        return (cube(n / 36), cube((n / 6) % 6), cube(n % 6));
    }
    let gray: u8 = 8 + (idx - 232) * 10;
    (gray, gray, gray)
}

/// The line update reaches a cell of the grid.
pub open spec fn reaches(g: GridModel, line: LineModel, row: int, col: int) -> bool {
    line.row == row && line.start_col <= col <= line.end_col && row < g.rows && col < g.cols
}

/// The cell that a line update gives a column of its range: of the cells that
/// its runs expand to, the one as far from the first as the column is from the
/// start of the range, and a blank where there are fewer.
pub proof fn law_line_update_places_its_cells(g: GridModel, line: LineModel, col: int)
    requires
        g.wf(),
        reaches(g, line, line.row as int, col),
    ensures
        ({
            let given = frame::expanded(line.runs, g.cols as int);
            let got = g.with_line(line).at(line.row as int, col);
            &&& col - line.start_col < given.len() ==> got == given[col - line.start_col]
            &&& col - line.start_col >= given.len() ==> got == (ClientCell {
                ch: ' ',
                fg: ColorSpec::Default,
                bg: ColorSpec::Default,
                flags: 0,
            })
        }),
{
    lemma_cell_index(line.row as int, col, g.rows as int, g.cols as int);
}

proof fn lemma_later_lines_keep(g: GridModel, lines: Seq<LineModel>, i: int, row: int, col: int)
    requires
        g.wf(),
        0 <= i <= lines.len(),
        0 <= row < g.rows,
        0 <= col < g.cols,
        forall|j: int| i <= j < lines.len() ==> !reaches(g, #[trigger] lines[j], row, col),
    ensures
        g.with_lines(lines).at(row, col) == g.with_lines(lines.take(i)).at(row, col),
    decreases lines.len() - i,
{
    lemma_with_lines_shape(g, lines.take(i));
    if i == lines.len() {
        assert(lines.take(i) =~= lines);
    } else {
        let next = lines.take(i + 1);
        assert(next.drop_last() =~= lines.take(i));
        assert(next.last() == lines[i]);
        lemma_later_lines_keep(g, lines, i + 1, row, col);
        let one = seq![lines[i]];
        let before = g.with_lines(lines.take(i));
        assert(one.drop_last() =~= Seq::<LineModel>::empty());
        assert(before.with_lines(one.drop_last()) == before);
        assert(before.with_lines(one) == before.with_line(lines[i]));
        lemma_untouched_cell(before, one, row, col);
    }
}

/// After a frame a cell holds what the last line update that reaches it gives
/// it, whatever column the update begins at.
pub proof fn law_frame_shows_the_last_update(g: GridModel, f: FrameModel, i: int, col: int)
    requires
        g.wf(),
        0 <= i < f.lines.len(),
        reaches(g, f.lines[i], f.lines[i].row as int, col),
        forall|j: int|
            i < j < f.lines.len() ==> !reaches(g, #[trigger] f.lines[j], f.lines[i].row as int, col),
    ensures
        ({
            let line = f.lines[i];
            let given = frame::expanded(line.runs, g.cols as int);
            let got = g.with_frame(f).at(line.row as int, col);
            &&& col - line.start_col < given.len() ==> got == given[col - line.start_col]
            &&& col - line.start_col >= given.len() ==> got == (ClientCell {
                ch: ' ',
                fg: ColorSpec::Default,
                bg: ColorSpec::Default,
                flags: 0,
            })
        }),
{
    let line = f.lines[i];
    let upto = f.lines.take(i + 1);
    assert(upto.drop_last() =~= f.lines.take(i));
    assert(upto.last() == line);
    let before = g.with_lines(f.lines.take(i));
    lemma_with_lines_shape(g, f.lines.take(i));
    lemma_with_lines_shape(g, f.lines);
    law_line_update_places_its_cells(before, line, col);
    lemma_later_lines_keep(g, f.lines, i + 1, line.row as int, col);
}

/// A frame moves the cursor to where it says, and its number is kept.
pub proof fn law_frame_moves_the_cursor(g: GridModel, f: FrameModel)
    ensures
        g.with_frame(f).cursor_row == f.cursor_row,
        g.with_frame(f).cursor_col == f.cursor_col,
        g.with_frame(f).cursor_visible == f.cursor_visible,
        g.with_frame(f).viewport_start == f.viewport_start,
        g.with_frame(f).last_seq == Some(f.seq),
{
}

/// After a reset every cell is blank, the cursor is hidden, and the grid has
/// the size that was asked for.
pub proof fn law_reset_leaves_a_blank_grid(
    g: GridModel,
    rows: u16,
    cols: u16,
    row: int,
    col: int,
)
    requires
        0 <= row < rows,
        0 <= col < cols,
    ensures
        ({
            let after = g.after_reset(rows, cols);
            &&& after.rows == rows
            &&& after.cols == cols
            &&& !after.cursor_visible
            &&& after.at(row, col) == (ClientCell {
                ch: ' ',
                fg: ColorSpec::Default,
                bg: ColorSpec::Default,
                flags: 0,
            })
        }),
{
    lemma_cell_index(row, col, rows as int, cols as int);
}

/// The text of cells is that of each of them, one after another: its
/// character, or nothing where it is the second column of a wide one.
pub proof fn law_visible_characters(a: Seq<ClientCell>, b: Seq<ClientCell>, cell: ClientCell)
    ensures
        visible_chars(a + b) == visible_chars(a) + visible_chars(b),
        visible_chars(seq![cell]) == (if cell.flags & 0x80 != 0 {
            Seq::<char>::empty()
        } else {
            seq![cell.ch]
        }),
        visible_chars(Seq::empty()) == Seq::<char>::empty(),
    decreases b.len(),
{
    reveal_with_fuel(visible_chars, 2);
    assert(seq![cell].drop_last() =~= Seq::<ClientCell>::empty());
    if b.len() == 0 {
        assert(a + b =~= a);
        assert(visible_chars(a) + visible_chars(b) =~= visible_chars(a));
    } else {
        law_visible_characters(a, b.drop_last(), cell);
        assert((a + b).drop_last() =~= a + b.drop_last());
        assert((a + b).last() == b.last());
        assert(visible_chars(a + b) =~= visible_chars(a) + visible_chars(b));
    }
}

/// Of a text only the blanks and zero characters at its end are taken away, and
/// all of them.
pub proof fn law_only_padding_is_dropped(s: Seq<char>, i: int)
    ensures
        without_padding(s).len() <= s.len(),
        without_padding(s) == s.take(without_padding(s).len() as int),
        without_padding(s).len() <= i < s.len() ==> s[i] == ' ' || s[i] == '\0',
        without_padding(s).len() > 0 ==> {
            let last = without_padding(s).last();
            last != ' ' && last != '\0'
        },
    decreases s.len(),
{
    if s.len() > 0 && is_padding(s.last()) {
        law_only_padding_is_dropped(s.drop_last(), i);
        let n = without_padding(s).len() as int;
        assert(s.drop_last().take(n) =~= s.take(n));
    } else {
        assert(s.take(s.len() as int) =~= s);
    }
}

/// The text of a grid has a line for each row, with what the cells of the row
/// show and without the padding behind it.
pub proof fn law_text_has_a_line_per_row(g: GridModel, lines: Seq<Seq<char>>)
    requires
        lines.len() == g.rows,
        forall|r: int|
            0 <= r < lines.len() ==> #[trigger] lines[r] == without_padding(
                visible_chars(g.cells.subrange(r * g.cols, r * g.cols + g.cols)),
            ),
    ensures
        g.text() == strings::joined(lines, "\n"@),
{
    assert forall|r: int| 0 <= r < lines.len() implies #[trigger] lines[r] == g.row_text(r) by {
        assert((r + 1) * g.cols == r * g.cols + g.cols) by (nonlinear_arith);
    }
    assert(lines =~= Seq::new(g.rows as nat, |r: int| g.row_text(r)));
}

/// The colors of the palette behind the first 16: the cube of six levels for
/// red, green and blue, and 24 grays in steps of ten.
pub proof fn law_palette(r: u8, g: u8, b: u8, gray: u8)
    requires
        r < 6,
        g < 6,
        b < 6,
        gray < 24,
    ensures
        ({
            let level = |v: u8|
                if v == 0 {
                    0u8
                } else {
                    (55 + 40 * v) as u8
                };
            &&& palette((16 + 36 * r + 6 * g + b) as u8) == (level(r), level(g), level(b))
            &&& palette((232 + gray) as u8) == (
                (8 + 10 * gray) as u8,
                (8 + 10 * gray) as u8,
                (8 + 10 * gray) as u8,
            )
        }),
{
}

} // verus!
