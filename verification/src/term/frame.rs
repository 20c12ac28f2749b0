//! Decoding of terminal frames.
//!
//! A frame is, in big endian:
//!
//! ```text
//! [seq: u64][cursor_row: u16][cursor_col: u16][cursor_visible: u8]
//! [line_count: u16]
//!   each line:
//!     [row: u16][start_col: u16][end_col: u16]
//!     [run_count: u16]
//!       each run:
//!         [run_len: u16][flags: u8][fg_tag: u8][fg payload]
//!         [bg_tag: u8][bg payload][char_len: u8][char bytes]
//! ```
use vstd::prelude::*;
use vstd::slice::slice_subrange;

use crate::strings;
use crate::term::client_grid::{ClientCell, ColorSpec, WIDE_SPACER};

verus! {

pub const BOLD: u8 = 0x01;

pub const ITALIC: u8 = 0x02;

pub const UNDERLINE: u8 = 0x04;

pub const REVERSE: u8 = 0x08;

pub const HIDDEN: u8 = 0x10;

pub const STRIKEOUT: u8 = 0x20;

/// The cell holds a character that is two columns wide.
pub const WIDE: u8 = 0x40;

pub const COLOR_DEFAULT: u8 = 0x00;

pub const COLOR_INDEXED: u8 = 0x01;

pub const COLOR_RGB: u8 = 0x02;

/// A run of cells that differ in nothing.
#[derive(Debug, Clone, Copy, PartialEq, Eq, Structural)]
pub struct Run {
    pub len: u16,
    pub flags: u8,
    pub fg: ColorSpec,
    pub bg: ColorSpec,
    pub ch: char,
}

/// The update of a range of columns of one row.
#[derive(Debug, Clone, PartialEq)]
pub struct LineUpdate {
    pub row: u16,
    pub start_col: u16,
    pub end_col: u16,
    pub runs: Vec<Run>,
}

/// What a line update holds.
#[verifier::ext_equal]
pub struct LineModel {
    pub row: u16,
    pub start_col: u16,
    pub end_col: u16,
    pub runs: Seq<Run>,
}

impl View for LineUpdate {
    type V = LineModel;

    open spec fn view(&self) -> LineModel {
        LineModel {
            row: self.row,
            start_col: self.start_col,
            end_col: self.end_col,
            runs: self.runs@,
        }
    }
}

/// A decoded frame. `viewport_start` is the line of the history that the first
/// row of the frame shows.
#[derive(Debug, Clone, PartialEq)]
pub struct TerminalFrame {
    pub seq: u64,
    pub cursor_row: u16,
    pub cursor_col: u16,
    pub cursor_visible: bool,
    pub viewport_start: u64,
    pub lines: Vec<LineUpdate>,
}

/// What a frame holds.
#[verifier::ext_equal]
pub struct FrameModel {
    pub seq: u64,
    pub cursor_row: u16,
    pub cursor_col: u16,
    pub cursor_visible: bool,
    pub viewport_start: u64,
    pub lines: Seq<LineModel>,
}

/// The line updates of a list.
pub open spec fn line_models(lines: Seq<LineUpdate>) -> Seq<LineModel> {
    Seq::new(lines.len(), |i: int| lines[i]@)
}

impl View for TerminalFrame {
    type V = FrameModel;

    open spec fn view(&self) -> FrameModel {
        FrameModel {
            seq: self.seq,
            cursor_row: self.cursor_row,
            cursor_col: self.cursor_col,
            cursor_visible: self.cursor_visible,
            viewport_start: self.viewport_start,
            lines: line_models(self.lines@),
        }
    }
}

// ---------------------------------------------------------------------------
// The format
// ---------------------------------------------------------------------------

/// The number that bytes write in big endian.
pub open spec fn big_endian(bytes: Seq<u8>) -> nat
    decreases bytes.len(),
{
    if bytes.len() == 0 {
        0
    } else {
        256 * big_endian(bytes.drop_last()) + bytes.last() as nat
    }
}

/// The `n` bytes at position `at`.
pub open spec fn bytes_at(b: Seq<u8>, at: int, n: int) -> Option<Seq<u8>> {
    if at + n <= b.len() {
        Some(b.subrange(at, at + n))
    } else {
        None
    }
}

/// The number that the `n` bytes at position `at` write.
pub open spec fn number_at(b: Seq<u8>, at: int, n: int) -> Option<nat> {
    match bytes_at(b, at, n) {
        Some(bytes) => Some(big_endian(bytes)),
        None => None,
    }
}

/// The color at position `at`, and the position behind it.
pub open spec fn color_at(b: Seq<u8>, at: int) -> Option<(ColorSpec, int)> {
    if at + 1 > b.len() {
        None
    } else if b[at] == COLOR_DEFAULT {
        Some((ColorSpec::Default, at + 1))
    } else if b[at] == COLOR_INDEXED && at + 2 <= b.len() {
        Some((ColorSpec::Indexed(b[at + 1]), at + 2))
    } else if b[at] == COLOR_RGB && at + 4 <= b.len() {
        Some((ColorSpec::Rgb(b[at + 1], b[at + 2], b[at + 3]), at + 4))
    } else {
        None
    }
}

/// The character that the bytes begin with, where they are UTF-8 and not empty.
pub open spec fn leading_char(bytes: Seq<u8>) -> Option<char> {
    if bytes.len() > 0 && vstd::utf8::valid_utf8(bytes) {
        Some(vstd::utf8::decode_utf8(bytes)[0])
    } else {
        None
    }
}

/// The character at position `at`, behind the byte that gives its length, and
/// the position behind it.
pub open spec fn char_at(b: Seq<u8>, at: int) -> Option<(char, int)> {
    if at + 1 > b.len() {
        None
    } else {
        match bytes_at(b, at + 1, b[at] as int) {
            Some(bytes) => match leading_char(bytes) {
                Some(ch) => Some((ch, at + 1 + b[at])),
                None => None,
            },
            None => None,
        }
    }
}

/// The run at position `at`, and the position behind it.
pub open spec fn run_at(b: Seq<u8>, at: int) -> Option<(Run, int)> {
    match number_at(b, at, 2) {
        None => None,
        Some(len) => if at + 3 > b.len() {
            None
        } else {
            match color_at(b, at + 3) {
                None => None,
                Some((fg, bg_at)) => match color_at(b, bg_at) {
                    None => None,
                    Some((bg, ch_at)) => match char_at(b, ch_at) {
                        None => None,
                        Some((ch, end)) => Some(
                            (Run { len: len as u16, flags: b[at + 2], fg, bg, ch }, end),
                        ),
                    },
                },
            }
        },
    }
}

/// `n` runs from position `at` on, and the position behind them.
pub open spec fn runs_at(b: Seq<u8>, at: int, n: nat) -> Option<(Seq<Run>, int)>
    decreases n,
{
    if n == 0 {
        Some((Seq::empty(), at))
    } else {
        match runs_at(b, at, (n - 1) as nat) {
            None => None,
            Some((runs, next)) => match run_at(b, next) {
                None => None,
                Some((run, end)) => Some((runs.push(run), end)),
            },
        }
    }
}

/// The line update at position `at`, and the position behind it.
pub open spec fn line_at(b: Seq<u8>, at: int) -> Option<(LineModel, int)> {
    if at + 8 > b.len() {
        None
    } else {
        match runs_at(b, at + 8, number_at(b, at + 6, 2)->0) {
            None => None,
            Some((runs, end)) => Some(
                (
                    LineModel {
                        row: number_at(b, at, 2)->0 as u16,
                        start_col: number_at(b, at + 2, 2)->0 as u16,
                        end_col: number_at(b, at + 4, 2)->0 as u16,
                        runs,
                    },
                    end,
                ),
            ),
        }
    }
}

/// `n` line updates from position `at` on, and the position behind them.
pub open spec fn lines_at(b: Seq<u8>, at: int, n: nat) -> Option<(Seq<LineModel>, int)>
    decreases n,
{
    if n == 0 {
        Some((Seq::empty(), at))
    } else {
        match lines_at(b, at, (n - 1) as nat) {
            None => None,
            Some((lines, next)) => match line_at(b, next) {
                None => None,
                Some((line, end)) => Some((lines.push(line), end)),
            },
        }
    }
}

/// The frame that a payload holds. What follows the last line is passed over.
/// The payload carries no viewport position: the frame shows the history from
/// its first line on.
pub open spec fn decoded(b: Seq<u8>) -> Option<FrameModel> {
    if b.len() < 15 || b[12] > 1 {
        None
    } else {
        match lines_at(b, 15, number_at(b, 13, 2)->0) {
            None => None,
            Some((lines, _)) => Some(
                FrameModel {
                    seq: number_at(b, 0, 8)->0 as u64,
                    cursor_row: number_at(b, 8, 2)->0 as u16,
                    cursor_col: number_at(b, 10, 2)->0 as u16,
                    cursor_visible: b[12] == 1,
                    viewport_start: 0,
                    lines,
                },
            ),
        }
    }
}

// ---------------------------------------------------------------------------
// Decoding
// ---------------------------------------------------------------------------

/// 256 to the power of `k`.
pub open spec fn pow256(k: nat) -> nat
    decreases k,
{
    if k == 0 {
        1
    } else {
        256 * pow256((k - 1) as nat)
    }
}

pub proof fn lemma_big_endian_bound(bytes: Seq<u8>)
    ensures
        big_endian(bytes) < pow256(bytes.len()),
    decreases bytes.len(),
{
    if bytes.len() > 0 {
        lemma_big_endian_bound(bytes.drop_last());
    }
}

pub proof fn lemma_pow256_values()
    ensures
        pow256(0) == 1,
        pow256(1) == 0x100,
        pow256(2) == 0x1_0000,
        pow256(8) == 0x1_0000_0000_0000_0000,
{
    reveal_with_fuel(pow256, 9);
}

proof fn lemma_pow256_monotonic(a: nat, b: nat)
    requires
        a <= b,
    ensures
        pow256(a) <= pow256(b),
    decreases b - a,
{
    if a < b {
        lemma_pow256_monotonic(a, (b - 1) as nat);
    }
}

/// A cursor over bytes: each read tests first that the bytes are there.
struct Reader<'a> {
    buf: &'a [u8],
    pos: usize,
}

impl<'a> Reader<'a> {
    spec fn wf(self) -> bool {
        self.pos <= self.buf@.len()
    }

    fn new(buf: &'a [u8]) -> (res: Self)
        ensures
            res.wf(),
            res.buf@ == buf@,
            res.pos == 0,
    {
        Reader { buf, pos: 0 }
    }

    fn take(&mut self, n: usize) -> (res: Option<&'a [u8]>)
        requires
            old(self).wf(),
        ensures
            final(self).wf(),
            final(self).buf@ == old(self).buf@,
            match res {
                Some(bytes) => bytes_at(old(self).buf@, old(self).pos as int, n as int) == Some(
                    bytes@,
                ) && final(self).pos == old(self).pos + n,
                None => bytes_at(old(self).buf@, old(self).pos as int, n as int) == None::<
                    Seq<u8>,
                >,
            },
    {
        let len: usize = self.buf.len();
        if n > len - self.pos {
            return None;
        }
        let bytes = slice_subrange(self.buf, self.pos, self.pos + n);
        self.pos = self.pos + n;
        Some(bytes)
    }

    /// The number that the next `n` bytes write.
    fn number(&mut self, n: usize) -> (res: Option<u64>)
        requires
            old(self).wf(),
            n <= 8,
        ensures
            final(self).wf(),
            final(self).buf@ == old(self).buf@,
            match res {
                Some(v) => number_at(old(self).buf@, old(self).pos as int, n as int) == Some(
                    v as nat,
                ) && final(self).pos == old(self).pos + n && v < pow256(n as nat),
                None => number_at(old(self).buf@, old(self).pos as int, n as int) == None::<nat>,
            },
    {
        match self.take(n) {
            None => None,
            Some(bytes) => {
                let mut value: u64 = 0;
                let mut i: usize = 0;
                while i < n
                    invariant
                        i <= n <= 8,
                        bytes@.len() == n,
                        value == big_endian(bytes@.take(i as int)),
                    decreases n - i,
                {
                    proof {
                        assert(bytes@.take(i + 1).drop_last() =~= bytes@.take(i as int));
                        lemma_big_endian_bound(bytes@.take(i + 1));
                        lemma_pow256_monotonic((i + 1) as nat, 8);
                        lemma_pow256_values();
                    }
                    value = value * 256 + bytes[i] as u64;
                    i += 1;
                }
                proof {
                    assert(bytes@.take(n as int) =~= bytes@);
                    lemma_big_endian_bound(bytes@);
                }
                Some(value)
            },
        }
    }

    fn u8(&mut self) -> (res: Option<u8>)
        requires
            old(self).wf(),
        ensures
            final(self).wf(),
            final(self).buf@ == old(self).buf@,
            match res {
                Some(v) => old(self).pos + 1 <= old(self).buf@.len() && v
                    == old(self).buf@[old(self).pos as int] && final(self).pos == old(self).pos + 1,
                None => old(self).pos + 1 > old(self).buf@.len(),
            },
    {
        match self.take(1) {
            Some(bytes) => Some(bytes[0]),
            None => None,
        }
    }

    fn u16(&mut self) -> (res: Option<u16>)
        requires
            old(self).wf(),
        ensures
            final(self).wf(),
            final(self).buf@ == old(self).buf@,
            match res {
                Some(v) => number_at(old(self).buf@, old(self).pos as int, 2) == Some(v as nat)
                    && final(self).pos == old(self).pos + 2,
                None => number_at(old(self).buf@, old(self).pos as int, 2) == None::<nat>,
            },
    {
        proof {
            lemma_pow256_values();
        }
        match self.number(2) {
            Some(v) => Some(v as u16),
            None => None,
        }
    }

    fn u64(&mut self) -> (res: Option<u64>)
        requires
            old(self).wf(),
        ensures
            final(self).wf(),
            final(self).buf@ == old(self).buf@,
            match res {
                Some(v) => number_at(old(self).buf@, old(self).pos as int, 8) == Some(v as nat)
                    && final(self).pos == old(self).pos + 8,
                None => number_at(old(self).buf@, old(self).pos as int, 8) == None::<nat>,
            },
    {
        self.number(8)
    }

    fn color(&mut self) -> (res: Option<ColorSpec>)
        requires
            old(self).wf(),
        ensures
            final(self).wf(),
            final(self).buf@ == old(self).buf@,
            match res {
                Some(c) => color_at(old(self).buf@, old(self).pos as int) == Some(
                    (c, final(self).pos as int),
                ),
                None => color_at(old(self).buf@, old(self).pos as int) == None::<(ColorSpec, int)>,
            },
    {
        let tag: u8 = match self.u8() {
            Some(tag) => tag,
            None => return None,
        };
        if tag == COLOR_DEFAULT {
            Some(ColorSpec::Default)
        } else if tag == COLOR_INDEXED {
            match self.u8() {
                Some(index) => Some(ColorSpec::Indexed(index)),
                None => None,
            }
        } else if tag == COLOR_RGB {
            match self.take(3) {
                Some(rgb) => Some(ColorSpec::Rgb(rgb[0], rgb[1], rgb[2])),
                None => None,
            }
        } else {
            None
        }
    }

    fn character(&mut self) -> (res: Option<char>)
        requires
            old(self).wf(),
        ensures
            final(self).wf(),
            final(self).buf@ == old(self).buf@,
            match res {
                Some(c) => char_at(old(self).buf@, old(self).pos as int) == Some(
                    (c, final(self).pos as int),
                ),
                None => char_at(old(self).buf@, old(self).pos as int) == None::<(char, int)>,
            },
    {
        let char_len: u8 = match self.u8() {
            Some(n) => n,
            None => return None,
        };
        let bytes = match self.take(char_len as usize) {
            Some(bytes) => bytes,
            None => return None,
        };
        if bytes.len() == 0 {
            return None;
        }
        match strings::utf8_text(bytes) {
            Some(text) => {
                proof {
                    lemma_decode_nonempty(bytes@);
                }
                Some(text.get_char(0))
            },
            None => None,
        }
    }

    fn run(&mut self) -> (res: Option<Run>)
        requires
            old(self).wf(),
        ensures
            final(self).wf(),
            final(self).buf@ == old(self).buf@,
            match res {
                Some(run) => run_at(old(self).buf@, old(self).pos as int) == Some(
                    (run, final(self).pos as int),
                ),
                None => run_at(old(self).buf@, old(self).pos as int) == None::<(Run, int)>,
            },
    {
        let len: u16 = match self.u16() {
            Some(v) => v,
            None => return None,
        };
        let flags: u8 = match self.u8() {
            Some(v) => v,
            None => return None,
        };
        let fg = match self.color() {
            Some(c) => c,
            None => return None,
        };
        let bg = match self.color() {
            Some(c) => c,
            None => return None,
        };
        match self.character() {
            Some(ch) => Some(Run { len, flags, fg, bg, ch }),
            None => None,
        }
    }

    fn line(&mut self) -> (res: Option<LineUpdate>)
        requires
            old(self).wf(),
        ensures
            final(self).wf(),
            final(self).buf@ == old(self).buf@,
            match res {
                Some(line) => line_at(old(self).buf@, old(self).pos as int) == Some(
                    (line@, final(self).pos as int),
                ),
                None => line_at(old(self).buf@, old(self).pos as int) == None::<(LineModel, int)>,
            },
    {
        let row: u16 = match self.u16() {
            Some(v) => v,
            None => return None,
        };
        let start_col: u16 = match self.u16() {
            Some(v) => v,
            None => return None,
        };
        let end_col: u16 = match self.u16() {
            Some(v) => v,
            None => return None,
        };
        let run_count: u16 = match self.u16() {
            Some(v) => v,
            None => return None,
        };
        let ghost b = old(self).buf@;
        let ghost at = old(self).pos + 8;
        let mut runs: Vec<Run> = Vec::new();
        let mut i: u16 = 0;
        while i < run_count
            invariant
                i <= run_count,
                self.wf(),
                self.buf@ == b,
                runs_at(b, at, i as nat) == Some((runs@, self.pos as int)),
                b == old(self).buf@,
                at == old(self).pos + 8,
                at <= b.len(),
                number_at(b, at - 2, 2) == Some(run_count as nat),
            decreases run_count - i,
        {
            match self.run() {
                Some(run) => runs.push(run),
                None => {
                    proof {
                        lemma_runs_fail(b, at, (i + 1) as nat, run_count as nat);
                    }
                    return None;
                },
            }
            i += 1;
        }
        Some(LineUpdate { row, start_col, end_col, runs })
    }
}

proof fn lemma_decode_nonempty(bytes: Seq<u8>)
    requires
        bytes.len() > 0,
        vstd::utf8::valid_utf8(bytes),
    ensures
        vstd::utf8::decode_utf8(bytes).len() > 0,
{
}

proof fn lemma_runs_fail(b: Seq<u8>, at: int, n: nat, m: nat)
    requires
        n <= m,
        runs_at(b, at, n) is None,
    ensures
        runs_at(b, at, m) is None,
    decreases m - n,
{
    if n < m {
        lemma_runs_fail(b, at, n, (m - 1) as nat);
    }
}

proof fn lemma_lines_fail(b: Seq<u8>, at: int, n: nat, m: nat)
    requires
        n <= m,
        lines_at(b, at, n) is None,
    ensures
        lines_at(b, at, m) is None,
    decreases m - n,
{
    if n < m {
        lemma_lines_fail(b, at, n, (m - 1) as nat);
    }
}

/// The number that the `n` bytes at a position write.
pub fn read_number(buf: &[u8], at: usize, n: usize) -> (res: Option<u64>)
    requires
        0 < n <= 8,
    ensures
        match res {
            Some(v) => number_at(buf@, at as int, n as int) == Some(v as nat),
            None => number_at(buf@, at as int, n as int) == None::<nat>,
        },
{
    if at > buf.len() {
        return None;
    }
    let mut r = Reader { buf, pos: at };
    r.number(n)
}

/// Decodes a frame; `None` where the payload is cut short or malformed.
pub fn decode_frame(payload: &[u8]) -> (res: Option<TerminalFrame>)
    ensures
        match res {
            Some(frame) => decoded(payload@) == Some(frame@),
            None => decoded(payload@) == None::<FrameModel>,
        },
{
    let mut r = Reader::new(payload);
    let seq: u64 = match r.u64() {
        Some(v) => v,
        None => return None,
    };
    let cursor_row: u16 = match r.u16() {
        Some(v) => v,
        None => return None,
    };
    let cursor_col: u16 = match r.u16() {
        Some(v) => v,
        None => return None,
    };
    let cursor_visible: bool = match r.u8() {
        Some(v) => if v == 1 {
            true
        } else if v == 0 {
            false
        } else {
            return None;
        },
        None => return None,
    };
    let line_count: u16 = match r.u16() {
        Some(v) => v,
        None => return None,
    };
    let mut lines: Vec<LineUpdate> = Vec::new();
    let mut i: u16 = 0;
    proof {
        assert(line_models(lines@) =~= Seq::<LineModel>::empty());
    }
    while i < line_count
        invariant
            i <= line_count,
            r.wf(),
            r.buf@ == payload@,
            lines_at(payload@, 15, i as nat) == Some((line_models(lines@), r.pos as int)),
            number_at(payload@, 13, 2) == Some(line_count as nat),
            payload@.len() >= 15,
        decreases line_count - i,
    {
        let ghost before = lines@;
        match r.line() {
            Some(line) => {
                lines.push(line);
                proof {
                    assert(line_models(lines@) =~= line_models(before).push(line@));
                }
            },
            None => {
                proof {
                    lemma_lines_fail(payload@, 15, (i + 1) as nat, line_count as nat);
                }
                return None;
            },
        }
        i += 1;
    }
    Some(TerminalFrame { seq, cursor_row, cursor_col, cursor_visible, viewport_start: 0, lines })
}

// ---------------------------------------------------------------------------
// Expanding runs
// ---------------------------------------------------------------------------

/// The number of cells that a run gives from column `col` on in a row of
/// `cols` columns.
pub open spec fn run_width(run: Run, col: int, cols: int) -> nat {
    if col >= cols {
        0
    } else if run.len <= cols - col {
        run.len as nat
    } else {
        (cols - col) as nat
    }
}

/// The cell of a run.
pub open spec fn run_cell(run: Run) -> ClientCell {
    ClientCell { ch: run.ch, fg: run.fg, bg: run.bg, flags: run.flags }
}

/// The cell of the second column of a wide character.
pub open spec fn spacer_cell(run: Run) -> ClientCell {
    ClientCell { ch: ' ', fg: run.fg, bg: run.bg, flags: run.flags | WIDE_SPACER }
}

/// The cells that a run gives from column `col` on: its cell over and over, or,
/// where it is wide, its cell and a spacer in turn.
pub open spec fn run_cells(run: Run, col: int, cols: int) -> Seq<ClientCell> {
    Seq::new(
        run_width(run, col, cols),
        |k: int|
            if run.flags & WIDE != 0 && k % 2 == 1 {
                spacer_cell(run)
            } else {
                run_cell(run)
            },
    )
}

/// Appends the cells of a run to the cells of a row, up to `cols` columns. The
/// column that the run begins at is the number of cells so far, in 16 bits.
/// Gives the number of columns that were written, and whether the length of the
/// run was not used up.
pub fn expand_run(run: &Run, cells: &mut Vec<ClientCell>, cols: u16) -> (res: (u16, bool))
    ensures
        res.0 == final(cells)@.len() - old(cells)@.len(),
        res.1 == (res.0 < run.len),
        final(cells)@ == old(cells)@ + run_cells(
            *run,
            (old(cells)@.len() % 0x1_0000) as int,
            cols as int,
        ),
{
    let ghost before = cells@;
    let mut col: u16 = (cells.len() % 0x1_0000) as u16;
    let ghost start: int = col as int;
    let ghost all = run_cells(*run, start, cols as int);
    let mut remaining: u16 = run.len;
    let wide: bool = run.flags & WIDE != 0;
    proof {
        assert(before + all.take(0) =~= before);
    }
    while remaining > 0 && col < cols
        invariant
            start <= col,
            col <= cols || col == start,
            all == run_cells(*run, start, cols as int),
            wide == (run.flags & WIDE != 0),
            remaining + (col - start) == run.len,
            col - start <= all.len(),
            wide ==> (col - start) % 2 == 0 || col == cols || remaining == 0,
            cells@ == before + all.take(col - start),
        decreases remaining,
    {
        proof {
            assert(all.take(col - start + 1) =~= all.take(col - start).push(all[col - start]));
            assert(before + all.take(col - start + 1) =~= (before + all.take(col - start)).push(
                all[col - start],
            ));
        }
        cells.push(ClientCell { ch: run.ch, fg: run.fg, bg: run.bg, flags: run.flags });
        col += 1;
        remaining -= 1;
        if wide {
            if col < cols && remaining > 0 {
                proof {
                    assert(all.take(col - start + 1) =~= all.take(col - start).push(
                        all[col - start],
                    ));
                    assert(before + all.take(col - start + 1) =~= (before + all.take(
                        col - start,
                    )).push(all[col - start]));
                }
                cells.push(
                    ClientCell {
                        ch: ' ',
                        fg: run.fg,
                        bg: run.bg,
                        flags: run.flags | WIDE_SPACER,
                    },
                );
                col += 1;
                remaining -= 1;
            }
        }
    }
    proof {
        assert(all.take(col - start) =~= all);
    }
    (run.len - remaining, remaining > 0)
}

/// The cells of a row that runs give one after another, up to `cols` columns.
pub open spec fn expanded(runs: Seq<Run>, cols: int) -> Seq<ClientCell>
    decreases runs.len(),
{
    if runs.len() == 0 {
        Seq::empty()
    } else {
        let before = expanded(runs.drop_last(), cols);
        before + run_cells(runs.last(), before.len() as int, cols)
    }
}

pub proof fn lemma_expanded_fits(runs: Seq<Run>, cols: int)
    requires
        cols >= 0,
    ensures
        expanded(runs, cols).len() <= cols,
    decreases runs.len(),
{
    if runs.len() > 0 {
        lemma_expanded_fits(runs.drop_last(), cols);
    }
}

// ---------------------------------------------------------------------------
// Encoding
// ---------------------------------------------------------------------------

/// The `k` bytes that write a number in big endian.
pub open spec fn encoded_number(n: nat, k: nat) -> Seq<u8>
    decreases k,
{
    if k == 0 {
        Seq::empty()
    } else {
        encoded_number(n / 256, (k - 1) as nat).push((n % 256) as u8)
    }
}

/// The bytes of a color.
pub open spec fn encoded_color(c: ColorSpec) -> Seq<u8> {
    match c {
        ColorSpec::Default => seq![COLOR_DEFAULT],
        ColorSpec::Indexed(i) => seq![COLOR_INDEXED, i],
        ColorSpec::Rgb(r, g, b) => seq![COLOR_RGB, r, g, b],
    }
}

/// The bytes of a character, behind a byte that gives their number.
pub open spec fn encoded_char(ch: char) -> Seq<u8> {
    let bytes = vstd::utf8::encode_utf8(seq![ch]);
    seq![bytes.len() as u8] + bytes
}

/// The bytes of a run.
pub open spec fn encoded_run(run: Run) -> Seq<u8> {
    encoded_number(run.len as nat, 2) + (seq![run.flags] + (encoded_color(run.fg) + (encoded_color(
        run.bg,
    ) + encoded_char(run.ch))))
}

/// The bytes of runs, one after another.
pub open spec fn encoded_runs(runs: Seq<Run>) -> Seq<u8>
    decreases runs.len(),
{
    if runs.len() == 0 {
        Seq::empty()
    } else {
        encoded_runs(runs.drop_last()) + encoded_run(runs.last())
    }
}

/// The bytes of a line update.
pub open spec fn encoded_line(line: LineModel) -> Seq<u8> {
    encoded_number(line.row as nat, 2) + (encoded_number(line.start_col as nat, 2) + (
    encoded_number(line.end_col as nat, 2) + (encoded_number(line.runs.len(), 2) + encoded_runs(
        line.runs,
    ))))
}

/// The bytes of line updates, one after another.
pub open spec fn encoded_lines(lines: Seq<LineModel>) -> Seq<u8>
    decreases lines.len(),
{
    if lines.len() == 0 {
        Seq::empty()
    } else {
        encoded_lines(lines.drop_last()) + encoded_line(lines.last())
    }
}

/// The payload of a frame.
pub open spec fn encoded_frame(f: FrameModel) -> Seq<u8> {
    encoded_number(f.seq as nat, 8) + (encoded_number(f.cursor_row as nat, 2) + (encoded_number(
        f.cursor_col as nat,
        2,
    ) + (seq![
        if f.cursor_visible {
            1u8
        } else {
            0u8
        },
    ] + (encoded_number(f.lines.len(), 2) + encoded_lines(f.lines)))))
}

/// The format can carry the frame: the counts of its lines and runs fit in 16
/// bits, and it shows the history from its first line on.
pub open spec fn encodable(f: FrameModel) -> bool {
    &&& f.viewport_start == 0
    &&& f.lines.len() <= 0xffff
    &&& forall|i: int| 0 <= i < f.lines.len() ==> (#[trigger] f.lines[i]).runs.len() <= 0xffff
}

/// The bytes `part` stand in `b` at position `at`.
spec fn holds_at(b: Seq<u8>, part: Seq<u8>, at: int) -> bool {
    &&& 0 <= at
    &&& at + part.len() <= b.len()
    &&& b.subrange(at, at + part.len()) == part
}

proof fn lemma_holds_split(b: Seq<u8>, x: Seq<u8>, y: Seq<u8>, at: int)
    requires
        holds_at(b, x + y, at),
    ensures
        holds_at(b, x, at),
        holds_at(b, y, at + x.len()),
        (x + y).len() == x.len() + y.len(),
{
    let whole = b.subrange(at, at + (x + y).len());
    assert(b.subrange(at, at + x.len()) =~= whole.subrange(0, x.len() as int));
    assert((x + y).subrange(0, x.len() as int) =~= x);
    assert(b.subrange(at + x.len(), at + x.len() + y.len()) =~= whole.subrange(
        x.len() as int,
        (x + y).len() as int,
    ));
    assert((x + y).subrange(x.len() as int, (x + y).len() as int) =~= y);
}

pub proof fn lemma_encoded_number(n: nat, k: nat)
    requires
        n < pow256(k),
    ensures
        encoded_number(n, k).len() == k,
        big_endian(encoded_number(n, k)) == n,
    decreases k,
{
    if k > 0 {
        lemma_encoded_number(n / 256, (k - 1) as nat);
        assert(encoded_number(n, k).drop_last() =~= encoded_number(n / 256, (k - 1) as nat));
    }
}

proof fn lemma_number_round_trip(b: Seq<u8>, n: nat, k: nat, at: int)
    requires
        n < pow256(k),
        holds_at(b, encoded_number(n, k), at),
    ensures
        encoded_number(n, k).len() == k,
        number_at(b, at, k as int) == Some(n),
{
    lemma_encoded_number(n, k);
}

proof fn lemma_color_round_trip(b: Seq<u8>, c: ColorSpec, at: int)
    requires
        holds_at(b, encoded_color(c), at),
    ensures
        color_at(b, at) == Some((c, at + encoded_color(c).len())),
{
    let part = encoded_color(c);
    let got = b.subrange(at, at + part.len());
    assert(got[0] == part[0]);
    match c {
        ColorSpec::Default => {},
        ColorSpec::Indexed(_) => {
            assert(got[1] == part[1]);
        },
        ColorSpec::Rgb(_, _, _) => {
            assert(got[1] == part[1]);
            assert(got[2] == part[2]);
            assert(got[3] == part[3]);
        },
    }
}

proof fn lemma_char_round_trip(b: Seq<u8>, ch: char, at: int)
    requires
        holds_at(b, encoded_char(ch), at),
    ensures
        char_at(b, at) == Some((ch, at + encoded_char(ch).len())),
{
    let bytes = vstd::utf8::encode_utf8(seq![ch]);
    reveal_with_fuel(vstd::utf8::encode_utf8, 2);
    vstd::utf8::char_is_scalar(ch);
    assert(bytes =~= vstd::utf8::encode_scalar(ch as u32)) by {
        assert(seq![ch].drop_first() =~= Seq::<char>::empty());
        assert(vstd::utf8::encode_utf8(Seq::<char>::empty()) =~= Seq::<u8>::empty());
    }
    assert(0 < bytes.len() <= 4);
    vstd::utf8::encode_utf8_valid_utf8(seq![ch]);
    vstd::utf8::encode_utf8_decode_utf8(seq![ch]);
    lemma_holds_split(b, seq![bytes.len() as u8], bytes, at);
    assert(b.subrange(at, at + 1)[0] == bytes.len() as u8);
}

proof fn lemma_run_round_trip(b: Seq<u8>, run: Run, at: int)
    requires
        holds_at(b, encoded_run(run), at),
    ensures
        run_at(b, at) == Some((run, at + encoded_run(run).len())),
{
    lemma_pow256_values();
    let n = encoded_number(run.len as nat, 2);
    let fg = encoded_color(run.fg);
    let bg = encoded_color(run.bg);
    let ch = encoded_char(run.ch);
    lemma_holds_split(b, n, seq![run.flags] + (fg + (bg + ch)), at);
    lemma_number_round_trip(b, run.len as nat, 2, at);
    lemma_holds_split(b, seq![run.flags], fg + (bg + ch), at + 2);
    assert(b.subrange(at + 2, at + 3)[0] == run.flags);
    lemma_holds_split(b, fg, bg + ch, at + 3);
    lemma_color_round_trip(b, run.fg, at + 3);
    lemma_holds_split(b, bg, ch, at + 3 + fg.len());
    lemma_color_round_trip(b, run.bg, at + 3 + fg.len());
    lemma_char_round_trip(b, run.ch, at + 3 + fg.len() + bg.len());
}

proof fn lemma_runs_round_trip(b: Seq<u8>, runs: Seq<Run>, at: int)
    requires
        holds_at(b, encoded_runs(runs), at),
    ensures
        runs_at(b, at, runs.len()) == Some((runs, at + encoded_runs(runs).len())),
    decreases runs.len(),
{
    if runs.len() > 0 {
        let init = encoded_runs(runs.drop_last());
        lemma_holds_split(b, init, encoded_run(runs.last()), at);
        lemma_runs_round_trip(b, runs.drop_last(), at);
        lemma_run_round_trip(b, runs.last(), at + init.len());
        assert(runs.drop_last().push(runs.last()) =~= runs);
    } else {
        assert(runs =~= Seq::<Run>::empty());
    }
}

proof fn lemma_line_round_trip(b: Seq<u8>, line: LineModel, at: int)
    requires
        holds_at(b, encoded_line(line), at),
        line.runs.len() <= 0xffff,
    ensures
        line_at(b, at) == Some((line, at + encoded_line(line).len())),
{
    lemma_pow256_values();
    let row = encoded_number(line.row as nat, 2);
    let start = encoded_number(line.start_col as nat, 2);
    let end = encoded_number(line.end_col as nat, 2);
    let count = encoded_number(line.runs.len(), 2);
    let runs = encoded_runs(line.runs);
    lemma_holds_split(b, row, start + (end + (count + runs)), at);
    lemma_number_round_trip(b, line.row as nat, 2, at);
    lemma_holds_split(b, start, end + (count + runs), at + 2);
    lemma_number_round_trip(b, line.start_col as nat, 2, at + 2);
    lemma_holds_split(b, end, count + runs, at + 4);
    lemma_number_round_trip(b, line.end_col as nat, 2, at + 4);
    lemma_holds_split(b, count, runs, at + 6);
    lemma_number_round_trip(b, line.runs.len(), 2, at + 6);
    lemma_runs_round_trip(b, line.runs, at + 8);
}

proof fn lemma_lines_round_trip(b: Seq<u8>, lines: Seq<LineModel>, at: int)
    requires
        holds_at(b, encoded_lines(lines), at),
        forall|i: int| 0 <= i < lines.len() ==> (#[trigger] lines[i]).runs.len() <= 0xffff,
    ensures
        lines_at(b, at, lines.len()) == Some((lines, at + encoded_lines(lines).len())),
    decreases lines.len(),
{
    if lines.len() > 0 {
        let init = encoded_lines(lines.drop_last());
        lemma_holds_split(b, init, encoded_line(lines.last()), at);
        lemma_lines_round_trip(b, lines.drop_last(), at);
        lemma_line_round_trip(b, lines.last(), at + init.len());
        assert(lines.drop_last().push(lines.last()) =~= lines);
    } else {
        assert(lines =~= Seq::<LineModel>::empty());
    }
}

/// The payload of a frame ends with its last line.
proof fn lemma_frame_round_trip(f: FrameModel)
    requires
        encodable(f),
    ensures
        decoded(encoded_frame(f)) == Some(f),
        encoded_frame(f).len() >= 15,
        number_at(encoded_frame(f), 13, 2) == Some(f.lines.len()),
        lines_at(encoded_frame(f), 15, f.lines.len()) == Some(
            (f.lines, encoded_frame(f).len() as int),
        ),
{
    lemma_pow256_values();
    let b = encoded_frame(f);
    let seq_bytes = encoded_number(f.seq as nat, 8);
    let row = encoded_number(f.cursor_row as nat, 2);
    let col = encoded_number(f.cursor_col as nat, 2);
    let visible = seq![
        if f.cursor_visible {
            1u8
        } else {
            0u8
        },
    ];
    let count = encoded_number(f.lines.len(), 2);
    let lines = encoded_lines(f.lines);
    assert(b.subrange(0, b.len() as int) =~= b);
    lemma_holds_split(b, seq_bytes, row + (col + (visible + (count + lines))), 0);
    lemma_number_round_trip(b, f.seq as nat, 8, 0);
    lemma_holds_split(b, row, col + (visible + (count + lines)), 8);
    lemma_number_round_trip(b, f.cursor_row as nat, 2, 8);
    lemma_holds_split(b, col, visible + (count + lines), 10);
    lemma_number_round_trip(b, f.cursor_col as nat, 2, 10);
    lemma_holds_split(b, visible, count + lines, 12);
    assert(b.subrange(12, 13)[0] == visible[0]);
    lemma_holds_split(b, count, lines, 13);
    lemma_number_round_trip(b, f.lines.len(), 2, 13);
    lemma_lines_round_trip(b, f.lines, 15);
}

/// Decoding the payload of a frame gives the frame back.
pub proof fn law_decoding_inverts_encoding(f: FrameModel)
    requires
        encodable(f),
    ensures
        decoded(encoded_frame(f)) == Some(f),
{
    lemma_frame_round_trip(f);
}

/// What is read of the first `k` bytes is read of all of them, and ends within
/// the first `k`.
proof fn lemma_run_of_prefix(b: Seq<u8>, k: int, at: int)
    requires
        0 <= at <= k <= b.len(),
        run_at(b.take(k), at) is Some,
    ensures
        run_at(b, at) == run_at(b.take(k), at),
        at <= (run_at(b, at)->0).1 <= k,
{
    let cut = b.take(k);
    assert(cut.subrange(at, at + 2) =~= b.subrange(at, at + 2));
    let bg_at = (color_at(cut, at + 3)->0).1;
    assert(color_at(b, at + 3) == color_at(cut, at + 3));
    let ch_at = (color_at(cut, bg_at)->0).1;
    assert(color_at(b, bg_at) == color_at(cut, bg_at));
    let n = cut[ch_at] as int;
    assert(cut.subrange(ch_at + 1, ch_at + 1 + n) =~= b.subrange(ch_at + 1, ch_at + 1 + n));
    assert(char_at(b, ch_at) == char_at(cut, ch_at));
}

proof fn lemma_runs_of_prefix(b: Seq<u8>, k: int, at: int, n: nat)
    requires
        0 <= at <= k <= b.len(),
        runs_at(b.take(k), at, n) is Some,
    ensures
        runs_at(b, at, n) == runs_at(b.take(k), at, n),
        at <= (runs_at(b, at, n)->0).1 <= k,
    decreases n,
{
    if n > 0 {
        lemma_runs_of_prefix(b, k, at, (n - 1) as nat);
        lemma_run_of_prefix(b, k, (runs_at(b, at, (n - 1) as nat)->0).1);
    }
}

proof fn lemma_line_of_prefix(b: Seq<u8>, k: int, at: int)
    requires
        0 <= at <= k <= b.len(),
        line_at(b.take(k), at) is Some,
    ensures
        line_at(b, at) == line_at(b.take(k), at),
        at <= (line_at(b, at)->0).1 <= k,
{
    let cut = b.take(k);
    assert(cut.subrange(at, at + 2) =~= b.subrange(at, at + 2));
    assert(cut.subrange(at + 2, at + 4) =~= b.subrange(at + 2, at + 4));
    assert(cut.subrange(at + 4, at + 6) =~= b.subrange(at + 4, at + 6));
    assert(cut.subrange(at + 6, at + 8) =~= b.subrange(at + 6, at + 8));
    lemma_runs_of_prefix(b, k, at + 8, number_at(b, at + 6, 2)->0);
}

proof fn lemma_lines_of_prefix(b: Seq<u8>, k: int, at: int, n: nat)
    requires
        0 <= at <= k <= b.len(),
        lines_at(b.take(k), at, n) is Some,
    ensures
        lines_at(b, at, n) == lines_at(b.take(k), at, n),
        at <= (lines_at(b, at, n)->0).1 <= k,
    decreases n,
{
    if n > 0 {
        lemma_lines_of_prefix(b, k, at, (n - 1) as nat);
        lemma_line_of_prefix(b, k, (lines_at(b, at, (n - 1) as nat)->0).1);
    }
}

/// A payload that is cut short, at whatever byte, is refused as a whole.
pub proof fn law_cut_frame_is_refused(f: FrameModel, k: int)
    requires
        encodable(f),
        0 <= k < encoded_frame(f).len(),
    ensures
        decoded(encoded_frame(f).take(k)) is None,
{
    let b = encoded_frame(f);
    let cut = b.take(k);
    lemma_frame_round_trip(f);
    if k >= 15 {
        assert(cut.subrange(13, 15) =~= b.subrange(13, 15));
        if lines_at(cut, 15, f.lines.len()) is Some {
            lemma_lines_of_prefix(b, k, 15, f.lines.len());
        }
    }
}

/// The second column of a wide character is marked as a spacer, and keeps the
/// other flags of the character.
pub proof fn law_spacer_is_marked(run: Run)
    ensures
        spacer_cell(run).flags & WIDE_SPACER != 0,
        spacer_cell(run).flags & 0x7f == run.flags & 0x7f,
{
    let flags = run.flags;
    assert((flags | 0x80u8) & 0x80u8 != 0) by (bit_vector);
    assert((flags | 0x80u8) & 0x7fu8 == flags & 0x7fu8) by (bit_vector);
}

/// What runs expand to is what each of them gives, one after another, up to the
/// width of the row. A run that is not wide gives its cell over and over; a wide
/// one gives its cell and the spacer behind it in turn.
pub proof fn law_runs_expand_in_order(runs: Seq<Run>, run: Run, cols: int, k: int)
    requires
        cols >= 0,
    ensures
        expanded(Seq::<Run>::empty(), cols).len() == 0,
        ({
            let before = expanded(runs, cols);
            let after = expanded(runs.push(run), cols);
            let cell = ClientCell { ch: run.ch, fg: run.fg, bg: run.bg, flags: run.flags };
            &&& before.len() <= cols
            &&& after.len() == (if before.len() + run.len <= cols {
                before.len() + run.len
            } else {
                cols
            })
            &&& after.take(before.len() as int) == before
            &&& before.len() <= k < after.len() ==> {
                let second = run.flags & 0x40 != 0 && (k - before.len()) % 2 == 1;
                &&& !second ==> after[k] == cell
                &&& second ==> after[k] == (ClientCell {
                    ch: ' ',
                    flags: run.flags | 0x80,
                    ..cell
                })
            }
        }),
{
    lemma_expanded_fits(runs, cols);
    lemma_expanded_fits(runs.push(run), cols);
    assert(runs.push(run).drop_last() =~= runs);
    assert(expanded(runs.push(run), cols).take(expanded(runs, cols).len() as int) =~= expanded(
        runs,
        cols,
    ));
}

proof fn lemma_two_bytes(b: Seq<u8>, at: int)
    requires
        0 <= at,
        at + 2 <= b.len(),
    ensures
        number_at(b, at, 2) == Some((256 * b[at] + b[at + 1]) as nat),
{
    reveal_with_fuel(big_endian, 3);
    let bytes = b.subrange(at, at + 2);
    assert(bytes.drop_last() =~= seq![b[at]]);
    assert(seq![b[at]].drop_last() =~= Seq::empty());
}

/// A frame begins with its number, the row and the column of the cursor, whether
/// the cursor shows, and the number of its lines.
pub proof fn law_layout_of_a_frame(b: Seq<u8>)
    ensures
        decoded(b) matches Some(f) ==> {
            &&& b.len() >= 15
            &&& f.seq == big_endian(b.take(8))
            &&& f.cursor_row == 256 * b[8] + b[9]
            &&& f.cursor_col == 256 * b[10] + b[11]
            &&& f.cursor_visible <==> b[12] == 1
            &&& f.lines.len() == 256 * b[13] + b[14]
        },
{
    if decoded(b) is Some {
        lemma_two_bytes(b, 8);
        lemma_two_bytes(b, 10);
        lemma_two_bytes(b, 13);
        lemma_lines_count(b, 15, number_at(b, 13, 2)->0);
        lemma_eight_bytes(b);
    }
}

proof fn lemma_eight_bytes(b: Seq<u8>)
    requires
        b.len() >= 8,
    ensures
        number_at(b, 0, 8) == Some(big_endian(b.take(8))),
        big_endian(b.take(8)) <= u64::MAX,
{
    reveal_with_fuel(big_endian, 9);
    assert(b.subrange(0, 8) =~= b.take(8));
    let bytes = b.take(8);
    assert(bytes.drop_last() =~= b.take(7));
    assert(b.take(7).drop_last() =~= b.take(6));
    assert(b.take(6).drop_last() =~= b.take(5));
    assert(b.take(5).drop_last() =~= b.take(4));
    assert(b.take(4).drop_last() =~= b.take(3));
    assert(b.take(3).drop_last() =~= b.take(2));
    assert(b.take(2).drop_last() =~= b.take(1));
    assert(b.take(1).drop_last() =~= b.take(0));
}

proof fn lemma_lines_count(b: Seq<u8>, at: int, n: nat)
    ensures
        lines_at(b, at, n) matches Some((lines, _)) ==> lines.len() == n,
    decreases n,
{
    if n > 0 {
        lemma_lines_count(b, at, (n - 1) as nat);
    }
}

proof fn lemma_runs_count(b: Seq<u8>, at: int, n: nat)
    ensures
        runs_at(b, at, n) matches Some((runs, _)) ==> runs.len() == n,
    decreases n,
{
    if n > 0 {
        lemma_runs_count(b, at, (n - 1) as nat);
    }
}

/// A line begins with its row, its first and its last column and the number of
/// its runs.
pub proof fn law_layout_of_a_line(b: Seq<u8>, at: int)
    requires
        0 <= at,
    ensures
        line_at(b, at) matches Some((line, _)) ==> {
            &&& line.row == 256 * b[at] + b[at + 1]
            &&& line.start_col == 256 * b[at + 2] + b[at + 3]
            &&& line.end_col == 256 * b[at + 4] + b[at + 5]
            &&& line.runs.len() == 256 * b[at + 6] + b[at + 7]
        },
{
    if line_at(b, at) is Some {
        lemma_two_bytes(b, at);
        lemma_two_bytes(b, at + 2);
        lemma_two_bytes(b, at + 4);
        lemma_two_bytes(b, at + 6);
        lemma_runs_count(b, at + 8, number_at(b, at + 6, 2)->0);
    }
}

/// A run begins with its length and its style, before its foreground and its
/// background; a color is told by its kind and then its parts, red, green and
/// blue.
pub proof fn law_layout_of_a_run(b: Seq<u8>, at: int)
    requires
        0 <= at,
    ensures
        run_at(b, at) matches Some((run, _)) ==> {
            &&& run.len == 256 * b[at] + b[at + 1]
            &&& run.flags == b[at + 2]
            &&& b[at + 3] == 0 ==> run.fg == ColorSpec::Default
            &&& b[at + 3] == 1 ==> run.fg == ColorSpec::Indexed(b[at + 4])
            &&& b[at + 3] == 2 ==> run.fg == ColorSpec::Rgb(b[at + 4], b[at + 5], b[at + 6])
            &&& b[at + 3] == 0 && b[at + 4] == 0 ==> run.bg == ColorSpec::Default
            &&& b[at + 3] == 0 && b[at + 4] == 1 ==> run.bg == ColorSpec::Indexed(b[at + 5])
            &&& b[at + 3] == 0 && b[at + 4] == 2 ==> run.bg == ColorSpec::Rgb(
                b[at + 5],
                b[at + 6],
                b[at + 7],
            )
            &&& b[at + 3] <= 2
        },
{
    if run_at(b, at) is Some {
        lemma_two_bytes(b, at);
    }
}

} // verus!
