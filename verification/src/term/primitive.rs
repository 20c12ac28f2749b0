//! The appearance of a terminal and the size of its cells.
use vstd::prelude::*;

use crate::strings;
use crate::term::client_grid;
use crate::term::client_grid::{ClientCell, ColorSpec};
use crate::term::frame::REVERSE;

verus! {

pub const DEFAULT_FG: (u8, u8, u8) = (255, 255, 255);

pub const DEFAULT_BG: (u8, u8, u8) = (40, 44, 52);

pub const DEFAULT_TERMINAL_FONT_FAMILY: &'static str = "JetBrains Mono";

/// The units of a point of font size.
pub const UNITS_PER_POINT: i64 = 1_048_576;

/// A font size: a number of units of a 1048576th of a point, which hold every
/// size of single precision from 8 to 48 points exactly, or no finite number.
#[derive(Debug, Clone, Copy, PartialEq, Eq, Structural)]
pub enum FontSize {
    Units(i64),
    NotFinite,
}

/// The size of so many points.
pub open spec fn points_size(n: int) -> FontSize {
    FontSize::Units((n * UNITS_PER_POINT) as i64)
}

impl FontSize {
    /// The size of so many points.
    pub fn points(n: u16) -> (res: FontSize)
        ensures
            res == points_size(n as int),
    {
        FontSize::Units(n as i64 * UNITS_PER_POINT)
    }

    /// The nearest size from 8 to 48 points; 13 points where there is none.
    pub open spec fn clamped(self) -> FontSize {
        match self {
            FontSize::Units(units) => if units < 8 * UNITS_PER_POINT {
                points_size(8)
            } else if units > 48 * UNITS_PER_POINT {
                points_size(48)
            } else {
                self
            },
            FontSize::NotFinite => points_size(13),
        }
    }
}

/// How a terminal looks.
#[derive(Debug, PartialEq)]
pub struct TerminalAppearance {
    pub font_family: String,
    pub font_size: FontSize,
    pub cursor_blink: bool,
}

/// What an appearance holds.
#[verifier::ext_equal]
pub struct AppearanceModel {
    pub font_family: Seq<char>,
    pub font_size: FontSize,
    pub cursor_blink: bool,
}

impl View for TerminalAppearance {
    type V = AppearanceModel;

    open spec fn view(&self) -> AppearanceModel {
        AppearanceModel {
            font_family: self.font_family@,
            font_size: self.font_size,
            cursor_blink: self.cursor_blink,
        }
    }
}

impl Clone for TerminalAppearance {
    fn clone(&self) -> (copy: Self)
        ensures
            copy@ == self@,
    {
        TerminalAppearance {
            font_family: self.font_family.clone(),
            font_size: self.font_size,
            cursor_blink: self.cursor_blink,
        }
    }
}

impl AppearanceModel {
    /// The default appearance.
    pub open spec fn standard() -> AppearanceModel {
        AppearanceModel {
            font_family: DEFAULT_TERMINAL_FONT_FAMILY@,
            font_size: points_size(13),
            cursor_blink: true,
        }
    }

    /// The appearance with the family trimmed, or the default one where it is
    /// blank, and the size within its bounds.
    pub open spec fn normalized(self) -> AppearanceModel {
        let family = strings::trimmed(self.font_family);
        AppearanceModel {
            font_family: if family.len() == 0 {
                DEFAULT_TERMINAL_FONT_FAMILY@
            } else {
                family
            },
            font_size: self.font_size.clamped(),
            cursor_blink: self.cursor_blink,
        }
    }
}

impl Default for TerminalAppearance {
    fn default() -> (res: Self)
        ensures
            res@ == AppearanceModel::standard(),
    {
        TerminalAppearance {
            font_family: DEFAULT_TERMINAL_FONT_FAMILY.to_string(),
            font_size: FontSize::points(13),
            cursor_blink: true,
        }
    }
}

impl TerminalAppearance {
    /// The appearance with the family trimmed, or the default one where it is
    /// blank, and the size within its bounds.
    pub fn normalized(&self) -> (res: Self)
        ensures
            res@ == self@.normalized(),
    {
        let family = strings::trim(self.font_family.as_str());
        let font_family = if family.as_str().unicode_len() == 0 {
            DEFAULT_TERMINAL_FONT_FAMILY.to_string()
        } else {
            family
        };
        let font_size = match self.font_size {
            FontSize::Units(units) => if units < 8 * UNITS_PER_POINT {
                FontSize::points(8)
            } else if units > 48 * UNITS_PER_POINT {
                FontSize::points(48)
            } else {
                self.font_size
            },
            FontSize::NotFinite => FontSize::points(13),
        };
        TerminalAppearance { font_family, font_size, cursor_blink: self.cursor_blink }
    }
}

/// A family that is empty or nothing but white space gives the default family;
/// any other one is kept, without the white space at its ends.
pub proof fn law_blank_family_gives_the_default(a: AppearanceModel)
    ensures
        (forall|i: int| 0 <= i < a.font_family.len() ==> strings::white_space(a.font_family[i]))
            ==> a.normalized().font_family == DEFAULT_TERMINAL_FONT_FAMILY@,
        (exists|i: int| 0 <= i < a.font_family.len() && !strings::white_space(a.font_family[i]))
            ==> a.normalized().font_family == strings::trimmed(a.font_family),
{
    if forall|i: int| 0 <= i < a.font_family.len() ==> strings::white_space(a.font_family[i]) {
        strings::lemma_blank_is_trimmed_away(a.font_family);
    } else if strings::trimmed(a.font_family).len() == 0 {
        strings::lemma_trimmed_away_is_blank(a.font_family);
    }
}

/// A normalized appearance has a size from 8 to 48 points and a family with a
/// name, and normalizing it again changes nothing.
pub proof fn law_normalizing_twice(a: AppearanceModel)
    ensures
        a.normalized().normalized() == a.normalized(),
        a.normalized().font_size matches FontSize::Units(units) && 8 * UNITS_PER_POINT <= units <= 48
            * UNITS_PER_POINT,
        a.normalized().font_family.len() > 0,
{
    reveal_strlit("JetBrains Mono");
    strings::lemma_trimmed_twice(a.font_family);
    strings::lemma_nothing_to_trim(DEFAULT_TERMINAL_FONT_FAMILY@);
}

/// The size of a cell in physical pixels, with the scale that it was measured
/// at, in one word: `[scale bits: 32][height: 16][width: 16]`.
#[derive(Debug, Clone, Copy, PartialEq, Eq, Structural)]
pub struct ViewportMetrics {
    pub packed: u64,
}

impl ViewportMetrics {
    pub open spec fn width(self) -> u64 {
        self.packed & 0xffff
    }

    pub open spec fn height(self) -> u64 {
        (self.packed >> 16) & 0xffff
    }

    pub open spec fn scale(self) -> u64 {
        self.packed >> 32
    }

    /// The measured size for a scale, where one was stored for it.
    pub open spec fn measured(self, scale_bits: u32) -> Option<(u16, u16)> {
        if self.scale() == scale_bits && self.width() > 0 && self.height() > 0 {
            Some((self.width() as u16, self.height() as u16))
        } else {
            None
        }
    }

    /// Stores the size of a cell for a scale, given by the bits of its single
    /// precision number.
    pub fn store(&mut self, cell_width: u16, cell_height: u16, scale_bits: u32)
        ensures
            final(self).width() == cell_width,
            final(self).height() == cell_height,
            final(self).scale() == scale_bits,
            cell_width > 0 && cell_height > 0 ==> final(self).measured(scale_bits) == Some(
                (cell_width, cell_height),
            ),
    {
        let width: u64 = cell_width as u64;
        let height: u64 = cell_height as u64;
        let scale: u64 = scale_bits as u64;
        self.packed = (scale << 32) | (height << 16) | width;
        proof {
            let packed = self.packed;
            assert(packed & 0xffff == width && (packed >> 16) & 0xffff == height && packed >> 32
                == scale) by (bit_vector)
                requires
                    packed == (scale << 32) | (height << 16) | width,
                    width <= 0xffff,
                    height <= 0xffff,
                    scale <= 0xffff_ffff,
            ;
        }
    }

    /// The size of a cell for a scale; `None` where none was stored for it.
    pub fn cell_size_for(&self, scale_bits: u32) -> (res: Option<(u16, u16)>)
        ensures
            res == self.measured(scale_bits),
    {
        let packed: u64 = self.packed;
        let width: u64 = packed & 0xffff;
        let height: u64 = (packed >> 16) & 0xffff;
        proof {
            assert(packed & 0xffff <= 0xffff) by (bit_vector);
            assert((packed >> 16) & 0xffff <= 0xffff) by (bit_vector);
        }
        if packed >> 32 == scale_bits as u64 && width > 0 && height > 0 {
            Some((width as u16, height as u16))
        } else {
            None
        }
    }
}

impl Default for ViewportMetrics {
    fn default() -> (res: Self)
        ensures
            res.packed == 0,
            forall|scale_bits: u32| #[trigger] res.measured(scale_bits) == None::<(u16, u16)>,
    {
        proof {
            assert(0u64 & 0xffff == 0) by (bit_vector);
        }
        ViewportMetrics { packed: 0 }
    }
}

/// The color that a cell's foreground stands for.
pub open spec fn fg_color(cell: ClientCell) -> (u8, u8, u8) {
    match cell.fg {
        ColorSpec::Default => DEFAULT_FG,
        ColorSpec::Indexed(index) => client_grid::palette(index),
        ColorSpec::Rgb(r, g, b) => (r, g, b),
    }
}

/// The color that a cell's background stands for.
pub open spec fn bg_color(cell: ClientCell) -> (u8, u8, u8) {
    match cell.bg {
        ColorSpec::Default => DEFAULT_BG,
        ColorSpec::Indexed(index) => client_grid::palette(index),
        ColorSpec::Rgb(r, g, b) => (r, g, b),
    }
}

/// The cell shows its foreground and its background swapped.
pub open spec fn is_reverse(cell: ClientCell) -> bool {
    cell.flags & REVERSE != 0
}

/// The color behind the character of a cell.
pub open spec fn shown_bg(cell: ClientCell) -> (u8, u8, u8) {
    if is_reverse(cell) {
        fg_color(cell)
    } else {
        bg_color(cell)
    }
}

/// The color of the character of a cell.
pub open spec fn shown_fg(cell: ClientCell) -> (u8, u8, u8) {
    if is_reverse(cell) {
        bg_color(cell)
    } else {
        fg_color(cell)
    }
}

fn resolve_fg(cell: &ClientCell) -> (res: (u8, u8, u8))
    ensures
        res == fg_color(*cell),
{
    match cell.fg {
        ColorSpec::Default => DEFAULT_FG,
        ColorSpec::Indexed(index) => client_grid::indexed_color(index),
        ColorSpec::Rgb(r, g, b) => (r, g, b),
    }
}

fn resolve_own_bg(cell: &ClientCell) -> (res: (u8, u8, u8))
    ensures
        res == bg_color(*cell),
{
    match cell.bg {
        ColorSpec::Default => DEFAULT_BG,
        ColorSpec::Indexed(index) => client_grid::indexed_color(index),
        ColorSpec::Rgb(r, g, b) => (r, g, b),
    }
}

/// The color behind the character of a cell.
pub fn resolve_bg(cell: &ClientCell) -> (res: (u8, u8, u8))
    ensures
        res == shown_bg(*cell),
{
    if cell.flags & REVERSE != 0 {
        resolve_fg(cell)
    } else {
        resolve_own_bg(cell)
    }
}

/// The color of the character of a cell.
pub fn resolve_text_fg(cell: &ClientCell) -> (res: (u8, u8, u8))
    ensures
        res == shown_fg(*cell),
{
    if cell.flags & REVERSE == 0 {
        resolve_fg(cell)
    } else {
        resolve_own_bg(cell)
    }
}

/// Reversing a cell swaps the two colors that it shows.
pub proof fn law_reverse_swaps_colors(cell: ClientCell, reversed: ClientCell)
    requires
        reversed == (ClientCell { flags: cell.flags ^ REVERSE, ..cell }),
    ensures
        shown_fg(reversed) == shown_bg(cell),
        shown_bg(reversed) == shown_fg(cell),
{
    let flags = cell.flags;
    assert(((flags ^ 0x08u8) & 0x08u8 != 0) == (flags & 0x08u8 == 0)) by (bit_vector);
}

/// A cell shows in the colors that it asks for: its own, those of the palette or
/// the default ones.
pub proof fn law_cells_have_their_colors(cell: ClientCell)
    ensures
        cell.fg matches ColorSpec::Rgb(r, g, b) ==> fg_color(cell) == (r, g, b),
        cell.fg matches ColorSpec::Indexed(i) ==> fg_color(cell) == client_grid::palette(i),
        cell.fg is Default ==> fg_color(cell) == (255u8, 255u8, 255u8),
        cell.bg matches ColorSpec::Rgb(r, g, b) ==> bg_color(cell) == (r, g, b),
        cell.bg matches ColorSpec::Indexed(i) ==> bg_color(cell) == client_grid::palette(i),
        cell.bg is Default ==> bg_color(cell) == (40u8, 44u8, 52u8),
        cell.flags & 0x08 == 0 ==> shown_fg(cell) == fg_color(cell) && shown_bg(cell) == bg_color(
            cell,
        ),
        cell.flags & 0x08 != 0 ==> shown_fg(cell) == bg_color(cell) && shown_bg(cell) == fg_color(
            cell,
        ),
{
}

/// A size between the smallest and the largest that can be read stays as it is;
/// another one becomes the nearer of the two, and what is no number the usual
/// size.
pub proof fn law_sizes_can_be_read(units: i64)
    ensures
        8 * UNITS_PER_POINT <= units <= 48 * UNITS_PER_POINT ==> FontSize::Units(units).clamped()
            == FontSize::Units(units),
        units < 8 * UNITS_PER_POINT ==> FontSize::Units(units).clamped() == points_size(8),
        units > 48 * UNITS_PER_POINT ==> FontSize::Units(units).clamped() == points_size(48),
        FontSize::NotFinite.clamped() == points_size(13),
{
}

} // verus!
