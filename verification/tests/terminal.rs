//! The terminal: frames, grid, keys, selection and drawing.
use std::collections::BTreeMap;

use vida::term::client_grid::{indexed_color, ClientCell, ClientGrid, ColorSpec, WIDE_SPACER};
use vida::term::draw::{draw_grid, Shape};
use vida::term::frame::{decode_frame, expand_run, LineUpdate, Run, TerminalFrame, BOLD, REVERSE, WIDE};
use vida::term::keys::{translate_key, Key, KeyAction, KeyPress, Modifiers, Named, Platform};
use vida::term::primitive::{
    resolve_bg, resolve_text_fg, FontSize, TerminalAppearance, ViewportMetrics, DEFAULT_BG,
    DEFAULT_FG, DEFAULT_TERMINAL_FONT_FAMILY,
};
use vida::term::widget::{
    selected_text, CellPosition, ContextItem, ContextLabels, Event, MenuPoint, Publish, Selection,
    State,
};

const NONE: Modifiers = Modifiers { shift: false, control: false, alt: false, logo: false };
const CTRL: Modifiers = Modifiers { shift: false, control: true, alt: false, logo: false };
const ALT: Modifiers = Modifiers { shift: false, control: false, alt: true, logo: false };

fn run(ch: char) -> Run {
    Run { len: 1, flags: 0, fg: ColorSpec::Default, bg: ColorSpec::Default, ch }
}

fn frame_with_text(lines: &[&str], cols: u16) -> TerminalFrame {
    let updates = lines
        .iter()
        .enumerate()
        .map(|(row, line)| LineUpdate {
            row: row as u16,
            start_col: 0,
            end_col: cols - 1,
            runs: line.chars().map(run).collect(),
        })
        .collect();
    TerminalFrame {
        seq: 1,
        cursor_row: 0,
        cursor_col: 0,
        cursor_visible: true,
        viewport_start: 0,
        lines: updates,
    }
}

fn grid_with_text(lines: &[&str], cols: u16) -> ClientGrid {
    let mut grid = ClientGrid::new(lines.len() as u16, cols);
    grid.apply_frame(&frame_with_text(lines, cols));
    grid
}

fn press(key: Key, latin: Option<char>, modifiers: Modifiers, text: Option<&str>) -> KeyPress {
    KeyPress { key, latin, modifiers, text: text.map(str::to_string) }
}

#[test]
fn indexed_palette_matches_ghostty_defaults() {
    assert_eq!(indexed_color(0), (0x1d, 0x1f, 0x21));
    assert_eq!(indexed_color(8), (0x66, 0x66, 0x66));
    assert_eq!(indexed_color(15), (0xea, 0xea, 0xea));
    assert_eq!(indexed_color(16), (0, 0, 0));
    assert_eq!(indexed_color(231), (255, 255, 255));
}

#[test]
fn palette_has_a_cube_and_a_ramp() {
    assert_eq!(indexed_color(17), (0, 0, 95));
    assert_eq!(indexed_color(21), (0, 0, 255));
    assert_eq!(indexed_color(196), (255, 0, 0));
    assert_eq!(indexed_color(232), (8, 8, 8));
    assert_eq!(indexed_color(255), (238, 238, 238));
}

#[test]
fn appearance_is_normalized() {
    let appearance = TerminalAppearance {
        font_family: "  ".to_string(),
        font_size: FontSize::NotFinite,
        cursor_blink: false,
    }
    .normalized();
    assert_eq!(appearance.font_family, DEFAULT_TERMINAL_FONT_FAMILY);
    assert_eq!(appearance.font_size, FontSize::points(13));
    assert!(!appearance.cursor_blink);
}

#[test]
fn font_size_is_kept_within_its_bounds() {
    let sized = |font_size: FontSize| TerminalAppearance {
        font_family: " Menlo ".to_string(),
        font_size,
        cursor_blink: true,
    };
    assert_eq!(sized(FontSize::points(2)).normalized().font_size, FontSize::points(8));
    assert_eq!(sized(FontSize::points(200)).normalized().font_size, FontSize::points(48));
    let once = sized(FontSize::points(20)).normalized();
    assert_eq!(once.font_family, "Menlo");
    assert_eq!(once.font_size, FontSize::points(20));
    assert_eq!(once.normalized(), once);
}

#[test]
fn reverse_swaps_default_colors() {
    let cell = ClientCell {
        ch: 'A',
        fg: ColorSpec::Default,
        bg: ColorSpec::Default,
        flags: REVERSE,
    };
    assert_eq!(resolve_bg(&cell), DEFAULT_FG);
    assert_eq!(resolve_text_fg(&cell), DEFAULT_BG);
}

#[test]
fn viewport_metrics_round_trip_for_same_scale() {
    let mut metrics = ViewportMetrics::default();
    metrics.store(7.8f32.round() as u16, 14.95f32.round() as u16, 2.0f32.to_bits());
    assert_eq!(metrics.cell_size_for(2.0f32.to_bits()), Some((8, 15)));
    assert_eq!(metrics.cell_size_for(1.0f32.to_bits()), None);
}

#[test]
fn printable_and_alt_text_are_utf8_bytes() {
    let normal = translate_key(
        &press(Key::Character("你".to_string()), Some('a'), NONE, Some("你")),
        Platform::Other,
    );
    assert_eq!(normal, KeyAction::Bytes("你".as_bytes().to_vec()));

    let alt = translate_key(
        &press(Key::Character("x".to_string()), Some('x'), ALT, Some("x")),
        Platform::Other,
    );
    assert_eq!(alt, KeyAction::Bytes(b"\x1bx".to_vec()));
}

#[test]
fn control_and_navigation_keys_use_terminal_sequences() {
    let ctrl_c = translate_key(
        &press(Key::Character("c".to_string()), Some('c'), CTRL, None),
        Platform::Other,
    );
    assert_eq!(ctrl_c, KeyAction::Bytes(vec![3]));

    let left = translate_key(&press(Key::Named(Named::ArrowLeft), None, CTRL, None), Platform::Other);
    assert_eq!(left, KeyAction::Bytes(b"\x1b[1;5D".to_vec()));

    let ctrl_bracket = translate_key(
        &press(Key::Character("[".to_string()), None, CTRL, None),
        Platform::Other,
    );
    assert_eq!(ctrl_bracket, KeyAction::Bytes(vec![27]));
}

#[test]
fn plain_navigation_keys_have_no_modifier() {
    let up = translate_key(&press(Key::Named(Named::ArrowUp), None, NONE, None), Platform::Other);
    assert_eq!(up, KeyAction::Bytes(b"\x1b[A".to_vec()));
    let enter = translate_key(&press(Key::Named(Named::Enter), None, NONE, None), Platform::Other);
    assert_eq!(enter, KeyAction::Bytes(b"\r".to_vec()));
    let f5 = translate_key(&press(Key::Named(Named::F5), None, NONE, None), Platform::Other);
    assert_eq!(f5, KeyAction::Bytes(b"\x1b[15~".to_vec()));
    let erase = translate_key(&press(Key::Named(Named::Backspace), None, NONE, None), Platform::Other);
    assert_eq!(erase, KeyAction::Bytes(vec![0x7f]));
}

#[test]
fn clipboard_keys_follow_the_platform() {
    let logo_v = press(
        Key::Character("v".to_string()),
        Some('v'),
        Modifiers { shift: false, control: false, alt: false, logo: true },
        None,
    );
    assert_eq!(translate_key(&logo_v, Platform::MacOs), KeyAction::Paste);
    let ctrl_shift_c = press(
        Key::Character("C".to_string()),
        Some('c'),
        Modifiers { shift: true, control: true, alt: false, logo: false },
        None,
    );
    assert_eq!(translate_key(&ctrl_shift_c, Platform::Other), KeyAction::Copy);
}

#[test]
fn selection_extracts_rows_and_trims_unselected_padding() {
    let grid = grid_with_text(&["hello ", "world "], 6);
    let rows: BTreeMap<u64, Vec<ClientCell>> = (0..grid.rows)
        .filter_map(|row| grid.line_cells(row).map(|cells| (u64::from(row), cells.to_vec())))
        .collect();
    let selection = Selection {
        anchor: CellPosition { row: 0, col: 1 },
        head: CellPosition { row: 1, col: 4 },
    };
    assert_eq!(
        selected_text(&rows, grid.cols, Some(selection)).as_deref(),
        Some("ello\nworld")
    );
    assert_eq!(
        selected_text(
            &rows,
            grid.cols,
            Some(Selection { anchor: selection.head, head: selection.anchor })
        ),
        Some("ello\nworld".to_string())
    );
}

#[test]
fn selection_keeps_cached_rows_across_scrollback_viewports() {
    let mut bottom = grid_with_text(&["two  ", "three"], 5);
    bottom.viewport_start = 2;
    let mut older = grid_with_text(&["zero ", "one  "], 5);
    older.viewport_start = 0;

    let mut state = State {
        selection: Some(Selection {
            anchor: CellPosition { row: 3, col: 4 },
            head: CellPosition { row: 3, col: 4 },
        }),
        ..State::default()
    };
    state.cache_snapshot(&bottom);
    state.cache_snapshot(&older);
    state.selection.as_mut().unwrap().head = CellPosition { row: 0, col: 0 };

    assert_eq!(
        state.selected_text(&older).as_deref(),
        Some("zero\none\ntwo\nthree")
    );
}

#[test]
fn an_empty_selection_has_no_text() {
    let grid = grid_with_text(&["abc"], 3);
    let mut state = State::default();
    assert_eq!(state.selected_text(&grid), None);
    let here = CellPosition { row: 0, col: 1 };
    state.selection = Some(Selection { anchor: here, head: here });
    assert_eq!(state.selected_text(&grid), None);
}

#[test]
fn another_session_forgets_the_selection() {
    let grid = grid_with_text(&["abc"], 3);
    let mut state = State::default();
    state.reset_for_session("first");
    state.cache_snapshot(&grid);
    state.selection = Some(Selection {
        anchor: CellPosition { row: 0, col: 0 },
        head: CellPosition { row: 0, col: 2 },
    });
    state.reset_for_session("second");
    assert_eq!(state.selection, None);
    assert!(state.selection_rows.is_empty());
    assert_eq!(state.session_key, "second");
}

#[test]
fn keys_are_published_only_with_the_focus() {
    let grid = grid_with_text(&["abc"], 3);
    let mut state = State::default();
    state.reset_for_session("s");
    let key = || Event::KeyPressed(press(Key::Named(Named::Enter), None, NONE, None));
    let unfocused = state.update("s", &grid, key(), Platform::Other);
    assert!(unfocused.publish.is_empty());
    state.focus();
    assert!(state.is_focused());
    let focused = state.update("s", &grid, key(), Platform::Other);
    assert_eq!(focused.publish, vec![Publish::Input(b"\r".to_vec())]);
}

#[test]
fn a_size_is_published_once() {
    let grid = grid_with_text(&["abc"], 3);
    let mut state = State::default();
    let first = state.update("s", &grid, Event::RedrawRequested(Some((80, 24))), Platform::Other);
    assert!(first.publish.contains(&Publish::Resize(80, 24)));
    let second = state.update("s", &grid, Event::RedrawRequested(Some((80, 24))), Platform::Other);
    assert!(!second.publish.contains(&Publish::Resize(80, 24)));
}

#[test]
fn pasted_text_is_published() {
    let mut state = State::default();
    assert_eq!(
        state.paste(Some("é".to_string())),
        vec![Publish::Paste("é".as_bytes().to_vec())]
    );
    assert!(state.paste(None).is_empty());
    assert!(state.paste(Some(String::new())).is_empty());
}

#[test]
fn labels_follow_the_items() {
    let labels = ContextLabels { copy: "Copy".to_string(), paste: "Paste".to_string() };
    assert_eq!(labels.label(ContextItem::Copy), "Copy");
    assert_eq!(labels.label(ContextItem::Paste), "Paste");
    let mut state = State::default();
    let point = MenuPoint { x_bits: 1, y_bits: 2 };
    let grid = grid_with_text(&["abc"], 3);
    state.update("s", &grid, Event::RightPressed(Some(point)), Platform::Other);
    assert_eq!(state.context_menu, Some(point));
}

fn encoded(seq: u64, rows: &[(u16, u16, u16, &[(u16, u8, &[u8], &[u8], &str)])]) -> Vec<u8> {
    let mut out = seq.to_be_bytes().to_vec();
    out.extend_from_slice(&[0, 1, 0, 2, 1]);
    out.extend_from_slice(&(rows.len() as u16).to_be_bytes());
    for (row, start, end, runs) in rows {
        out.extend_from_slice(&row.to_be_bytes());
        out.extend_from_slice(&start.to_be_bytes());
        out.extend_from_slice(&end.to_be_bytes());
        out.extend_from_slice(&(runs.len() as u16).to_be_bytes());
        for (len, flags, fg, bg, ch) in *runs {
            out.extend_from_slice(&len.to_be_bytes());
            out.push(*flags);
            out.extend_from_slice(fg);
            out.extend_from_slice(bg);
            out.push(ch.len() as u8);
            out.extend_from_slice(ch.as_bytes());
        }
    }
    out
}

#[test]
fn frames_are_decoded() {
    let bytes = encoded(
        7,
        &[(0, 0, 3, &[(1, BOLD, &[1, 9], &[0], "a"), (1, WIDE, &[2, 1, 2, 3], &[0], "你")])],
    );
    let frame = decode_frame(&bytes).expect("whole frame");
    assert_eq!(frame.seq, 7);
    assert_eq!((frame.cursor_row, frame.cursor_col, frame.cursor_visible), (1, 2, true));
    assert_eq!(frame.lines.len(), 1);
    assert_eq!(
        frame.lines[0].runs[1],
        Run { len: 1, flags: WIDE, fg: ColorSpec::Rgb(1, 2, 3), bg: ColorSpec::Default, ch: '你' }
    );
    for cut in 0..bytes.len() {
        assert_eq!(decode_frame(&bytes[..cut]), None);
    }
    assert_eq!(decode_frame(&[]), None);
}

#[test]
fn a_wide_character_takes_two_cells() {
    let mut cells: Vec<ClientCell> = Vec::new();
    let written = expand_run(
        &Run { len: 2, flags: WIDE, fg: ColorSpec::Default, bg: ColorSpec::Default, ch: '你' },
        &mut cells,
        4,
    );
    assert_eq!(cells.len(), 2);
    assert_eq!(cells[0].ch, '你');
    assert!(cells[1].flags & WIDE_SPACER != 0);
    assert!(cells[0].flags & WIDE_SPACER == 0);
    assert_eq!(written, (2, false));
    let run = Run { len: 5, flags: 0, fg: ColorSpec::Default, bg: ColorSpec::Default, ch: 'x' };
    assert_eq!(expand_run(&run, &mut cells, 4), (2, true));
    assert_eq!(expand_run(&run, &mut cells, 4), (0, true));
    assert_eq!(cells.len(), 4);
}

#[test]
fn a_frame_changes_only_its_lines() {
    let mut grid = grid_with_text(&["abc", "def"], 3);
    let before = grid.version;
    grid.apply_frame(&TerminalFrame {
        seq: 2,
        cursor_row: 1,
        cursor_col: 2,
        cursor_visible: false,
        viewport_start: 0,
        lines: vec![LineUpdate { row: 1, start_col: 0, end_col: 2, runs: vec![run('x'), run('y'), run('z')] }],
    });
    assert_eq!(grid.plain_text(), "abc\nxyz");
    assert_eq!(grid.last_seq, Some(2));
    assert!(!grid.cursor_visible);
    assert_ne!(grid.version, before);
    assert_eq!(grid.cell(1, 2).map(|cell| cell.ch), Some('z'));
    assert_eq!(grid.cell(2, 0), None);
    assert_eq!(grid.line_cells(2), None);
}

#[test]
fn resetting_makes_the_grid_blank() {
    let mut grid = grid_with_text(&["abc"], 3);
    let version = grid.version;
    grid.reset(1, 3);
    assert_eq!(grid.plain_text(), "");
    assert_eq!(grid.version, version + 1);
    grid.reset(2, 5);
    assert_eq!(grid.version, version + 2);
    assert_eq!((grid.rows, grid.cols), (2, 5));
    assert_eq!(grid.plain_text(), "\n");
}

#[test]
fn a_grid_without_columns_takes_no_line() {
    let grid = ClientGrid::new(1, 0);
    assert!(!grid.fits(&frame_with_text(&["a"], 1)));
    assert!(ClientGrid::new(1, 1).fits(&frame_with_text(&["a"], 1)));
}

#[test]
fn glyphs_of_a_row_are_drawn_once() {
    let grid = grid_with_text(&["ab c"], 4);
    let shapes = draw_grid(&grid, false, None, &None, None);
    assert_eq!(shapes[0], Shape::Backdrop);
    let glyphs: String = shapes
        .iter()
        .filter_map(|shape| match shape {
            Shape::Text { content, .. } => Some(content.replace(' ', "")),
            _ => None,
        })
        .collect();
    assert_eq!(glyphs, "abc");
}

#[test]
fn a_selection_is_highlighted() {
    let grid = grid_with_text(&["abcd", "efgh"], 4);
    let selection = Selection {
        anchor: CellPosition { row: 0, col: 2 },
        head: CellPosition { row: 1, col: 1 },
    };
    let shapes = draw_grid(&grid, false, Some(selection), &None, None);
    let rows: Vec<u16> = shapes
        .iter()
        .filter_map(|shape| match shape {
            Shape::Highlight { row, .. } => Some(*row),
            _ => None,
        })
        .collect();
    assert_eq!(rows, vec![0, 1]);
}
