//! The tool that tries out terminals.
use vida::json;
use vida::json::Json;
use vida::term::client_grid::ColorSpec;
use vida::term_test::{
    accept_reply, ansi_screen, daemon_address, decode_frame, opened_line, parse_ansi_color,
    parse_escape, parse_styled_rows, plain_screen, read_reply, render_ansi, session_list,
    watch_frame, CursorPos, EscapeError, ReplyError, StyledCell,
};

fn value(text: &str) -> Json {
    json::parse(text).expect("valid text")
}

#[test]
fn escapes_become_bytes() {
    assert_eq!(parse_escape("a\\n\\r\\t\\e"), Ok(vec![b'a', 0x0A, 0x0D, 0x09, 0x1B]));
    assert_eq!(parse_escape("\\x1b[A"), Ok(vec![0x1B, b'[', b'A']));
    assert_eq!(parse_escape("\\xFf"), Ok(vec![0xFF]));
    assert_eq!(parse_escape("\\u{4f60}!"), Ok("你!".as_bytes().to_vec()));
    assert_eq!(parse_escape("é"), Ok("é".as_bytes().to_vec()));
    assert_eq!(parse_escape(""), Ok(vec![]));
}

#[test]
fn broken_escapes_are_refused() {
    assert_eq!(parse_escape("\\"), Err(EscapeError::Unfinished));
    assert_eq!(parse_escape("\\q"), Err(EscapeError::Unknown('q')));
    assert_eq!(parse_escape("\\xzz"), Err(EscapeError::Byte("zz".to_string())));
    assert_eq!(parse_escape("\\x"), Err(EscapeError::Byte(String::new())));
    assert_eq!(parse_escape("\\u4f60"), Err(EscapeError::NoBrace));
    assert_eq!(parse_escape("\\u{4f60"), Err(EscapeError::Open("4f60".to_string())));
    assert_eq!(parse_escape("\\u{zz}"), Err(EscapeError::Number("zz".to_string())));
    assert_eq!(parse_escape("\\u{d800}"), Err(EscapeError::CodePoint(0xD800)));
    assert_eq!(parse_escape("\\u{100000000}"), Err(EscapeError::Number("100000000".to_string())));
}

#[test]
fn escape_errors_are_told() {
    let told = |error: EscapeError| error.message();
    assert_eq!(told(EscapeError::Byte("zz".to_string())), "无效的十六进制转义: \\xzz");
    assert_eq!(told(EscapeError::NoBrace), "\\u 转义必须使用 {} 包裹，如 \\u{4f60}");
    assert_eq!(told(EscapeError::Open("4".to_string())), "\\u 转义未闭合: \\u{4");
    assert_eq!(told(EscapeError::Number("z".to_string())), "无效的 Unicode 码点: \\u{z");
    assert_eq!(told(EscapeError::CodePoint(0xDABC)), "无效的 Unicode 码点: U+DABC");
    assert_eq!(told(EscapeError::Unknown('q')), "未知的转义序列: \\q");
    assert_eq!(told(EscapeError::Unfinished), "转义序列不完整（末尾单个反斜杠）");
}

#[test]
fn replies_are_read() {
    assert!(read_reply(r#"{"type": "Ok", "result": 1}"#).is_ok());
    assert_eq!(
        read_reply(r#"{"type": "Error", "message": "locked"}"#),
        Err(ReplyError::Daemon("locked".to_string()))
    );
    assert_eq!(
        accept_reply(value(r#"{"type": "Error"}"#)),
        Err("未知错误".to_string())
    );
    assert_eq!(read_reply("nonsense"), Err(ReplyError::NotJson));
    assert_eq!(daemon_address(" 4321\n"), "ws://127.0.0.1:4321");
}

#[test]
fn colors_are_read() {
    assert_eq!(parse_ansi_color(&value(r#""Default""#)).ok(), Some(ColorSpec::Default));
    assert_eq!(parse_ansi_color(&value(r#"{"Indexed": 261}"#)).ok(), Some(ColorSpec::Indexed(5)));
    assert_eq!(
        parse_ansi_color(&value(r#"{"Rgb": [1, 2]}"#)).ok(),
        Some(ColorSpec::Rgb(1, 2, 0))
    );
    let message = |text: &str| parse_ansi_color(&value(text)).expect_err("no color").message();
    assert_eq!(message(r#""Red""#), "未知颜色标签: Red");
    assert_eq!(message("3"), "color 应为字符串或对象");
    assert_eq!(message(r#"{"a": 1}"#), r#"无法解析颜色: Object {"a": Number(1)}"#);
}

#[test]
fn styled_rows_are_read() {
    let rows = value(
        r#"[[{"c": "a", "fg": "Default", "bg": {"Indexed": 1}, "flags": 9}], []]"#,
    );
    let read = parse_styled_rows(rows.as_array().expect("array")).expect("rows");
    assert_eq!(
        read,
        vec![
            vec![StyledCell { c: 'a', fg: ColorSpec::Default, bg: ColorSpec::Indexed(1), flags: 9 }],
            vec![],
        ]
    );
    let message = |text: &str| {
        parse_styled_rows(value(text).as_array().expect("array")).expect_err("broken").message()
    };
    assert_eq!(message("[1]"), "rows 应为数组");
    assert_eq!(message("[[{}]]"), "cell.c 缺失");
    assert_eq!(message(r#"[[{"c": ""}]]"#), "cell.c 应为单个字符");
    assert_eq!(message(r#"[[{"c": "a"}]]"#), "color 应为字符串或对象");
}

#[test]
fn styles_are_written_where_they_change() {
    let cell = |c: char, flags: u8| StyledCell {
        c,
        fg: ColorSpec::Indexed(2),
        bg: ColorSpec::Rgb(1, 2, 3),
        flags,
    };
    let text = render_ansi(
        &vec![vec![cell('a', 0), cell('b', 0)], vec![cell('c', 0x0f)]],
        CursorPos { row: 1, col: 4 },
    );
    assert_eq!(
        text,
        "\x1b[0m\x1b[38;5;2m\x1b[48;2;1;2;3mab\n\x1b[0m\x1b[38;5;2m\x1b[48;2;1;2;3m\x1b[1m\x1b[3m\x1b[4m\x1b[7mc\x1b[2;5H\x1b[?25h"
    );
    assert_eq!(render_ansi(&vec![], CursorPos { row: 0, col: 0 }), "\x1b[1;1H\x1b[?25h");
}

#[test]
fn screens_are_printed() {
    let styled = value(
        r#"{"result": {"rows": [[{"c": "a", "fg": "Default", "bg": "Default"}]], "cursor": {"row": 0, "col": 1}}}"#,
    );
    assert_eq!(ansi_screen(&styled), Ok("\x1b[0ma\x1b[1;2H\x1b[?25h".to_string()));
    assert_eq!(ansi_screen(&value("{}")), Err("响应格式错误".to_string()));
    let plain = value(r#"{"result": {"lines": ["x", 1], "cursor": {"row": 2, "col": 3}}}"#);
    assert_eq!(
        plain_screen(&plain),
        Ok(("x\n\n".to_string(), "cursor: row=2 col=3".to_string()))
    );
    assert_eq!(plain_screen(&value("{}")), Err("响应格式错误".to_string()));
}

#[test]
fn sessions_are_printed() {
    assert_eq!(opened_line(&value(r#"{"result": {"session_id": "s1"}}"#)), "\"s1\"");
    assert_eq!(session_list(&value(r#"{"result": []}"#)), Ok("无活跃会话\n".to_string()));
    assert_eq!(
        session_list(&value(
            r#"{"result": [{"session_id": "s", "cols": 80, "rows": 24, "alive": true}, {}]}"#
        )),
        Ok("\"s\"  80×24  alive\nnull  null×null  closed\n".to_string())
    );
    assert_eq!(session_list(&value(r#"{"result": 1}"#)), Err("响应格式错误".to_string()));
}

fn pushed(seq: u64, lines: u16) -> Vec<u8> {
    let mut bytes = vec![0x01, 0, 2, b's', b'1'];
    bytes.extend_from_slice(&seq.to_be_bytes());
    bytes.extend_from_slice(&[0, 0, 0, 0, 1]);
    bytes.extend_from_slice(&lines.to_be_bytes());
    bytes
}

#[test]
fn pushed_frames_are_summarized() {
    assert_eq!(decode_frame(&pushed(7, 258)), Some((7, 258)));
    let mut short = pushed(7, 1);
    short.pop();
    assert_eq!(decode_frame(&short), None);
    assert_eq!(decode_frame(&vec![2, 0, 0]), None);
    assert_eq!(decode_frame(&vec![]), None);
}

#[test]
fn lost_frames_are_reported() {
    let (line, last) = watch_frame(None, &pushed(7, 3), 12);
    assert_eq!(line, "seq=   7 lines=  3 bytes=   20 interval=12ms [OK]");
    assert_eq!(last, Some(7));
    let (line, last) = watch_frame(last, &pushed(9, 3), 0);
    assert_eq!(line, "seq=   9 lines=  3 bytes=   20 interval=0ms [GAP!]");
    let (line, last) = watch_frame(last, &vec![0], 5);
    assert_eq!(line, "invalid frame: 1 bytes, interval=5ms");
    assert_eq!(last, Some(9));
}
