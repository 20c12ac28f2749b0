//! The tool that tries out terminals by hand: escapes in its input, replies of
//! the daemon, screens with their colors, and reports of frames.
use vstd::prelude::*;
use vstd::string::*;

use crate::json;
use crate::json::{Json, JsonModel};
use crate::strings;
use crate::term::client_grid::ColorSpec;
use crate::term::frame;

verus! {

// ---------------------------------------------------------------------------
// Hexadecimal numbers
// ---------------------------------------------------------------------------

/// The value of a hexadecimal digit.
pub open spec fn hex_digit(c: char) -> Option<nat> {
    if '0' <= c <= '9' {
        Some((c as nat - 48) as nat)
    } else if 'a' <= c <= 'f' {
        Some((c as nat - 87) as nat)
    } else if 'A' <= c <= 'F' {
        Some((c as nat - 55) as nat)
    } else {
        None
    }
}

/// Every character is a hexadecimal digit.
pub open spec fn all_hex(s: Seq<char>) -> bool {
    forall|i: int| 0 <= i < s.len() ==> hex_digit(#[trigger] s[i]) is Some
}

/// The number that hexadecimal digits write.
pub open spec fn hex_value(s: Seq<char>) -> nat
    decreases s.len(),
{
    if s.len() == 0 {
        0
    } else {
        16 * hex_value(s.drop_last()) + hex_digit(s.last())->0
    }
}

/// The number that a text writes, where it is at most `max`: an optional plus
/// sign and at least one hexadecimal digit.
pub open spec fn hex_up_to(s: Seq<char>, max: nat) -> Option<nat> {
    let digits = if s.len() > 0 && s[0] == '+' {
        s.skip(1)
    } else {
        s
    };
    if digits.len() > 0 && all_hex(digits) && hex_value(digits) <= max {
        Some(hex_value(digits))
    } else {
        None
    }
}

fn parse_hex(chars: &Vec<char>, max: u32) -> (res: Option<u32>)
    ensures
        match res {
            Some(n) => hex_up_to(chars@, max as nat) == Some(n as nat),
            None => hex_up_to(chars@, max as nat) == None::<nat>,
        },
{
    let start: usize = if chars.len() > 0 && chars[0] == '+' {
        1
    } else {
        0
    };
    let ghost digits = chars@.skip(start as int);
    proof {
        assert(chars@.skip(0) =~= chars@);
    }
    if start == chars.len() {
        return None;
    }
    let mut value: u64 = 0;
    let mut over: bool = false;
    let mut i: usize = start;
    while i < chars.len()
        invariant
            start <= i <= chars@.len(),
            digits == chars@.skip(start as int),
            digits == (if chars@.len() > 0 && chars@[0] == '+' {
                chars@.skip(1)
            } else {
                chars@
            }),
            all_hex(digits.take(i - start)),
            !over ==> value == hex_value(digits.take(i - start)) && value <= max,
            over ==> hex_value(digits.take(i - start)) > max,
        decreases chars@.len() - i,
    {
        let c: char = chars[i];
        proof {
            assert(digits.take(i + 1 - start).drop_last() =~= digits.take(i - start));
            assert(digits[i - start] == c);
        }
        let d: u64 = if '0' <= c && c <= '9' {
            c as u64 - 48
        } else if 'a' <= c && c <= 'f' {
            c as u64 - 87
        } else if 'A' <= c && c <= 'F' {
            c as u64 - 55
        } else {
            proof {
                assert(hex_digit(digits[i - start]) is None);
            }
            return None;
        };
        if !over {
            if value * 16 + d > max as u64 {
                over = true;
            } else {
                value = value * 16 + d;
            }
        }
        i += 1;
    }
    proof {
        assert(digits.take(i - start) =~= digits);
    }
    if over {
        None
    } else {
        Some(value as u32)
    }
}

/// The hexadecimal digit of a value, as a capital.
pub open spec fn hex_char(d: nat) -> char {
    if d < 10 {
        (48 + d) as char
    } else {
        (55 + d) as char
    }
}

/// A number in hexadecimal digits.
pub open spec fn hex_text(n: nat) -> Seq<char>
    decreases n,
{
    if n < 16 {
        seq![hex_char(n)]
    } else {
        hex_text(n / 16).push(hex_char(n % 16))
    }
}

fn to_hex(n: u32) -> (res: String)
    ensures
        res@ == hex_text(n as nat),
    decreases n,
{
    let d: u32 = n % 16;
    let c: char = if d < 10 {
        (48 + d as u8) as char
    } else {
        (55 + d as u8) as char
    };
    if n < 16 {
        let mut out = String::new();
        out.push(c);
        proof {
            assert(out@ =~= hex_text(n as nat));
        }
        out
    } else {
        let mut out = to_hex(n / 16);
        out.push(c);
        out
    }
}

// ---------------------------------------------------------------------------
// Escapes
// ---------------------------------------------------------------------------

/// What is wrong with an escape.
#[derive(Debug, PartialEq)]
pub enum EscapeError {
    /// No byte is written behind `\x`.
    Byte(String),
    /// No brace opens behind `\u`.
    NoBrace,
    /// The brace does not close.
    Open(String),
    /// No number is written between the braces.
    Number(String),
    /// No character has the number.
    CodePoint(u32),
    Unknown(char),
    /// The text ends with a backslash.
    Unfinished,
}

#[verifier::ext_equal]
pub enum EscapeModel {
    Byte(Seq<char>),
    NoBrace,
    Open(Seq<char>),
    Number(Seq<char>),
    CodePoint(u32),
    Unknown(char),
    Unfinished,
}

impl View for EscapeError {
    type V = EscapeModel;

    open spec fn view(&self) -> EscapeModel {
        match self {
            EscapeError::Byte(s) => EscapeModel::Byte(s@),
            EscapeError::NoBrace => EscapeModel::NoBrace,
            EscapeError::Open(s) => EscapeModel::Open(s@),
            EscapeError::Number(s) => EscapeModel::Number(s@),
            EscapeError::CodePoint(n) => EscapeModel::CodePoint(*n),
            EscapeError::Unknown(c) => EscapeModel::Unknown(*c),
            EscapeError::Unfinished => EscapeModel::Unfinished,
        }
    }
}

impl EscapeModel {
    /// What the user is told.
    pub open spec fn text(self) -> Seq<char> {
        match self {
            EscapeModel::Byte(s) => "无效的十六进制转义: \\x"@ + s,
            EscapeModel::NoBrace => "\\u 转义必须使用 {} 包裹，如 \\u{4f60}"@,
            EscapeModel::Open(s) => "\\u 转义未闭合: \\u{"@ + s,
            EscapeModel::Number(s) => "无效的 Unicode 码点: \\u{"@ + s,
            EscapeModel::CodePoint(n) => "无效的 Unicode 码点: U+"@ + hex_text(n as nat),
            EscapeModel::Unknown(c) => "未知的转义序列: \\"@ + seq![c],
            EscapeModel::Unfinished => "转义序列不完整（末尾单个反斜杠）"@,
        }
    }
}

impl EscapeError {
    /// What the user is told.
    pub fn message(&self) -> (res: String)
        ensures
            res@ == self@.text(),
    {
        match self {
            EscapeError::Byte(s) => strings::concat("无效的十六进制转义: \\x", s.as_str()),
            EscapeError::NoBrace => "\\u 转义必须使用 {} 包裹，如 \\u{4f60}".to_string(),
            EscapeError::Open(s) => strings::concat("\\u 转义未闭合: \\u{", s.as_str()),
            EscapeError::Number(s) => strings::concat("无效的 Unicode 码点: \\u{", s.as_str()),
            EscapeError::CodePoint(n) => {
                let digits = to_hex(*n);
                strings::concat("无效的 Unicode 码点: U+", digits.as_str())
            },
            EscapeError::Unknown(c) => {
                let mut out = "未知的转义序列: \\".to_string();
                let ghost before = out@;
                out.push(*c);
                proof {
                    assert(out@ =~= before + seq![*c]);
                }
                out
            },
            EscapeError::Unfinished => "转义序列不完整（末尾单个反斜杠）".to_string(),
        }
    }
}

/// The first closing brace at or behind a position; the end where there is
/// none.
pub open spec fn brace_from(s: Seq<char>, at: int) -> int
    decreases s.len() - at,
{
    if at >= s.len() {
        s.len() as int
    } else if s[at] == '}' {
        at
    } else {
        brace_from(s, at + 1)
    }
}

/// The code point has a character.
pub open spec fn is_char(n: nat) -> bool {
    n < 0xD800 || 0xE000 <= n <= 0x10FFFF
}

/// The bytes of the character, or of the escape, at a position, and the
/// position behind it.
pub open spec fn unit_at(s: Seq<char>, at: int) -> Result<(Seq<u8>, int), EscapeModel> {
    if s[at] != '\\' {
        Ok((vstd::utf8::encode_scalar(s[at] as u32), at + 1))
    } else if at + 1 >= s.len() {
        Err(EscapeModel::Unfinished)
    } else if s[at + 1] == 'n' {
        Ok((seq![0x0A], at + 2))
    } else if s[at + 1] == 'r' {
        Ok((seq![0x0D], at + 2))
    } else if s[at + 1] == 't' {
        Ok((seq![0x09], at + 2))
    } else if s[at + 1] == 'e' {
        Ok((seq![0x1B], at + 2))
    } else if s[at + 1] == 'x' {
        let end = if at + 4 <= s.len() {
            at + 4
        } else {
            s.len() as int
        };
        let digits = s.subrange(at + 2, end);
        match hex_up_to(digits, 255) {
            Some(n) => Ok((seq![n as u8], end)),
            None => Err(EscapeModel::Byte(digits)),
        }
    } else if s[at + 1] == 'u' {
        if at + 2 >= s.len() || s[at + 2] != '{' {
            Err(EscapeModel::NoBrace)
        } else {
            let end = brace_from(s, at + 3);
            let digits = s.subrange(at + 3, end);
            if end == s.len() {
                Err(EscapeModel::Open(digits))
            } else {
                match hex_up_to(digits, u32::MAX as nat) {
                    None => Err(EscapeModel::Number(digits)),
                    Some(n) => if is_char(n) {
                        Ok((vstd::utf8::encode_scalar(n as u32), end + 1))
                    } else {
                        Err(EscapeModel::CodePoint(n as u32))
                    },
                }
            }
        }
    } else {
        Err(EscapeModel::Unknown(s[at + 1]))
    }
}

/// The bytes of a text from a position on.
pub open spec fn unescaped(s: Seq<char>, at: int) -> Result<Seq<u8>, EscapeModel>
    decreases s.len() - at,
{
    if at < 0 || at >= s.len() {
        Ok(Seq::empty())
    } else {
        match unit_at(s, at) {
            Ok((bytes, next)) => if next <= at || next > s.len() {
                Ok(Seq::empty())
            } else {
                match unescaped(s, next) {
                    Ok(rest) => Ok(bytes + rest),
                    Err(e) => Err(e),
                }
            },
            Err(e) => Err(e),
        }
    }
}

proof fn lemma_brace_from(s: Seq<char>, at: int)
    requires
        0 <= at <= s.len(),
    ensures
        at <= brace_from(s, at) <= s.len(),
    decreases s.len() - at,
{
    if at < s.len() && s[at] != '}' {
        lemma_brace_from(s, at + 1);
    }
}

fn find_brace(chars: &Vec<char>, at: usize) -> (res: usize)
    requires
        at <= chars@.len(),
    ensures
        res == brace_from(chars@, at as int),
        at <= res <= chars@.len(),
{
    let mut i: usize = at;
    while i < chars.len() && chars[i] != '}'
        invariant
            at <= i <= chars@.len(),
            brace_from(chars@, i as int) == brace_from(chars@, at as int),
        ensures
            at <= i <= chars@.len(),
            i == brace_from(chars@, at as int),
        decreases chars@.len() - i,
    {
        i += 1;
    }
    i
}

fn slice_of(chars: &Vec<char>, from: usize, to: usize) -> (res: Vec<char>)
    requires
        from <= to <= chars@.len(),
    ensures
        res@ == chars@.subrange(from as int, to as int),
{
    let mut out: Vec<char> = Vec::new();
    let mut i: usize = from;
    while i < to
        invariant
            from <= i <= to <= chars@.len(),
            out@ =~= chars@.subrange(from as int, i as int),
        decreases to - i,
    {
        out.push(chars[i]);
        i += 1;
    }
    out
}

fn char_bytes(c: char) -> (res: Vec<u8>)
    ensures
        res@ == vstd::utf8::encode_scalar(c as u32),
{
    let mut s = String::new();
    s.push(c);
    proof {
        assert(s@ =~= seq![c]);
        assert(s@.drop_first() =~= Seq::<char>::empty());
        assert(vstd::utf8::encode_utf8(Seq::<char>::empty()) =~= Seq::<u8>::empty());
        assert(vstd::utf8::encode_utf8(s@) =~= vstd::utf8::encode_scalar(c as u32));
    }
    s.as_str().as_bytes_vec()
}

fn one_byte(b: u8) -> (res: Vec<u8>)
    ensures
        res@ == seq![b],
{
    let mut out: Vec<u8> = Vec::new();
    out.push(b);
    proof {
        assert(out@ =~= seq![b]);
    }
    out
}

/// The result of reading one character or escape.
pub open spec fn unit_model(res: Result<(Vec<u8>, usize), EscapeError>) -> Result<
    (Seq<u8>, int),
    EscapeModel,
> {
    match res {
        Ok((bytes, next)) => Ok((bytes@, next as int)),
        Err(e) => Err(e@),
    }
}

fn read_unit(chars: &Vec<char>, at: usize) -> (res: Result<(Vec<u8>, usize), EscapeError>)
    requires
        at < chars@.len(),
    ensures
        unit_model(res) == unit_at(chars@, at as int),
        res matches Ok(unit) ==> at < unit.1 <= chars@.len(),
{
    let len: usize = chars.len();
    if chars[at] != '\\' {
        return Ok((char_bytes(chars[at]), at + 1));
    }
    if at + 1 >= len {
        return Err(EscapeError::Unfinished);
    }
    let kind: char = chars[at + 1];
    if kind == 'n' {
        Ok((one_byte(0x0A), at + 2))
    } else if kind == 'r' {
        Ok((one_byte(0x0D), at + 2))
    } else if kind == 't' {
        Ok((one_byte(0x09), at + 2))
    } else if kind == 'e' {
        Ok((one_byte(0x1B), at + 2))
    } else if kind == 'x' {
        let end: usize = if len - at >= 4 {
            at + 4
        } else {
            len
        };
        let digits = slice_of(chars, at + 2, end);
        match parse_hex(&digits, 255) {
            Some(n) => Ok((one_byte(n as u8), end)),
            None => Err(EscapeError::Byte(strings::string_of(chars, at + 2, end))),
        }
    } else if kind == 'u' {
        if at + 2 >= len || chars[at + 2] != '{' {
            return Err(EscapeError::NoBrace);
        }
        let end: usize = find_brace(chars, at + 3);
        if end == len {
            return Err(EscapeError::Open(strings::string_of(chars, at + 3, end)));
        }
        let digits = slice_of(chars, at + 3, end);
        match parse_hex(&digits, u32::MAX) {
            None => Err(EscapeError::Number(strings::string_of(chars, at + 3, end))),
            Some(n) => match char::from_u32(n) {
                Some(c) => Ok((char_bytes(c), end + 1)),
                None => Err(EscapeError::CodePoint(n)),
            },
        }
    } else {
        Err(EscapeError::Unknown(kind))
    }
}

/// The result of reading a text with escapes.
pub open spec fn bytes_model(res: Result<Vec<u8>, EscapeError>) -> Result<Seq<u8>, EscapeModel> {
    match res {
        Ok(bytes) => Ok(bytes@),
        Err(e) => Err(e@),
    }
}

/// The bytes of a text with escapes: `\n`, `\r`, `\t`, `\e`, `\xNN` for a byte,
/// and `\u{NNNN}` for a character. Any other character is written in UTF-8.
pub fn parse_escape(input: &str) -> (res: Result<Vec<u8>, EscapeError>)
    ensures
        bytes_model(res) == unescaped(input@, 0),
{
    let chars = strings::chars_of(input);
    let mut out: Vec<u8> = Vec::new();
    let mut i: usize = 0;
    while i < chars.len()
        invariant
            i <= chars@.len(),
            chars@ == input@,
            unescaped(input@, 0) == (match unescaped(input@, i as int) {
                Ok(rest) => Ok::<Seq<u8>, EscapeModel>(out@ + rest),
                Err(e) => Err(e),
            }),
        decreases chars@.len() - i,
    {
        match read_unit(&chars, i) {
            Ok((bytes, next)) => {
                let ghost before = out@;
                let mut more = bytes;
                let ghost added = more@;
                out.append(&mut more);
                proof {
                    assert(out@ =~= before + added);
                    if let Ok(rest) = unescaped(input@, next as int) {
                        assert(before + (added + rest) =~= out@ + rest);
                    }
                }
                i = next;
            },
            Err(e) => return Err(e),
        }
    }
    proof {
        assert(out@ + Seq::<u8>::empty() =~= out@);
    }
    Ok(out)
}

/// A text without a backslash is sent as it is, in UTF-8.
pub proof fn law_plain_text_is_sent_as_it_is(s: Seq<char>)
    requires
        !s.contains('\\'),
    ensures
        unescaped(s, 0) == Ok::<Seq<u8>, EscapeModel>(vstd::utf8::encode_utf8(s)),
{
    lemma_plain_from(s, 0);
    assert(s.skip(0) =~= s);
}

proof fn lemma_plain_from(s: Seq<char>, at: int)
    requires
        !s.contains('\\'),
        0 <= at <= s.len(),
    ensures
        unescaped(s, at) == Ok::<Seq<u8>, EscapeModel>(vstd::utf8::encode_utf8(s.skip(at))),
    decreases s.len() - at,
{
    if at < s.len() {
        lemma_plain_from(s, at + 1);
        assert(s.contains(s[at]));
        assert(s.skip(at).drop_first() =~= s.skip(at + 1));
        assert(s.skip(at)[0] == s[at]);
    } else {
        assert(s.skip(at) =~= Seq::<char>::empty());
        assert(vstd::utf8::encode_utf8(s.skip(at)) =~= Seq::<u8>::empty());
    }
}

// ---------------------------------------------------------------------------
// Replies
// ---------------------------------------------------------------------------

/// Where the daemon listens, by the text of the file with its port.
pub fn daemon_address(port_file: &str) -> (res: String)
    ensures
        res@ == "ws://127.0.0.1:"@ + strings::trimmed(port_file@),
{
    let port = strings::trim(port_file);
    strings::concat("ws://127.0.0.1:", port.as_str())
}

/// What is wrong with a reply.
#[derive(Debug, PartialEq)]
pub enum ReplyError {
    NotJson,
    /// The daemon answered with an error.
    Daemon(String),
}

/// What a reply says: an error of the daemon, or the reply itself.
pub open spec fn accepted(value: JsonModel) -> Result<JsonModel, Seq<char>> {
    if value.at("type"@).text() == Some("Error"@) {
        Err(
            match value.at("message"@).text() {
                Some(message) => message,
                None => "未知错误"@,
            },
        )
    } else {
        Ok(value)
    }
}

/// What a reply says.
pub fn accept_reply(value: Json) -> (res: Result<Json, String>)
    ensures
        match res {
            Ok(v) => accepted(value@) == Ok::<JsonModel, Seq<char>>(v@),
            Err(e) => accepted(value@) == Err::<JsonModel, Seq<char>>(e@),
        },
{
    let failed: bool = match value.str_at("type") {
        Some(kind) => strings::text_eq(kind, "Error"),
        None => false,
    };
    if failed {
        Err(
            match value.string_at("message") {
                Some(message) => message,
                None => "未知错误".to_string(),
            },
        )
    } else {
        Ok(value)
    }
}

/// What the text of a reply says.
pub fn read_reply(text: &str) -> (res: Result<Json, ReplyError>)
    ensures
        match json::parsed(text@) {
            None => res matches Err(e) && e is NotJson,
            Some(value) => match accepted(value) {
                Ok(v) => res matches Ok(got) && got@ == v,
                Err(message) => res matches Err(e) && e matches ReplyError::Daemon(m) && m@
                    == message,
            },
        },
{
    match json::parse(text) {
        None => Err(ReplyError::NotJson),
        Some(value) => match accept_reply(value) {
            Ok(v) => Ok(v),
            Err(message) => Err(ReplyError::Daemon(message)),
        },
    }
}

// ---------------------------------------------------------------------------
// Styled screens
// ---------------------------------------------------------------------------

/// A cell with its style.
#[derive(Debug, Clone, Copy, PartialEq, Eq, Structural)]
pub struct StyledCell {
    pub c: char,
    pub fg: ColorSpec,
    pub bg: ColorSpec,
    pub flags: u8,
}

/// The place of the cursor.
#[derive(Debug, Clone, Copy, PartialEq, Eq, Structural)]
pub struct CursorPos {
    pub row: u16,
    pub col: u16,
}

/// What is wrong with a styled screen.
#[derive(Debug)]
pub enum StyleError {
    /// A row is no array.
    Row,
    /// A cell has no character.
    NoChar,
    /// The character of a cell is an empty text.
    EmptyChar,
    /// A word that names no color.
    ColorWord(String),
    /// A color that is neither a word nor an object.
    ColorShape,
    /// An object that describes no color.
    ColorObject(Json),
}

#[verifier::ext_equal]
pub enum StyleErrorModel {
    Row,
    NoChar,
    EmptyChar,
    ColorWord(Seq<char>),
    ColorShape,
    ColorObject(JsonModel),
}

impl View for StyleError {
    type V = StyleErrorModel;

    open spec fn view(&self) -> StyleErrorModel {
        match self {
            StyleError::Row => StyleErrorModel::Row,
            StyleError::NoChar => StyleErrorModel::NoChar,
            StyleError::EmptyChar => StyleErrorModel::EmptyChar,
            StyleError::ColorWord(s) => StyleErrorModel::ColorWord(s@),
            StyleError::ColorShape => StyleErrorModel::ColorShape,
            StyleError::ColorObject(value) => StyleErrorModel::ColorObject(value@),
        }
    }
}

impl StyleErrorModel {
    /// What the user is told.
    pub open spec fn text(self) -> Seq<char> {
        match self {
            StyleErrorModel::Row => "rows 应为数组"@,
            StyleErrorModel::NoChar => "cell.c 缺失"@,
            StyleErrorModel::EmptyChar => "cell.c 应为单个字符"@,
            StyleErrorModel::ColorWord(s) => "未知颜色标签: "@ + s,
            StyleErrorModel::ColorShape => "color 应为字符串或对象"@,
            StyleErrorModel::ColorObject(value) => "无法解析颜色: "@ + json::debugged(
                json::collected(value),
            ),
        }
    }
}

impl StyleError {
    /// What the user is told.
    pub fn message(&self) -> (res: String)
        ensures
            res@ == self@.text(),
    {
        match self {
            StyleError::Row => "rows 应为数组".to_string(),
            StyleError::NoChar => "cell.c 缺失".to_string(),
            StyleError::EmptyChar => "cell.c 应为单个字符".to_string(),
            StyleError::ColorWord(s) => strings::concat("未知颜色标签: ", s.as_str()),
            StyleError::ColorShape => "color 应为字符串或对象".to_string(),
            StyleError::ColorObject(value) => {
                let shown = json::debug_text(value);
                strings::concat("无法解析颜色: ", shown.as_str())
            },
        }
    }
}

/// The lowest eight bits of a number, nothing where there is none.
pub open spec fn low_byte(n: Option<nat>) -> u8 {
    match n {
        Some(n) => (n % 256) as u8,
        None => 0,
    }
}

/// A component of a color.
pub open spec fn component(items: Seq<JsonModel>, i: int) -> u8 {
    if i < items.len() {
        low_byte(items[i].unsigned())
    } else {
        0
    }
}

/// The color that a value describes.
pub open spec fn color_of(value: JsonModel) -> Result<ColorSpec, StyleErrorModel> {
    match value.text() {
        Some(word) => if word == "Default"@ {
            Ok(ColorSpec::Default)
        } else {
            Err(StyleErrorModel::ColorWord(word))
        },
        None => if !(value is Object) {
            Err(StyleErrorModel::ColorShape)
        } else {
            match value.unsigned_at("Indexed"@) {
                Some(n) => Ok(ColorSpec::Indexed(low_byte(Some(n)))),
                None => match value.items_at("Rgb"@) {
                    Some(items) => Ok(
                        ColorSpec::Rgb(
                            component(items, 0),
                            component(items, 1),
                            component(items, 2),
                        ),
                    ),
                    None => Err(StyleErrorModel::ColorObject(value)),
                },
            }
        },
    }
}

/// The cell that a value describes.
pub open spec fn cell_of(value: JsonModel) -> Result<StyledCell, StyleErrorModel> {
    match value.at("c"@).text() {
        None => Err(StyleErrorModel::NoChar),
        Some(s) => if s.len() == 0 {
            Err(StyleErrorModel::EmptyChar)
        } else {
            match color_of(value.at("fg"@)) {
                Err(e) => Err(e),
                Ok(fg) => match color_of(value.at("bg"@)) {
                    Err(e) => Err(e),
                    Ok(bg) => Ok(
                        StyledCell {
                            c: s[0],
                            fg,
                            bg,
                            flags: low_byte(value.at("flags"@).unsigned()),
                        },
                    ),
                },
            }
        },
    }
}

/// The cells that values describe; the first error counts.
pub open spec fn cells_of(items: Seq<JsonModel>) -> Result<Seq<StyledCell>, StyleErrorModel>
    decreases items.len(),
{
    if items.len() == 0 {
        Ok(Seq::empty())
    } else {
        match cells_of(items.drop_last()) {
            Err(e) => Err(e),
            Ok(before) => match cell_of(items.last()) {
                Ok(cell) => Ok(before.push(cell)),
                Err(e) => Err(e),
            },
        }
    }
}

/// The row that a value describes.
pub open spec fn row_of(value: JsonModel) -> Result<Seq<StyledCell>, StyleErrorModel> {
    match value.items() {
        Some(items) => cells_of(items),
        None => Err(StyleErrorModel::Row),
    }
}

/// The rows that values describe; the first error counts.
pub open spec fn rows_of(items: Seq<JsonModel>) -> Result<Seq<Seq<StyledCell>>, StyleErrorModel>
    decreases items.len(),
{
    if items.len() == 0 {
        Ok(Seq::empty())
    } else {
        match rows_of(items.drop_last()) {
            Err(e) => Err(e),
            Ok(before) => match row_of(items.last()) {
                Ok(row) => Ok(before.push(row)),
                Err(e) => Err(e),
            },
        }
    }
}

/// The cells of rows.
pub open spec fn row_cells(rows: Seq<Vec<StyledCell>>) -> Seq<Seq<StyledCell>> {
    Seq::new(rows.len(), |i: int| rows[i]@)
}

fn low_bits(n: Option<u64>) -> (res: u8)
    ensures
        res == low_byte(
            match n {
                Some(n) => Some(n as nat),
                None => None,
            },
        ),
{
    match n {
        Some(n) => (n % 256) as u8,
        None => 0,
    }
}

fn color_component(items: &Vec<Json>, i: usize) -> (res: u8)
    ensures
        res == component(json::models(items@), i as int),
{
    if i < items.len() {
        low_bits(items[i].as_u64())
    } else {
        0
    }
}

/// The result of reading a color.
pub open spec fn color_model(res: Result<ColorSpec, StyleError>) -> Result<
    ColorSpec,
    StyleErrorModel,
> {
    match res {
        Ok(color) => Ok(color),
        Err(e) => Err(e@),
    }
}

/// The color that a value describes: the word `Default`, a number of the
/// palette under `Indexed`, or three components under `Rgb`.
pub fn parse_ansi_color(value: &Json) -> (res: Result<ColorSpec, StyleError>)
    ensures
        color_model(res) == color_of(value@),
{
    if let Some(word) = value.as_str() {
        return if strings::text_eq(word, "Default") {
            Ok(ColorSpec::Default)
        } else {
            Err(StyleError::ColorWord(word.to_string()))
        };
    }
    match value {
        Json::Object(_) => {},
        _ => return Err(StyleError::ColorShape),
    }
    if let Some(n) = value.u64_at("Indexed") {
        return Ok(ColorSpec::Indexed((n % 256) as u8));
    }
    if let Some(items) = value.array_at("Rgb") {
        return Ok(
            ColorSpec::Rgb(
                color_component(items, 0),
                color_component(items, 1),
                color_component(items, 2),
            ),
        );
    }
    Err(StyleError::ColorObject(value.clone()))
}

fn parse_cell(value: &Json) -> (res: Result<StyledCell, StyleError>)
    ensures
        match res {
            Ok(cell) => cell_of(value@) == Ok::<StyledCell, StyleErrorModel>(cell),
            Err(e) => cell_of(value@) == Err::<StyledCell, StyleErrorModel>(e@),
        },
{
    let written = match value.string_at("c") {
        Some(s) => s,
        None => return Err(StyleError::NoChar),
    };
    let chars = strings::chars_of(written.as_str());
    if chars.len() == 0 {
        return Err(StyleError::EmptyChar);
    }
    let fg = match parse_ansi_color(&value.index("fg")) {
        Ok(color) => color,
        Err(e) => return Err(e),
    };
    let bg = match parse_ansi_color(&value.index("bg")) {
        Ok(color) => color,
        Err(e) => return Err(e),
    };
    let flags: u8 = low_bits(value.index("flags").as_u64());
    Ok(StyledCell { c: chars[0], fg, bg, flags })
}

fn parse_row(value: &Json) -> (res: Result<Vec<StyledCell>, StyleError>)
    ensures
        match res {
            Ok(cells) => row_of(value@) == Ok::<Seq<StyledCell>, StyleErrorModel>(cells@),
            Err(e) => row_of(value@) == Err::<Seq<StyledCell>, StyleErrorModel>(e@),
        },
{
    let items = match value.as_array() {
        Some(items) => items,
        None => return Err(StyleError::Row),
    };
    let ghost all = json::models(items@);
    let mut out: Vec<StyledCell> = Vec::new();
    let mut i: usize = 0;
    proof {
        assert(all.take(0) =~= Seq::<JsonModel>::empty());
        assert(out@ =~= Seq::<StyledCell>::empty());
    }
    while i < items.len()
        invariant
            i <= items@.len(),
            all == json::models(items@),
            value@.items() == Some(all),
            cells_of(all.take(i as int)) == Ok::<Seq<StyledCell>, StyleErrorModel>(out@),
        decreases items@.len() - i,
    {
        proof {
            assert(all.take(i + 1).drop_last() =~= all.take(i as int));
            assert(all.take(i + 1).last() == items@[i as int]@);
        }
        match parse_cell(&items[i]) {
            Ok(cell) => out.push(cell),
            Err(e) => {
                proof {
                    lemma_cells_fail(all, i + 1);
                }
                return Err(e);
            },
        }
        i += 1;
    }
    proof {
        assert(all.take(i as int) =~= all);
    }
    Ok(out)
}

proof fn lemma_cells_fail(items: Seq<JsonModel>, i: int)
    requires
        0 <= i <= items.len(),
        cells_of(items.take(i)) is Err,
    ensures
        cells_of(items) == cells_of(items.take(i)),
    decreases items.len() - i,
{
    if i < items.len() {
        assert(items.take(i + 1).drop_last() =~= items.take(i));
        lemma_cells_fail(items, i + 1);
    } else {
        assert(items.take(i) =~= items);
    }
}

proof fn lemma_rows_fail(items: Seq<JsonModel>, i: int)
    requires
        0 <= i <= items.len(),
        rows_of(items.take(i)) is Err,
    ensures
        rows_of(items) == rows_of(items.take(i)),
    decreases items.len() - i,
{
    if i < items.len() {
        assert(items.take(i + 1).drop_last() =~= items.take(i));
        lemma_rows_fail(items, i + 1);
    } else {
        assert(items.take(i) =~= items);
    }
}

/// The rows that values describe.
pub fn parse_styled_rows(rows: &Vec<Json>) -> (res: Result<Vec<Vec<StyledCell>>, StyleError>)
    ensures
        match res {
            Ok(out) => rows_of(json::models(rows@)) == Ok::<Seq<Seq<StyledCell>>, StyleErrorModel>(
                row_cells(out@),
            ),
            Err(e) => rows_of(json::models(rows@)) == Err::<Seq<Seq<StyledCell>>, StyleErrorModel>(
                e@,
            ),
        },
{
    let ghost all = json::models(rows@);
    let mut out: Vec<Vec<StyledCell>> = Vec::new();
    let mut i: usize = 0;
    proof {
        assert(all.take(0) =~= Seq::<JsonModel>::empty());
        assert(row_cells(out@) =~= Seq::<Seq<StyledCell>>::empty());
    }
    while i < rows.len()
        invariant
            i <= rows@.len(),
            all == json::models(rows@),
            rows_of(all.take(i as int)) == Ok::<Seq<Seq<StyledCell>>, StyleErrorModel>(
                row_cells(out@),
            ),
        decreases rows@.len() - i,
    {
        proof {
            assert(all.take(i + 1).drop_last() =~= all.take(i as int));
            assert(all.take(i + 1).last() == rows@[i as int]@);
        }
        let ghost before = out@;
        match parse_row(&rows[i]) {
            Ok(row) => {
                out.push(row);
                proof {
                    assert(row_cells(out@) =~= row_cells(before).push(row@));
                }
            },
            Err(e) => {
                proof {
                    lemma_rows_fail(all, i + 1);
                }
                return Err(e);
            },
        }
        i += 1;
    }
    proof {
        assert(all.take(i as int) =~= all);
    }
    Ok(out)
}

// ---------------------------------------------------------------------------
// Screens as control sequences
// ---------------------------------------------------------------------------

/// The style of a cell.
pub open spec fn style_of(cell: StyledCell) -> (u8, ColorSpec, ColorSpec) {
    (cell.flags, cell.fg, cell.bg)
}

/// The sequence that sets a color: `38` for the foreground, `48` for the
/// background.
pub open spec fn color_code(plane: Seq<char>, color: ColorSpec) -> Seq<char> {
    match color {
        ColorSpec::Default => Seq::empty(),
        ColorSpec::Indexed(i) => "\x1b["@ + plane + ";5;"@ + strings::decimal(i as nat) + "m"@,
        ColorSpec::Rgb(r, g, b) => "\x1b["@ + plane + ";2;"@ + strings::decimal(r as nat) + ";"@
            + strings::decimal(g as nat) + ";"@ + strings::decimal(b as nat) + "m"@,
    }
}

/// The sequence, where the flag is set.
pub open spec fn flag_code(flags: u8, mask: u8, code: Seq<char>) -> Seq<char> {
    if flags & mask != 0 {
        code
    } else {
        Seq::empty()
    }
}

/// The sequences that set the style of a cell, whatever it was before.
pub open spec fn style_code(cell: StyledCell) -> Seq<char> {
    "\x1b[0m"@ + color_code("38"@, cell.fg) + color_code("48"@, cell.bg) + flag_code(
        cell.flags,
        0x01,
        "\x1b[1m"@,
    ) + flag_code(cell.flags, 0x02, "\x1b[3m"@) + flag_code(cell.flags, 0x04, "\x1b[4m"@)
        + flag_code(cell.flags, 0x08, "\x1b[7m"@)
}

/// The text of cells behind a cell with a style: each cell with its style where
/// the one before it has another. Gives the style of the last one too.
pub open spec fn cells_text(before: Option<(u8, ColorSpec, ColorSpec)>, cells: Seq<StyledCell>) -> (
    Seq<char>,
    Option<(u8, ColorSpec, ColorSpec)>,
)
    decreases cells.len(),
{
    if cells.len() == 0 {
        (Seq::empty(), before)
    } else {
        let (text, style) = cells_text(before, cells.drop_last());
        let cell = cells.last();
        let code = if style == Some(style_of(cell)) {
            Seq::empty()
        } else {
            style_code(cell)
        };
        ((text + code).push(cell.c), Some(style_of(cell)))
    }
}

/// The text of rows, one per line, and the style of the last cell.
pub open spec fn rows_text(rows: Seq<Seq<StyledCell>>) -> (
    Seq<char>,
    Option<(u8, ColorSpec, ColorSpec)>,
)
    decreases rows.len(),
{
    if rows.len() == 0 {
        (Seq::empty(), None)
    } else {
        let (text, style) = rows_text(rows.drop_last());
        let start = if rows.len() > 1 {
            text + "\n"@
        } else {
            text
        };
        let (more, after) = cells_text(style, rows.last());
        (start + more, after)
    }
}

/// The sequence that puts the cursor at its place and shows it.
pub open spec fn cursor_code(cursor: CursorPos) -> Seq<char> {
    "\x1b["@ + strings::decimal((cursor.row + 1) as nat) + ";"@ + strings::decimal(
        (cursor.col + 1) as nat,
    ) + "H\x1b[?25h"@
}

fn push_color(out: &mut String, plane: &str, color: ColorSpec)
    ensures
        final(out)@ == old(out)@ + color_code(plane@, color),
{
    let ghost before = out@;
    match color {
        ColorSpec::Default => {},
        ColorSpec::Indexed(i) => {
            let number = strings::decimal_text(i as u64);
            out.append("\x1b[");
            out.append(plane);
            out.append(";5;");
            out.append(number.as_str());
            out.append("m");
        },
        ColorSpec::Rgb(r, g, b) => {
            let red = strings::decimal_text(r as u64);
            let green = strings::decimal_text(g as u64);
            let blue = strings::decimal_text(b as u64);
            out.append("\x1b[");
            out.append(plane);
            out.append(";2;");
            out.append(red.as_str());
            out.append(";");
            out.append(green.as_str());
            out.append(";");
            out.append(blue.as_str());
            out.append("m");
        },
    }
    proof {
        assert(out@ =~= before + color_code(plane@, color));
    }
}

fn push_flag(out: &mut String, flags: u8, mask: u8, code: &str)
    ensures
        final(out)@ == old(out)@ + flag_code(flags, mask, code@),
{
    let ghost before = out@;
    if flags & mask != 0 {
        out.append(code);
    }
    proof {
        assert(out@ =~= before + flag_code(flags, mask, code@));
    }
}

fn push_style(out: &mut String, cell: StyledCell)
    ensures
        final(out)@ == old(out)@ + style_code(cell),
{
    let ghost before = out@;
    out.append("\x1b[0m");
    push_color(out, "38", cell.fg);
    push_color(out, "48", cell.bg);
    push_flag(out, cell.flags, 0x01, "\x1b[1m");
    push_flag(out, cell.flags, 0x02, "\x1b[3m");
    push_flag(out, cell.flags, 0x04, "\x1b[4m");
    push_flag(out, cell.flags, 0x08, "\x1b[7m");
    proof {
        assert(out@ =~= before + style_code(cell));
    }
}

/// The style of an optional cell.
pub open spec fn opt_style(cell: Option<StyledCell>) -> Option<(u8, ColorSpec, ColorSpec)> {
    match cell {
        Some(c) => Some(style_of(c)),
        None => None,
    }
}

fn push_cells(out: &mut String, before: Option<StyledCell>, cells: &Vec<StyledCell>) -> (last:
    Option<StyledCell>)
    ensures
        final(out)@ == old(out)@ + cells_text(opt_style(before), cells@).0,
        opt_style(last) == cells_text(opt_style(before), cells@).1,
{
    let ghost start = out@;
    let mut last: Option<StyledCell> = before;
    let mut i: usize = 0;
    proof {
        assert(cells@.take(0) =~= Seq::<StyledCell>::empty());
        assert(out@ =~= start + cells_text(opt_style(before), cells@.take(0)).0);
    }
    while i < cells.len()
        invariant
            i <= cells@.len(),
            out@ == start + cells_text(opt_style(before), cells@.take(i as int)).0,
            opt_style(last) == cells_text(opt_style(before), cells@.take(i as int)).1,
        decreases cells@.len() - i,
    {
        let cell: StyledCell = cells[i];
        let ghost previous = cells_text(opt_style(before), cells@.take(i as int));
        proof {
            assert(cells@.take(i + 1).drop_last() =~= cells@.take(i as int));
        }
        let same: bool = match last {
            Some(l) => l.flags == cell.flags && l.fg == cell.fg && l.bg == cell.bg,
            None => false,
        };
        if !same {
            push_style(out, cell);
        }
        out.push(cell.c);
        proof {
            let text = cells_text(opt_style(before), cells@.take(i + 1)).0;
            assert(out@ =~= start + text);
        }
        last = Some(cell);
        i += 1;
    }
    proof {
        assert(cells@.take(i as int) =~= cells@);
    }
    last
}

/// A screen as control sequences: its rows, and the cursor at its place.
pub fn render_ansi(rows: &Vec<Vec<StyledCell>>, cursor: CursorPos) -> (res: String)
    requires
        cursor.row < u16::MAX,
        cursor.col < u16::MAX,
    ensures
        res@ == rows_text(row_cells(rows@)).0 + cursor_code(cursor),
{
    let ghost all = row_cells(rows@);
    let mut out = String::new();
    let mut last: Option<StyledCell> = None;
    let mut i: usize = 0;
    proof {
        assert(all.take(0) =~= Seq::<Seq<StyledCell>>::empty());
        assert(out@ =~= rows_text(all.take(0)).0);
    }
    while i < rows.len()
        invariant
            i <= rows@.len(),
            all == row_cells(rows@),
            out@ == rows_text(all.take(i as int)).0,
            opt_style(last) == rows_text(all.take(i as int)).1,
        decreases rows@.len() - i,
    {
        proof {
            assert(all.take(i + 1).drop_last() =~= all.take(i as int));
        }
        if i > 0 {
            out.append("\n");
        }
        last = push_cells(&mut out, last, &rows[i]);
        i += 1;
    }
    proof {
        assert(all.take(i as int) =~= all);
    }
    let ghost text = out@;
    let row = strings::decimal_text(cursor.row as u64 + 1);
    let col = strings::decimal_text(cursor.col as u64 + 1);
    out.append("\x1b[");
    out.append(row.as_str());
    out.append(";");
    out.append(col.as_str());
    out.append("H\x1b[?25h");
    proof {
        assert(out@ =~= text + cursor_code(cursor));
    }
    out
}

// ---------------------------------------------------------------------------
// What the commands print
// ---------------------------------------------------------------------------

/// The number of a member, its lowest sixteen bits.
pub open spec fn short_at(value: JsonModel, key: Seq<char>) -> u16 {
    match value.at(key).unsigned() {
        Some(n) => (n % 0x1_0000) as u16,
        None => 0,
    }
}

/// The cursor of a reply.
pub open spec fn cursor_of(reply: JsonModel) -> CursorPos {
    let cursor = reply.at("result"@).at("cursor"@);
    CursorPos { row: short_at(cursor, "row"@), col: short_at(cursor, "col"@) }
}

fn read_short(value: &Json, key: &str) -> (res: u16)
    ensures
        res == short_at(value@, key@),
{
    match value.index(key).as_u64() {
        Some(n) => (n % 0x1_0000) as u16,
        None => 0,
    }
}

/// The cursor of a reply.
pub fn reply_cursor(reply: &Json) -> (res: CursorPos)
    ensures
        res == cursor_of(reply@),
{
    let cursor = reply.index("result").index("cursor");
    CursorPos { row: read_short(&cursor, "row"), col: read_short(&cursor, "col") }
}

/// What is said of a reply that holds something else.
pub open spec fn wrong_format() -> Seq<char> {
    "响应格式错误"@
}

/// The text of a value without white space.
pub open spec fn shown(value: JsonModel) -> Seq<char> {
    json::compact(json::collected(value))
}

/// A styled screen, or what is wrong with it.
pub open spec fn styled_screen(reply: JsonModel) -> Result<Seq<char>, Seq<char>> {
    match reply.at("result"@).items_at("rows"@) {
        None => Err(wrong_format()),
        Some(items) => match rows_of(items) {
            Ok(rows) => Ok(rows_text(rows).0 + cursor_code(cursor_of(reply))),
            Err(e) => Err(e.text()),
        },
    }
}

/// What is printed of a styled screen.
pub fn ansi_screen(reply: &Json) -> (res: Result<String, String>)
    requires
        styled_screen(reply@) is Ok ==> cursor_of(reply@).row < u16::MAX && cursor_of(
            reply@,
        ).col < u16::MAX,
    ensures
        match res {
            Ok(text) => styled_screen(reply@) == Ok::<Seq<char>, Seq<char>>(text@),
            Err(e) => styled_screen(reply@) == Err::<Seq<char>, Seq<char>>(e@),
        },
{
    let result = reply.index("result");
    match result.array_at("rows") {
        None => Err("响应格式错误".to_string()),
        Some(items) => match parse_styled_rows(items) {
            Ok(rows) => Ok(render_ansi(&rows, reply_cursor(reply))),
            Err(e) => Err(e.message()),
        },
    }
}

/// A line for each value: its text, or an empty line.
pub open spec fn plain_lines(items: Seq<JsonModel>) -> Seq<char>
    decreases items.len(),
{
    if items.len() == 0 {
        Seq::empty()
    } else {
        let line = match items.last().text() {
            Some(s) => s,
            None => Seq::empty(),
        };
        plain_lines(items.drop_last()) + line + "\n"@
    }
}

/// What is printed of a screen, and what is said of its cursor.
pub fn plain_screen(reply: &Json) -> (res: Result<(String, String), String>)
    ensures
        match reply@.at("result"@).items_at("lines"@) {
            None => res matches Err(e) && e@ == wrong_format(),
            Some(items) => res matches Ok(out) && out.0@ == plain_lines(items) && out.1@
                == "cursor: row="@ + shown(reply@.at("result"@).at("cursor"@).at("row"@)) + " col="@
                + shown(reply@.at("result"@).at("cursor"@).at("col"@)),
        },
{
    let result = reply.index("result");
    let items = match result.array_at("lines") {
        Some(items) => items,
        None => return Err("响应格式错误".to_string()),
    };
    let ghost all = json::models(items@);
    let mut out = String::new();
    let mut i: usize = 0;
    proof {
        assert(all.take(0) =~= Seq::<JsonModel>::empty());
        assert(out@ =~= plain_lines(all.take(0)));
    }
    while i < items.len()
        invariant
            i <= items@.len(),
            all == json::models(items@),
            out@ == plain_lines(all.take(i as int)),
        decreases items@.len() - i,
    {
        proof {
            assert(all.take(i + 1).drop_last() =~= all.take(i as int));
            assert(all.take(i + 1).last() == items@[i as int]@);
        }
        let ghost before = out@;
        if let Some(s) = items[i].as_str() {
            out.append(s);
        } else {
            proof {
                assert(before + Seq::<char>::empty() =~= before);
            }
        }
        out.append("\n");
        i += 1;
    }
    proof {
        assert(all.take(i as int) =~= all);
    }
    let cursor = result.index("cursor");
    let row = json::to_text(&cursor.index("row"));
    let col = json::to_text(&cursor.index("col"));
    let mut note = strings::concat3("cursor: row=", row.as_str(), " col=");
    note.append(col.as_str());
    Ok((out, note))
}

/// What is printed of a session that was opened.
pub fn opened_line(reply: &Json) -> (res: String)
    ensures
        res@ == shown(reply@.at("result"@).at("session_id"@)),
{
    json::to_text(&reply.index("result").index("session_id"))
}

/// The line of a session.
pub open spec fn session_line(s: JsonModel) -> Seq<char> {
    shown(s.at("session_id"@)) + "  "@ + shown(s.at("cols"@)) + "×"@ + shown(s.at("rows"@)) + "  "@
        + (if s.at("alive"@).truth() == Some(true) {
        "alive"@
    } else {
        "closed"@
    })
}

/// A line for each session.
pub open spec fn session_lines(items: Seq<JsonModel>) -> Seq<char>
    decreases items.len(),
{
    if items.len() == 0 {
        Seq::empty()
    } else {
        session_lines(items.drop_last()) + session_line(items.last()) + "\n"@
    }
}

fn line_of_session(s: &Json) -> (res: String)
    ensures
        res@ == session_line(s@),
{
    let id = json::to_text(&s.index("session_id"));
    let cols = json::to_text(&s.index("cols"));
    let rows = json::to_text(&s.index("rows"));
    let alive: bool = match s.index("alive").as_bool() {
        Some(b) => b,
        None => false,
    };
    let mut out = strings::concat3(id.as_str(), "  ", cols.as_str());
    out.append("×");
    out.append(rows.as_str());
    out.append("  ");
    if alive {
        out.append("alive");
    } else {
        out.append("closed");
    }
    out
}

/// What is printed of the sessions.
pub fn session_list(reply: &Json) -> (res: Result<String, String>)
    ensures
        match reply@.at("result"@).items() {
            None => res matches Err(e) && e@ == wrong_format(),
            Some(items) => res matches Ok(out) && out@ == (if items.len() == 0 {
                "无活跃会话\n"@
            } else {
                session_lines(items)
            }),
        },
{
    let result = reply.index("result");
    let items = match result.as_array() {
        Some(items) => items,
        None => return Err("响应格式错误".to_string()),
    };
    if items.len() == 0 {
        return Ok("无活跃会话\n".to_string());
    }
    let ghost all = json::models(items@);
    let mut out = String::new();
    let mut i: usize = 0;
    proof {
        assert(all.take(0) =~= Seq::<JsonModel>::empty());
        assert(out@ =~= session_lines(all.take(0)));
    }
    while i < items.len()
        invariant
            i <= items@.len(),
            all == json::models(items@),
            out@ == session_lines(all.take(i as int)),
        decreases items@.len() - i,
    {
        proof {
            assert(all.take(i + 1).drop_last() =~= all.take(i as int));
            assert(all.take(i + 1).last() == items@[i as int]@);
        }
        let line = line_of_session(&items[i]);
        out.append(line.as_str());
        out.append("\n");
        i += 1;
    }
    proof {
        assert(all.take(i as int) =~= all);
    }
    Ok(out)
}

// ---------------------------------------------------------------------------
// Watching frames
// ---------------------------------------------------------------------------

/// The number and the lines of a pushed frame: a byte for its kind, the length
/// of the session's id, the id, and the frame.
pub open spec fn frame_summary(bytes: Seq<u8>) -> Option<(nat, nat)> {
    if bytes.len() < 3 || bytes[0] != 0x01 {
        None
    } else {
        let start = 3 + frame::big_endian(bytes.subrange(1, 3));
        match (
            frame::number_at(bytes, start as int, 8),
            frame::number_at(bytes, start as int + 13, 2),
        ) {
            (Some(seq), Some(lines)) => Some((seq, lines)),
            _ => None,
        }
    }
}

/// The summary, as numbers.
pub open spec fn summary_model(res: Option<(u64, usize)>) -> Option<(nat, nat)> {
    match res {
        Some((seq, lines)) => Some((seq as nat, lines as nat)),
        None => None,
    }
}

/// The number and the lines of a pushed frame.
pub fn decode_frame(bytes: &Vec<u8>) -> (res: Option<(u64, usize)>)
    requires
        !(bytes@.len() == 2 && bytes@[0] == 0x01),
    ensures
        summary_model(res) == frame_summary(bytes@),
{
    if bytes.len() < 3 || bytes[0] != 0x01 {
        return None;
    }
    let id_len: u64 = match frame::read_number(bytes.as_slice(), 1, 2) {
        Some(n) => n,
        None => return None,
    };
    proof {
        frame::lemma_big_endian_bound(bytes@.subrange(1, 3));
        frame::lemma_pow256_values();
    }
    let start: usize = 3 + id_len as usize;
    let seq: u64 = match frame::read_number(bytes.as_slice(), start, 8) {
        Some(n) => n,
        None => return None,
    };
    let lines: u64 = match frame::read_number(bytes.as_slice(), start + 13, 2) {
        Some(n) => n,
        None => return None,
    };
    proof {
        frame::lemma_big_endian_bound(bytes@.subrange(start + 13, start + 15));
    }
    Some((seq, lines as usize))
}

/// The text with blanks before it, up to a width.
pub open spec fn right_aligned(s: Seq<char>, width: nat) -> Seq<char>
    decreases width - s.len(),
{
    if s.len() >= width {
        s
    } else {
        Seq::new((width - s.len()) as nat, |i: int| ' ') + s
    }
}

fn align_right(s: &str, width: usize) -> (res: String)
    ensures
        res@ == right_aligned(s@, width as nat),
{
    let chars = strings::chars_of(s);
    let mut out = String::new();
    let mut missing: usize = if chars.len() < width {
        width - chars.len()
    } else {
        0
    };
    let ghost total = missing;
    while missing > 0
        invariant
            missing <= total,
            out@ =~= Seq::new((total - missing) as nat, |i: int| ' '),
        decreases missing,
    {
        out.push(' ');
        missing -= 1;
    }
    out.append(s);
    proof {
        assert(out@ =~= right_aligned(s@, width as nat));
    }
    out
}

/// The report of a frame.
pub open spec fn report(
    last_seq: Option<u64>,
    bytes: Seq<u8>,
    interval_ms: nat,
) -> Seq<char> {
    match frame_summary(bytes) {
        Some((seq, lines)) => {
            let expected = match last_seq {
                Some(last) => (last + 1) as nat,
                None => seq,
            };
            "seq="@ + right_aligned(strings::decimal(seq), 4) + " lines="@ + right_aligned(
                strings::decimal(lines),
                3,
            ) + " bytes="@ + right_aligned(strings::decimal(bytes.len()), 5) + " interval="@
                + strings::decimal(interval_ms) + "ms ["@ + (if seq == expected {
                "OK"@
            } else {
                "GAP!"@
            }) + "]"@
        },
        None => "invalid frame: "@ + strings::decimal(bytes.len()) + " bytes, interval="@
            + strings::decimal(interval_ms) + "ms"@,
    }
}

/// Reports a pushed frame: its number follows the one before it, or frames were
/// lost between them. Gives the number that the next one is to follow.
pub fn watch_frame(last_seq: Option<u64>, bytes: &Vec<u8>, interval_ms: u64) -> (res: (
    String,
    Option<u64>,
))
    requires
        !(bytes@.len() == 2 && bytes@[0] == 0x01),
        last_seq != Some(u64::MAX),
    ensures
        res.0@ == report(last_seq, bytes@, interval_ms as nat),
        match frame_summary(bytes@) {
            Some((seq, _)) => res.1 matches Some(n) && n == seq,
            None => res.1 == last_seq,
        },
{
    let size = strings::decimal_text(bytes.len() as u64);
    let interval = strings::decimal_text(interval_ms);
    match decode_frame(bytes) {
        Some((seq, lines)) => {
            let expected: u64 = match last_seq {
                Some(last) => last + 1,
                None => seq,
            };
            let seq_text = strings::decimal_text(seq);
            let lines_text = strings::decimal_text(lines as u64);
            let mut out = "seq=".to_string();
            let padded_seq = align_right(seq_text.as_str(), 4);
            out.append(padded_seq.as_str());
            out.append(" lines=");
            let padded_lines = align_right(lines_text.as_str(), 3);
            out.append(padded_lines.as_str());
            out.append(" bytes=");
            let padded_size = align_right(size.as_str(), 5);
            out.append(padded_size.as_str());
            out.append(" interval=");
            out.append(interval.as_str());
            out.append("ms [");
            if seq == expected {
                out.append("OK");
            } else {
                out.append("GAP!");
            }
            out.append("]");
            (out, Some(seq))
        },
        None => {
            let mut out = strings::concat3(
                "invalid frame: ",
                size.as_str(),
                " bytes, interval=",
            );
            out.append(interval.as_str());
            out.append("ms");
            (out, last_seq)
        },
    }
}

/// The escapes, whatever stands before and behind them: the control characters
/// by their letters, a byte by two hexadecimal digits, and a character by its
/// code point. A single backslash at the end and an unknown letter are errors.
pub proof fn law_escapes(s: Seq<char>, at: int, n: nat)
    requires
        0 <= at < s.len(),
        s[at] == '\\',
    ensures
        at + 1 == s.len() ==> unit_at(s, at) == Err::<(Seq<u8>, int), EscapeModel>(
            EscapeModel::Unfinished,
        ),
        at + 1 < s.len() ==> {
            let next = s[at + 1];
            &&& next == 'n' ==> unit_at(s, at) == Ok::<(Seq<u8>, int), EscapeModel>(
                (seq![10u8], at + 2),
            )
            &&& next == 'r' ==> unit_at(s, at) == Ok::<(Seq<u8>, int), EscapeModel>(
                (seq![13u8], at + 2),
            )
            &&& next == 't' ==> unit_at(s, at) == Ok::<(Seq<u8>, int), EscapeModel>(
                (seq![9u8], at + 2),
            )
            &&& next == 'e' ==> unit_at(s, at) == Ok::<(Seq<u8>, int), EscapeModel>(
                (seq![27u8], at + 2),
            )
            &&& next == 'q' ==> unit_at(s, at) is Err
        },
        at + 4 <= s.len() && s[at + 1] == 'x' && all_hex(s.subrange(at + 2, at + 4)) ==> unit_at(
            s,
            at,
        ) == Ok::<(Seq<u8>, int), EscapeModel>(
            (
                seq![
                    (16 * hex_digit(s[at + 2])->0 + hex_digit(s[at + 3])->0) as u8,
                ],
                at + 4,
            ),
        ),
{
    if at + 4 <= s.len() && s[at + 1] == 'x' && all_hex(s.subrange(at + 2, at + 4)) {
        let digits = s.subrange(at + 2, at + 4);
        assert(digits[0] == s[at + 2] && digits[1] == s[at + 3]);
        assert(hex_digit(digits[0]) is Some && hex_digit(digits[1]) is Some);
        let one = digits.drop_last();
        assert(one.len() == 1 && one.last() == digits[0]);
        assert(one.drop_last().len() == 0);
        assert(hex_value(one.drop_last()) == 0);
        assert(hex_value(one) == hex_digit(digits[0])->0);
        assert(hex_value(digits) == 16 * hex_value(one) + hex_digit(digits[1])->0);
        assert(hex_digit('+') is None);
    }
}

/// The digits of the hexadecimal system, in either case.
pub proof fn law_hexadecimal_digits(c: char)
    ensures
        '0' <= c <= '9' ==> hex_digit(c) == Some((c as nat - '0' as nat) as nat),
        'a' <= c <= 'f' ==> hex_digit(c) == Some((c as nat - 'a' as nat + 10) as nat),
        'A' <= c <= 'F' ==> hex_digit(c) == Some((c as nat - 'A' as nat + 10) as nat),
        !('0' <= c <= '9') && !('a' <= c <= 'f') && !('A' <= c <= 'F') ==> hex_digit(c) is None,
{
}

/// A text gives the bytes of its parts, one after another, and nothing where
/// one of them is wrong.
pub proof fn law_text_is_read_part_by_part(s: Seq<char>, at: int)
    requires
        0 <= at < s.len(),
    ensures
        unescaped(s, s.len() as int) == Ok::<Seq<u8>, EscapeModel>(Seq::empty()),
        unit_at(s, at) matches Err(e) ==> unescaped(s, at) == Err::<Seq<u8>, EscapeModel>(e),
        unit_at(s, at) matches Ok((bytes, next)) ==> at < next <= s.len() ==> match unescaped(
            s,
            next,
        ) {
            Ok(rest) => unescaped(s, at) == Ok::<Seq<u8>, EscapeModel>(bytes + rest),
            Err(e) => unescaped(s, at) == Err::<Seq<u8>, EscapeModel>(e),
        },
{
}

/// A reply is an error where it says so, with its message; any other reply is
/// taken as it is.
pub proof fn law_error_replies(value: JsonModel)
    ensures
        value.text_at("type"@) == Some("Error"@) && value.text_at("message"@) is Some ==> accepted(
            value,
        ) == Err::<JsonModel, Seq<char>>(value.text_at("message"@)->0),
        value.text_at("type"@) == Some("Error"@) ==> accepted(value) is Err,
        value.text_at("type"@) != Some("Error"@) ==> accepted(value) == Ok::<
            JsonModel,
            Seq<char>,
        >(value),
{
}

/// A color is the word for the default, a number of the palette, or three
/// components in the order red, green, blue.
pub proof fn law_described_colors(n: nat, r: nat, g: nat, b: nat)
    requires
        n < 256,
        r < 256,
        g < 256,
        b < 256,
    ensures
        color_of(JsonModel::Str("Default"@)) == Ok::<ColorSpec, StyleErrorModel>(
            ColorSpec::Default,
        ),
        color_of(JsonModel::Object(seq![("Indexed"@, JsonModel::Unsigned(n))])) == Ok::<
            ColorSpec,
            StyleErrorModel,
        >(ColorSpec::Indexed(n as u8)),
        color_of(
            JsonModel::Object(
                seq![
                    (
                        "Rgb"@,
                        JsonModel::Array(
                            seq![
                                JsonModel::Unsigned(r),
                                JsonModel::Unsigned(g),
                                JsonModel::Unsigned(b),
                            ],
                        ),
                    ),
                ],
            ),
        ) == Ok::<ColorSpec, StyleErrorModel>(ColorSpec::Rgb(r as u8, g as u8, b as u8)),
        color_of(JsonModel::Null) is Err,
{
    reveal_strlit("Indexed");
    reveal_strlit("Rgb");
    let indexed = seq![("Indexed"@, JsonModel::Unsigned(n))];
    json::law_first_member_counts(indexed, "Indexed"@, 0);
    let items = seq![JsonModel::Unsigned(r), JsonModel::Unsigned(g), JsonModel::Unsigned(b)];
    let rgb = seq![("Rgb"@, JsonModel::Array(items))];
    json::law_first_member_counts(rgb, "Rgb"@, 0);
    assert("Rgb"@.len() != "Indexed"@.len());
    json::law_missing_member(JsonModel::Object(rgb), "Indexed"@);
}

/// A cell is drawn with the first character of its text, its colors and its
/// flags; one without a text is an error.
pub proof fn law_described_cells(value: JsonModel, fg: ColorSpec, bg: ColorSpec)
    requires
        color_of(value.at("fg"@)) == Ok::<ColorSpec, StyleErrorModel>(fg),
        color_of(value.at("bg"@)) == Ok::<ColorSpec, StyleErrorModel>(bg),
    ensures
        value.text_at("c"@) is None ==> cell_of(value) is Err,
        value.text_at("c"@) matches Some(s) ==> {
            &&& s.len() == 0 ==> cell_of(value) is Err
            &&& s.len() > 0 ==> cell_of(value) is Ok && (cell_of(value)->Ok_0).c == s[0] && (
            cell_of(value)->Ok_0).fg == fg && (cell_of(value)->Ok_0).bg == bg
            &&& s.len() > 0 && value.unsigned_at("flags"@) is Some && value.unsigned_at(
                "flags"@,
            )->0 < 256 ==> (cell_of(value)->Ok_0).flags == value.unsigned_at("flags"@)->0
        },
{
}

/// The text of a screen is that of its cells, one after another, each behind
/// the sequences of its style where the cell before it has another one.
pub proof fn law_cells_are_written_in_order(
    before: Option<(u8, ColorSpec, ColorSpec)>,
    cells: Seq<StyledCell>,
    cell: StyledCell,
)
    ensures
        cells_text(before, Seq::empty()) == (Seq::<char>::empty(), before),
        ({
            let (text, style) = cells_text(before, cells);
            let (more, after) = cells_text(before, cells.push(cell));
            &&& after == Some((cell.flags, cell.fg, cell.bg))
            &&& style == Some((cell.flags, cell.fg, cell.bg)) ==> more == text.push(cell.c)
            &&& style != Some((cell.flags, cell.fg, cell.bg)) ==> more == (text + style_code(
                cell,
            )).push(cell.c)
        }),
{
    assert(cells.push(cell).drop_last() =~= cells);
    let (text, style) = cells_text(before, cells);
    assert(text + Seq::<char>::empty() =~= text);
}

/// A style is written out in full, whatever it was before: the reset, the
/// colors, and a sequence for each flag that is set.
pub proof fn law_styles(c: char, n: u8, r: u8, g: u8, b: u8)
    ensures
        ({
            let plain = StyledCell { c, fg: ColorSpec::Default, bg: ColorSpec::Default, flags: 0 };
            let reset = "\x1b[0m"@;
            &&& style_code(plain) == reset
            &&& style_code(StyledCell { fg: ColorSpec::Indexed(n), ..plain }) == reset + "\x1b["@
                + "38"@ + ";5;"@ + strings::decimal(n as nat) + "m"@
            &&& style_code(StyledCell { bg: ColorSpec::Indexed(n), ..plain }) == reset + "\x1b["@
                + "48"@ + ";5;"@ + strings::decimal(n as nat) + "m"@
            &&& style_code(StyledCell { fg: ColorSpec::Rgb(r, g, b), ..plain }) == reset
                + "\x1b["@ + "38"@ + ";2;"@ + strings::decimal(r as nat) + ";"@
                + strings::decimal(g as nat) + ";"@ + strings::decimal(b as nat) + "m"@
            &&& style_code(StyledCell { flags: 1, ..plain }) == reset + "\x1b[1m"@
            &&& style_code(StyledCell { flags: 2, ..plain }) == reset + "\x1b[3m"@
            &&& style_code(StyledCell { flags: 4, ..plain }) == reset + "\x1b[4m"@
            &&& style_code(StyledCell { flags: 8, ..plain }) == reset + "\x1b[7m"@
        }),
{
    assert(0u8 & 1 == 0 && 0u8 & 2 == 0 && 0u8 & 4 == 0 && 0u8 & 8 == 0) by (bit_vector);
    assert(1u8 & 1 != 0 && 1u8 & 2 == 0 && 1u8 & 4 == 0 && 1u8 & 8 == 0) by (bit_vector);
    assert(2u8 & 1 == 0 && 2u8 & 2 != 0 && 2u8 & 4 == 0 && 2u8 & 8 == 0) by (bit_vector);
    assert(4u8 & 1 == 0 && 4u8 & 2 == 0 && 4u8 & 4 != 0 && 4u8 & 8 == 0) by (bit_vector);
    assert(8u8 & 1 == 0 && 8u8 & 2 == 0 && 8u8 & 4 == 0 && 8u8 & 8 != 0) by (bit_vector);
    let plain = StyledCell { c, fg: ColorSpec::Default, bg: ColorSpec::Default, flags: 0 };
    let reset = "\x1b[0m"@;
    let five = "\x1b["@ + "38"@ + ";5;"@ + strings::decimal(n as nat) + "m"@;
    let back = "\x1b["@ + "48"@ + ";5;"@ + strings::decimal(n as nat) + "m"@;
    let full = "\x1b["@ + "38"@ + ";2;"@ + strings::decimal(r as nat) + ";"@ + strings::decimal(
        g as nat,
    ) + ";"@ + strings::decimal(b as nat) + "m"@;
    assert(style_code(plain) =~= reset);
    assert(style_code(StyledCell { fg: ColorSpec::Indexed(n), ..plain }) =~= reset + five);
    assert(reset + five =~= reset + "\x1b["@ + "38"@ + ";5;"@ + strings::decimal(n as nat) + "m"@);
    assert(style_code(StyledCell { bg: ColorSpec::Indexed(n), ..plain }) =~= reset + back);
    assert(reset + back =~= reset + "\x1b["@ + "48"@ + ";5;"@ + strings::decimal(n as nat) + "m"@);
    assert(style_code(StyledCell { fg: ColorSpec::Rgb(r, g, b), ..plain }) =~= reset + full);
    assert(reset + full =~= reset + "\x1b["@ + "38"@ + ";2;"@ + strings::decimal(r as nat) + ";"@
        + strings::decimal(g as nat) + ";"@ + strings::decimal(b as nat) + "m"@);
    assert(style_code(StyledCell { flags: 1, ..plain }) =~= reset + "\x1b[1m"@);
    assert(style_code(StyledCell { flags: 2, ..plain }) =~= reset + "\x1b[3m"@);
    assert(style_code(StyledCell { flags: 4, ..plain }) =~= reset + "\x1b[4m"@);
    assert(style_code(StyledCell { flags: 8, ..plain }) =~= reset + "\x1b[7m"@);
}

/// The cursor is put at its row and column, counted from one, and shown.
pub proof fn law_cursor_counts_from_one(cursor: CursorPos)
    ensures
        cursor_code(cursor) == "\x1b["@ + strings::decimal(cursor.row as nat + 1) + ";"@
            + strings::decimal(cursor.col as nat + 1) + "H\x1b[?25h"@,
{
}

/// A plain screen has a line for each item, and an empty one for what is no
/// text; a list of sessions has a line for each of them.
pub proof fn law_lines_are_printed_in_order(items: Seq<JsonModel>, item: JsonModel)
    ensures
        plain_lines(Seq::empty()).len() == 0,
        item matches JsonModel::Str(s) ==> plain_lines(items.push(item)) == plain_lines(items) + s
            + "\n"@,
        !(item is Str) ==> plain_lines(items.push(item)) == plain_lines(items) + "\n"@,
        session_lines(items.push(item)) == session_lines(items) + session_line(item) + "\n"@,
{
    assert(items.push(item).drop_last() =~= items);
    assert(plain_lines(items) + Seq::<char>::empty() + "\n"@ =~= plain_lines(items) + "\n"@);
}

/// A pushed frame tells its number and how many lines it has, behind the id of
/// the session that it belongs to.
pub proof fn law_pushed_frame_is_summed_up(id: Seq<u8>, payload: Seq<u8>)
    requires
        id.len() <= 0xffff,
        payload.len() >= 15,
    ensures
        ({
            let bytes = seq![1u8] + frame::encoded_number(id.len(), 2) + id + payload;
            frame_summary(bytes) == Some(
                (
                    frame::big_endian(payload.subrange(0, 8)),
                    frame::big_endian(payload.subrange(13, 15)),
                ),
            )
        }),
{
    frame::lemma_pow256_values();
    frame::lemma_encoded_number(id.len(), 2);
    let n = frame::encoded_number(id.len(), 2);
    let bytes = seq![1u8] + n + id + payload;
    assert(bytes.subrange(1, 3) =~= n);
    let start = 3 + id.len() as int;
    assert(bytes.subrange(start, start + 8) =~= payload.subrange(0, 8));
    assert(bytes.subrange(start + 13, start + 15) =~= payload.subrange(13, 15));
    assert(bytes[0] == 1);
}

/// A styled screen is read row by row, and the first row that is wrong decides.
pub proof fn law_rows_are_read_in_order(items: Seq<JsonModel>, item: JsonModel)
    ensures
        rows_of(Seq::empty()) == Ok::<Seq<Seq<StyledCell>>, StyleErrorModel>(Seq::empty()),
        ({
            let before = rows_of(items);
            let all = rows_of(items.push(item));
            &&& before is Err ==> all == before
            &&& before is Ok && row_of(item) is Ok ==> all == Ok::<
                Seq<Seq<StyledCell>>,
                StyleErrorModel,
            >((before->Ok_0).push(row_of(item)->Ok_0))
            &&& before is Ok && row_of(item) is Err ==> all == Err::<
                Seq<Seq<StyledCell>>,
                StyleErrorModel,
            >(row_of(item)->Err_0)
        }),
        item.items() is None ==> row_of(item) == Err::<Seq<StyledCell>, StyleErrorModel>(
            StyleErrorModel::Row,
        ),
{
    assert(items.push(item).drop_last() =~= items);
}

/// Rows are printed one per line, each in the style that the last one ended with.
pub proof fn law_rows_are_printed_in_order(rows: Seq<Seq<StyledCell>>, row: Seq<StyledCell>)
    ensures
        rows_text(seq![row]).0 == cells_text(None, row).0,
        rows.len() > 0 ==> rows_text(rows.push(row)).0 == rows_text(rows).0 + "\n"@ + cells_text(
            rows_text(rows).1,
            row,
        ).0,
{
    reveal_with_fuel(rows_text, 2);
    assert(rows.push(row).drop_last() =~= rows);
    assert(seq![row].last() == row);
    assert(seq![row].drop_last() =~= Seq::empty());
    assert(rows_text(seq![row]).0 =~= cells_text(None, row).0);
}

/// A screen is printed with its cursor, which counts from one, at the place that
/// the reply gives.
pub proof fn law_screen_is_printed_with_its_cursor(reply: JsonModel, items: Seq<JsonModel>)
    ensures
        reply.at("result"@).items_at("rows"@) == Some(items) && rows_of(items) is Ok
            ==> styled_screen(reply) == Ok::<Seq<char>, Seq<char>>(
            rows_text(rows_of(items)->Ok_0).0 + cursor_code(cursor_of(reply)),
        ),
        reply.at("result"@).items_at("rows"@) is None ==> styled_screen(reply) is Err,
        reply.at("result"@).items_at("rows"@) == Some(items) && rows_of(items) is Err
            ==> styled_screen(reply) is Err,
        ({
            let cursor = reply.at("result"@).at("cursor"@);
            &&& cursor.at("row"@).unsigned() matches Some(n) ==> (n < 0x1_0000 ==> cursor_of(reply).row
                == n)
            &&& cursor.at("col"@).unsigned() matches Some(n) ==> (n < 0x1_0000 ==> cursor_of(reply).col
                == n)
        }),
{
}

} // verus!
