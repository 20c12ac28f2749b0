//! Keys and the bytes that a terminal gets for them.
use vstd::prelude::*;

use crate::strings;

verus! {

/// A key that has a name.
#[derive(Debug, Clone, Copy, PartialEq, Eq, Structural)]
pub enum Named {
    Enter,
    Tab,
    Space,
    Backspace,
    Escape,
    ArrowUp,
    ArrowDown,
    ArrowRight,
    ArrowLeft,
    Home,
    End,
    Insert,
    Delete,
    PageUp,
    PageDown,
    F1,
    F2,
    F3,
    F4,
    F5,
    F6,
    F7,
    F8,
    F9,
    F10,
    F11,
    F12,
    Other,
}

/// A key.
#[derive(Debug, PartialEq)]
pub enum Key {
    Named(Named),
    Character(String),
    Unidentified,
}

/// The modifier keys that are held down.
#[derive(Debug, Clone, Copy, PartialEq, Eq, Structural)]
pub struct Modifiers {
    pub shift: bool,
    pub control: bool,
    pub alt: bool,
    pub logo: bool,
}

/// The platform decides which keys copy and paste.
#[derive(Debug, Clone, Copy, PartialEq, Eq, Structural)]
pub enum Platform {
    MacOs,
    Other,
}

/// A key that was pressed. `latin` is the latin letter of the key's place on
/// the keyboard, whatever layout is in use; `text` is what the key writes.
#[derive(Debug, PartialEq)]
pub struct KeyPress {
    pub key: Key,
    pub latin: Option<char>,
    pub modifiers: Modifiers,
    pub text: Option<String>,
}

/// What a key does.
#[derive(Debug, PartialEq)]
pub enum KeyAction {
    Bytes(Vec<u8>),
    Paste,
    Copy,
    Ignore,
}

/// What a key does.
#[verifier::ext_equal]
pub enum KeyActionModel {
    Bytes(Seq<u8>),
    Paste,
    Copy,
    Ignore,
}

impl View for KeyAction {
    type V = KeyActionModel;

    open spec fn view(&self) -> KeyActionModel {
        match self {
            KeyAction::Bytes(bytes) => KeyActionModel::Bytes(bytes@),
            KeyAction::Paste => KeyActionModel::Paste,
            KeyAction::Copy => KeyActionModel::Copy,
            KeyAction::Ignore => KeyActionModel::Ignore,
        }
    }
}

/// The modifiers that turn a letter into a shortcut of the application.
pub open spec fn shortcut_modifiers(m: Modifiers, platform: Platform) -> bool {
    match platform {
        Platform::MacOs => m.logo && !m.control && !m.alt,
        Platform::Other => m.control && m.shift && !m.alt,
    }
}

/// The press is the shortcut of a letter.
pub open spec fn is_shortcut(press: KeyPress, letter: char, platform: Platform) -> bool {
    &&& press.latin is Some
    &&& strings::ascii_lower(press.latin->0) == letter
    &&& shortcut_modifiers(press.modifiers, platform)
}

/// The capital letter of an ASCII letter; any other character itself.
pub open spec fn ascii_upper(c: char) -> char {
    if 'a' <= c <= 'z' {
        (c as u32 - 32) as char
    } else {
        c
    }
}

/// The byte that a character gives together with the control key.
pub open spec fn control_code(ch: char) -> Option<u8> {
    let upper = ascii_upper(ch);
    if upper == '@' || upper == '2' {
        Some(0)
    } else if 'A' <= upper <= 'Z' {
        Some((upper as u32 - 64) as u8)
    } else if upper == '[' || upper == '3' {
        Some(27)
    } else if upper == '\\' || upper == '4' {
        Some(28)
    } else if upper == ']' || upper == '5' {
        Some(29)
    } else if upper == '^' || upper == '6' {
        Some(30)
    } else if upper == '_' || upper == '7' || upper == '/' {
        Some(31)
    } else if upper == '?' || upper == '8' {
        Some(127)
    } else {
        None
    }
}

/// The character that the control key acts on.
pub open spec fn control_char(press: KeyPress) -> Option<char> {
    match press.latin {
        Some(c) => Some(c),
        None => match press.key {
            Key::Character(value) => if value@.len() == 1 && (value@[0] as u32) < 128 {
                Some(value@[0])
            } else {
                None
            },
            _ => None,
        },
    }
}

/// The number by which the protocol of xterm writes the modifiers.
pub open spec fn modifier_code(m: Modifiers) -> u8 {
    (1 + (if m.shift {
        1int
    } else {
        0
    }) + (if m.alt {
        2int
    } else {
        0
    }) + (if m.control {
        4int
    } else {
        0
    })) as u8
}

/// The final letter of the sequence of a key that moves the cursor.
pub open spec fn cursor_letter(key: Named) -> Option<u8> {
    match key {
        Named::ArrowUp => Some(0x41),
        Named::ArrowDown => Some(0x42),
        Named::ArrowRight => Some(0x43),
        Named::ArrowLeft => Some(0x44),
        Named::Home => Some(0x48),
        Named::End => Some(0x46),
        _ => None,
    }
}

/// The final letter of the sequence of the first four function keys.
pub open spec fn function_letter(key: Named) -> Option<u8> {
    match key {
        Named::F1 => Some(0x50),
        Named::F2 => Some(0x51),
        Named::F3 => Some(0x52),
        Named::F4 => Some(0x53),
        _ => None,
    }
}

/// The number of the sequence of a key that ends in a tilde.
pub open spec fn tilde_number(key: Named) -> Option<u8> {
    match key {
        Named::Insert => Some(2),
        Named::Delete => Some(3),
        Named::PageUp => Some(5),
        Named::PageDown => Some(6),
        Named::F5 => Some(15),
        Named::F6 => Some(17),
        Named::F7 => Some(18),
        Named::F8 => Some(19),
        Named::F9 => Some(20),
        Named::F10 => Some(21),
        Named::F11 => Some(23),
        Named::F12 => Some(24),
        _ => None,
    }
}

/// The decimal digits of a number below 100, as ASCII bytes.
pub open spec fn digit_bytes(n: u8) -> Seq<u8> {
    if n < 10 {
        seq![(0x30 + n) as u8]
    } else {
        seq![(0x30 + n / 10) as u8, (0x30 + n % 10) as u8]
    }
}

/// The bytes of a named key, where it has any.
pub open spec fn named_bytes(key: Named, m: Modifiers) -> Option<Seq<u8>> {
    if key == Named::Enter {
        Some(seq![0x0du8])
    } else if key == Named::Tab {
        Some(
            if m.shift {
                seq![0x1bu8, 0x5b, 0x5a]
            } else {
                seq![0x09u8]
            },
        )
    } else if key == Named::Backspace {
        Some(seq![0x7fu8])
    } else if key == Named::Escape {
        Some(seq![0x1bu8])
    } else if cursor_letter(key) is Some {
        Some(
            if modifier_code(m) == 1 {
                seq![0x1bu8, 0x5b, cursor_letter(key)->0]
            } else {
                seq![0x1bu8, 0x5b, 0x31, 0x3b, (0x30 + modifier_code(m)) as u8, cursor_letter(key)->0]
            },
        )
    } else if function_letter(key) is Some {
        Some(seq![0x1bu8, 0x4f, function_letter(key)->0])
    } else if tilde_number(key) is Some {
        Some(seq![0x1bu8, 0x5b] + digit_bytes(tilde_number(key)->0) + seq![0x7eu8])
    } else {
        None
    }
}

/// The bytes of the text that a key writes, behind an escape where the alt key
/// is held down.
pub open spec fn text_bytes(press: KeyPress) -> KeyActionModel {
    match press.text {
        Some(text) => if text@.len() == 0 {
            KeyActionModel::Ignore
        } else {
            let bytes = vstd::utf8::encode_utf8(text@);
            KeyActionModel::Bytes(
                if press.modifiers.alt {
                    seq![0x1bu8] + bytes
                } else {
                    bytes
                },
            )
        },
        None => KeyActionModel::Ignore,
    }
}

/// What a key does.
pub open spec fn key_action(press: KeyPress, platform: Platform) -> KeyActionModel {
    let m = press.modifiers;
    if is_shortcut(press, 'v', platform) {
        KeyActionModel::Paste
    } else if is_shortcut(press, 'c', platform) {
        KeyActionModel::Copy
    } else if m.logo {
        KeyActionModel::Ignore
    } else if m.control && press.key == Key::Named(Named::Space) {
        KeyActionModel::Bytes(seq![0u8])
    } else if m.control && control_char(press) is Some && control_code(control_char(press)->0) is Some {
        KeyActionModel::Bytes(seq![control_code(control_char(press)->0)->0])
    } else {
        match press.key {
            Key::Named(named) => match named_bytes(named, m) {
                Some(bytes) => KeyActionModel::Bytes(bytes),
                None => text_bytes(press),
            },
            _ => text_bytes(press),
        }
    }
}

/// The byte that a character gives together with the control key.
pub fn control_byte(ch: char) -> (res: Option<u8>)
    ensures
        res == control_code(ch),
{
    let upper: char = if 'a' <= ch && ch <= 'z' {
        let code: u8 = ch as u8;
        (code - 32) as char
    } else {
        ch
    };
    if upper == '@' || upper == '2' {
        Some(0)
    } else if 'A' <= upper && upper <= 'Z' {
        let code: u8 = upper as u8;
        Some(code - 64)
    } else if upper == '[' || upper == '3' {
        Some(27)
    } else if upper == '\\' || upper == '4' {
        Some(28)
    } else if upper == ']' || upper == '5' {
        Some(29)
    } else if upper == '^' || upper == '6' {
        Some(30)
    } else if upper == '_' || upper == '7' || upper == '/' {
        Some(31)
    } else if upper == '?' || upper == '8' {
        Some(127)
    } else {
        None
    }
}

/// The number by which the protocol of xterm writes the modifiers.
pub fn xterm_modifier(modifiers: Modifiers) -> (res: u8)
    ensures
        res == modifier_code(modifiers),
        1 <= res <= 8,
{
    let mut code: u8 = 1;
    if modifiers.shift {
        code += 1;
    }
    if modifiers.alt {
        code += 2;
    }
    if modifiers.control {
        code += 4;
    }
    code
}

fn pressed_shortcut(press: &KeyPress, letter: char, platform: Platform) -> (res: bool)
    ensures
        res == is_shortcut(*press, letter, platform),
{
    let m = press.modifiers;
    match press.latin {
        Some(c) => strings::to_ascii_lower(c) == letter && match platform {
            Platform::MacOs => m.logo && !m.control && !m.alt,
            Platform::Other => m.control && m.shift && !m.alt,
        },
        None => false,
    }
}

/// The press is the shortcut for pasting.
pub fn is_paste_shortcut(press: &KeyPress, platform: Platform) -> (res: bool)
    ensures
        res == is_shortcut(*press, 'v', platform),
{
    pressed_shortcut(press, 'v', platform)
}

/// The press is the shortcut for copying.
pub fn is_copy_shortcut(press: &KeyPress, platform: Platform) -> (res: bool)
    ensures
        res == is_shortcut(*press, 'c', platform),
{
    pressed_shortcut(press, 'c', platform)
}

fn cursor_final(key: Named) -> (res: Option<u8>)
    ensures
        res == cursor_letter(key),
{
    match key {
        Named::ArrowUp => Some(0x41),
        Named::ArrowDown => Some(0x42),
        Named::ArrowRight => Some(0x43),
        Named::ArrowLeft => Some(0x44),
        Named::Home => Some(0x48),
        Named::End => Some(0x46),
        _ => None,
    }
}

fn function_final(key: Named) -> (res: Option<u8>)
    ensures
        res == function_letter(key),
{
    match key {
        Named::F1 => Some(0x50),
        Named::F2 => Some(0x51),
        Named::F3 => Some(0x52),
        Named::F4 => Some(0x53),
        _ => None,
    }
}

fn tilde_code(key: Named) -> (res: Option<u8>)
    ensures
        res == tilde_number(key),
        res matches Some(n) ==> n < 100,
{
    match key {
        Named::Insert => Some(2),
        Named::Delete => Some(3),
        Named::PageUp => Some(5),
        Named::PageDown => Some(6),
        Named::F5 => Some(15),
        Named::F6 => Some(17),
        Named::F7 => Some(18),
        Named::F8 => Some(19),
        Named::F9 => Some(20),
        Named::F10 => Some(21),
        Named::F11 => Some(23),
        Named::F12 => Some(24),
        _ => None,
    }
}

/// The bytes of a named key, where it has any.
fn named_key(key: Named, modifiers: Modifiers) -> (res: Option<Vec<u8>>)
    ensures
        match res {
            Some(bytes) => named_bytes(key, modifiers) == Some(bytes@),
            None => named_bytes(key, modifiers) == None::<Seq<u8>>,
        },
{
    let mut bytes: Vec<u8> = Vec::new();
    match key {
        Named::Enter => {
            bytes.push(0x0d);
        },
        Named::Tab => {
            if modifiers.shift {
                bytes.push(0x1b);
                bytes.push(0x5b);
                bytes.push(0x5a);
            } else {
                bytes.push(0x09);
            }
        },
        Named::Backspace => {
            bytes.push(0x7f);
        },
        Named::Escape => {
            bytes.push(0x1b);
        },
        _ => {
            bytes.push(0x1b);
            let modifier = xterm_modifier(modifiers);
            match cursor_final(key) {
                Some(letter) => {
                    bytes.push(0x5b);
                    if modifier != 1 {
                        bytes.push(0x31);
                        bytes.push(0x3b);
                        bytes.push(0x30 + modifier);
                    }
                    bytes.push(letter);
                },
                None => match function_final(key) {
                    Some(letter) => {
                        bytes.push(0x4f);
                        bytes.push(letter);
                    },
                    None => match tilde_code(key) {
                        Some(n) => {
                            bytes.push(0x5b);
                            if n >= 10 {
                                bytes.push(0x30 + n / 10);
                            }
                            bytes.push(0x30 + n % 10);
                            bytes.push(0x7e);
                        },
                        None => return None,
                    },
                },
            }
        },
    }
    proof {
        assert(named_bytes(key, modifiers) is Some);
        assert(bytes@ =~= named_bytes(key, modifiers)->0);
    }
    Some(bytes)
}

fn written_bytes(press: &KeyPress) -> (res: KeyAction)
    ensures
        res@ == text_bytes(*press),
{
    match &press.text {
        Some(text) => {
            if text.as_str().unicode_len() == 0 {
                return KeyAction::Ignore;
            }
            let written = text.as_str().as_bytes_vec();
            if press.modifiers.alt {
                let mut bytes: Vec<u8> = Vec::new();
                bytes.push(0x1b);
                let mut i: usize = 0;
                while i < written.len()
                    invariant
                        i <= written@.len(),
                        bytes@ =~= seq![0x1bu8] + written@.take(i as int),
                    decreases written@.len() - i,
                {
                    bytes.push(written[i]);
                    i += 1;
                }
                proof {
                    assert(written@.take(i as int) =~= written@);
                }
                KeyAction::Bytes(bytes)
            } else {
                KeyAction::Bytes(written)
            }
        },
        None => KeyAction::Ignore,
    }
}

fn control_target(press: &KeyPress) -> (res: Option<char>)
    ensures
        res == control_char(*press),
{
    match press.latin {
        Some(c) => Some(c),
        None => match &press.key {
            Key::Character(value) => {
                if value.as_str().unicode_len() == 1 {
                    let c: char = value.as_str().get_char(0);
                    if (c as u32) < 128 {
                        Some(c)
                    } else {
                        None
                    }
                } else {
                    None
                }
            },
            _ => None,
        },
    }
}

/// What a key does: a shortcut of the application, bytes for the terminal, or
/// nothing.
pub fn translate_key(press: &KeyPress, platform: Platform) -> (res: KeyAction)
    ensures
        res@ == key_action(*press, platform),
{
    if is_paste_shortcut(press, platform) {
        return KeyAction::Paste;
    }
    if is_copy_shortcut(press, platform) {
        return KeyAction::Copy;
    }
    let modifiers = press.modifiers;
    if modifiers.logo {
        return KeyAction::Ignore;
    }
    if modifiers.control {
        let space: bool = match &press.key {
            Key::Named(Named::Space) => true,
            _ => false,
        };
        if space {
            let mut bytes: Vec<u8> = Vec::new();
            bytes.push(0);
            proof {
                assert(bytes@ =~= seq![0u8]);
            }
            return KeyAction::Bytes(bytes);
        }
        if let Some(c) = control_target(press) {
            if let Some(byte) = control_byte(c) {
                let mut bytes: Vec<u8> = Vec::new();
                bytes.push(byte);
                proof {
                    assert(bytes@ =~= seq![byte]);
                }
                return KeyAction::Bytes(bytes);
            }
        }
    }
    match &press.key {
        Key::Named(named) => match named_key(*named, modifiers) {
            Some(bytes) => KeyAction::Bytes(bytes),
            None => written_bytes(press),
        },
        _ => written_bytes(press),
    }
}

/// A letter gives the same control byte in either case, and the byte is the
/// letter's place in the alphabet.
pub proof fn law_control_letters(ch: char)
    requires
        'a' <= ch <= 'z',
    ensures
        control_code(ch) == Some((ch as u32 - 96) as u8),
        control_code(ascii_upper(ch)) == control_code(ch),
{
}

/// No modifier is held down.
pub open spec fn unmodified(m: Modifiers) -> bool {
    !m.shift && !m.control && !m.alt && !m.logo
}

/// Without modifiers a key that moves the cursor gives the escape character, an
/// opening bracket and a letter of its own, and the keys that edit or have a
/// control character of their own give what terminals know them by.
pub proof fn law_named_keys(press: KeyPress, platform: Platform, key: Named)
    requires
        press.key == Key::Named(key),
        unmodified(press.modifiers),
    ensures
        ({
            let sent = key_action(press, platform);
            &&& key is ArrowUp ==> sent == KeyActionModel::Bytes(seq![0x1b, 0x5b, 0x41])
            &&& key is ArrowDown ==> sent == KeyActionModel::Bytes(seq![0x1b, 0x5b, 0x42])
            &&& key is ArrowRight ==> sent == KeyActionModel::Bytes(seq![0x1b, 0x5b, 0x43])
            &&& key is ArrowLeft ==> sent == KeyActionModel::Bytes(seq![0x1b, 0x5b, 0x44])
            &&& key is Home ==> sent == KeyActionModel::Bytes(seq![0x1b, 0x5b, 0x48])
            &&& key is End ==> sent == KeyActionModel::Bytes(seq![0x1b, 0x5b, 0x46])
            &&& key is Insert ==> sent == KeyActionModel::Bytes(seq![0x1b, 0x5b, 0x32, 0x7e])
            &&& key is Delete ==> sent == KeyActionModel::Bytes(seq![0x1b, 0x5b, 0x33, 0x7e])
            &&& key is PageUp ==> sent == KeyActionModel::Bytes(seq![0x1b, 0x5b, 0x35, 0x7e])
            &&& key is PageDown ==> sent == KeyActionModel::Bytes(seq![0x1b, 0x5b, 0x36, 0x7e])
            &&& key is Enter ==> sent == KeyActionModel::Bytes(seq![0x0d])
            &&& key is Tab ==> sent == KeyActionModel::Bytes(seq![0x09])
            &&& key is Backspace ==> sent == KeyActionModel::Bytes(seq![0x7f])
            &&& key is Escape ==> sent == KeyActionModel::Bytes(seq![0x1b])
        }),
{
    if tilde_number(key) is Some {
        let n = tilde_number(key)->0;
        let bytes = seq![0x1bu8, 0x5b] + digit_bytes(n) + seq![0x7eu8];
        if n < 10 {
            assert(bytes =~= seq![0x1bu8, 0x5b, (0x30 + n) as u8, 0x7e]);
        }
    }
}

/// The function keys give the sequences of xterm: a letter for the first four,
/// a number for the others.
pub proof fn law_function_keys(press: KeyPress, platform: Platform, key: Named)
    requires
        press.key == Key::Named(key),
        unmodified(press.modifiers),
    ensures
        ({
            let sent = key_action(press, platform);
            &&& key is F1 ==> sent == KeyActionModel::Bytes(seq![0x1b, 0x4f, 0x50])
            &&& key is F2 ==> sent == KeyActionModel::Bytes(seq![0x1b, 0x4f, 0x51])
            &&& key is F3 ==> sent == KeyActionModel::Bytes(seq![0x1b, 0x4f, 0x52])
            &&& key is F4 ==> sent == KeyActionModel::Bytes(seq![0x1b, 0x4f, 0x53])
            &&& key is F5 ==> sent == KeyActionModel::Bytes(seq![0x1b, 0x5b, 0x31, 0x35, 0x7e])
            &&& key is F6 ==> sent == KeyActionModel::Bytes(seq![0x1b, 0x5b, 0x31, 0x37, 0x7e])
            &&& key is F7 ==> sent == KeyActionModel::Bytes(seq![0x1b, 0x5b, 0x31, 0x38, 0x7e])
            &&& key is F8 ==> sent == KeyActionModel::Bytes(seq![0x1b, 0x5b, 0x31, 0x39, 0x7e])
            &&& key is F9 ==> sent == KeyActionModel::Bytes(seq![0x1b, 0x5b, 0x32, 0x30, 0x7e])
            &&& key is F10 ==> sent == KeyActionModel::Bytes(seq![0x1b, 0x5b, 0x32, 0x31, 0x7e])
            &&& key is F11 ==> sent == KeyActionModel::Bytes(seq![0x1b, 0x5b, 0x32, 0x33, 0x7e])
            &&& key is F12 ==> sent == KeyActionModel::Bytes(seq![0x1b, 0x5b, 0x32, 0x34, 0x7e])
        }),
{
    if tilde_number(key) is Some {
        let n = tilde_number(key)->0;
        let bytes = seq![0x1bu8, 0x5b] + digit_bytes(n) + seq![0x7eu8];
        if n >= 10 {
            assert(bytes =~= seq![
                0x1bu8,
                0x5b,
                (0x30 + n / 10) as u8,
                (0x30 + n % 10) as u8,
                0x7e,
            ]);
        }
    }
}

/// Under modifiers a key that moves the cursor keeps its letter, and the digit
/// before the letter tells the modifiers: one, and one more for shift, two for
/// alt and four for control.
pub proof fn law_modified_cursor_keys(key: Named, m: Modifiers)
    requires
        m.shift || m.alt || m.control,
    ensures
        ({
            let shift: int = if m.shift {
                1
            } else {
                0
            };
            let alt: int = if m.alt {
                2
            } else {
                0
            };
            let control: int = if m.control {
                4
            } else {
                0
            };
            let digit = (0x31 + shift + alt + control) as u8;
            let with = |letter: u8| Some(seq![0x1bu8, 0x5b, 0x31, 0x3b, digit, letter]);
            &&& key is ArrowUp ==> named_bytes(key, m) == with(0x41)
            &&& key is ArrowDown ==> named_bytes(key, m) == with(0x42)
            &&& key is ArrowRight ==> named_bytes(key, m) == with(0x43)
            &&& key is ArrowLeft ==> named_bytes(key, m) == with(0x44)
            &&& key is Home ==> named_bytes(key, m) == with(0x48)
            &&& key is End ==> named_bytes(key, m) == with(0x46)
        }),
{
}

/// Tab with shift goes back, and the keys without a sequence of their own write
/// their text.
pub proof fn law_other_named_keys(press: KeyPress, platform: Platform)
    requires
        !press.modifiers.control,
        !press.modifiers.logo,
    ensures
        press.modifiers.shift && press.key == Key::Named(Named::Tab) ==> key_action(
            press,
            platform,
        ) == KeyActionModel::Bytes(seq![0x1b, 0x5b, 0x5a]),
        press.key == Key::Named(Named::Space) || press.key == Key::Named(Named::Other)
            || !(press.key is Named) ==> match press.text {
            Some(text) => if text@.len() == 0 {
                key_action(press, platform) == KeyActionModel::Ignore
            } else if press.modifiers.alt {
                key_action(press, platform) == KeyActionModel::Bytes(
                    seq![0x1bu8] + vstd::utf8::encode_utf8(text@),
                )
            } else {
                key_action(press, platform) == KeyActionModel::Bytes(
                    vstd::utf8::encode_utf8(text@),
                )
            },
            None => key_action(press, platform) == KeyActionModel::Ignore,
        },
{
}

/// Two different named keys that give bytes never give the same ones under the
/// same modifiers.
pub proof fn law_named_keys_are_told_apart(a: Named, b: Named, m: Modifiers)
    requires
        a != b,
        named_bytes(a, m) is Some,
    ensures
        named_bytes(a, m) != named_bytes(b, m),
{
    let (x, y) = (named_bytes(a, m), named_bytes(b, m));
    if y is Some {
        let (p, q) = (x->0, y->0);
        if tilde_number(a) is Some {
            lemma_tilde_bytes(a, m);
        }
        if tilde_number(b) is Some {
            lemma_tilde_bytes(b, m);
        }
        if p.len() == q.len() {
            if p.len() == 1 {
                assert(p[0] != q[0]);
            } else if p.len() == 3 {
                assert(p[1] != q[1] || p[2] != q[2]);
            } else if p.len() == 4 {
                assert(p[2] != q[2]);
            } else if p.len() == 5 {
                assert(p[2] != q[2] || p[3] != q[3]);
            } else {
                assert(p.len() == 6);
                assert(p[5] != q[5]);
            }
        }
    }
}

proof fn lemma_tilde_bytes(key: Named, m: Modifiers)
    requires
        tilde_number(key) is Some,
    ensures
        ({
            let n = tilde_number(key)->0;
            named_bytes(key, m) == Some(
                if n < 10 {
                    seq![0x1bu8, 0x5b, (0x30 + n) as u8, 0x7e]
                } else {
                    seq![0x1bu8, 0x5b, (0x30 + n / 10) as u8, (0x30 + n % 10) as u8, 0x7e]
                },
            )
        }),
{
    let n = tilde_number(key)->0;
    let bytes = seq![0x1bu8, 0x5b] + digit_bytes(n) + seq![0x7eu8];
    if n < 10 {
        assert(bytes =~= seq![0x1bu8, 0x5b, (0x30 + n) as u8, 0x7e]);
    } else {
        assert(bytes =~= seq![0x1bu8, 0x5b, (0x30 + n / 10) as u8, (0x30 + n % 10) as u8, 0x7e]);
    }
}

/// The shortcuts for pasting and copying: the letters V and C, of the place of
/// the key and whatever their case, with the command key on a Mac and with
/// control and shift elsewhere.
pub proof fn law_shortcuts(press: KeyPress, platform: Platform)
    ensures
        ({
            let m = press.modifiers;
            let held = match platform {
                Platform::MacOs => m.logo && !m.control && !m.alt,
                Platform::Other => m.control && m.shift && !m.alt,
            };
            let is_v = press.latin == Some('v') || press.latin == Some('V');
            let is_c = press.latin == Some('c') || press.latin == Some('C');
            &&& key_action(press, platform) is Paste <==> held && is_v
            &&& key_action(press, platform) is Copy <==> held && is_c
            &&& m.logo && !(held && (is_v || is_c)) ==> key_action(press, platform) is Ignore
        }),
{
}

/// With control a key gives the control character of its letter or sign, and
/// the space bar gives zero.
pub proof fn law_control_key(press: KeyPress, platform: Platform, c: char)
    requires
        press.modifiers.control,
        !press.modifiers.logo,
        !press.modifiers.shift || press.modifiers.alt,
        press.latin == Some(c),
    ensures
        ({
            let sent = key_action(press, platform);
            &&& press.key == Key::Named(Named::Space) ==> sent == KeyActionModel::Bytes(seq![0u8])
            &&& press.key != Key::Named(Named::Space) ==> {
                &&& 'a' <= c <= 'z' ==> sent == KeyActionModel::Bytes(
                    seq![(c as u32 - 'a' as u32 + 1) as u8],
                )
                &&& 'A' <= c <= 'Z' ==> sent == KeyActionModel::Bytes(
                    seq![(c as u32 - 'A' as u32 + 1) as u8],
                )
                &&& c == '@' || c == '2' ==> sent == KeyActionModel::Bytes(seq![0u8])
                &&& c == '[' || c == '3' ==> sent == KeyActionModel::Bytes(seq![0x1bu8])
                &&& c == '\\' || c == '4' ==> sent == KeyActionModel::Bytes(seq![0x1cu8])
                &&& c == ']' || c == '5' ==> sent == KeyActionModel::Bytes(seq![0x1du8])
                &&& c == '^' || c == '6' ==> sent == KeyActionModel::Bytes(seq![0x1eu8])
                &&& c == '_' || c == '7' || c == '/' ==> sent == KeyActionModel::Bytes(
                    seq![0x1fu8],
                )
                &&& c == '?' || c == '8' ==> sent == KeyActionModel::Bytes(seq![0x7fu8])
            }
        }),
{
}

} // verus!
