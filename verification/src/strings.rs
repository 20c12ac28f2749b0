//! Text operations over characters: comparison, search, trimming, joining,
//! splitting and decimal numbers.
use vstd::prelude::*;
use vstd::string::*;
use vstd::utf8::*;

verus! {

// ---------------------------------------------------------------------------
// Standard library functions
// ---------------------------------------------------------------------------

/// `str`'s `==`: two strings are equal exactly where they hold the same
/// characters.
#[verifier::external_body]
pub(crate) fn text_eq(a: &str, b: &str) -> (res: bool)
    ensures
        res == (a@ == b@),
{
    a == b
}

/// `String::push` appends one character to the end of the string.
pub assume_specification[ String::push ](s: &mut String, c: char)
    ensures
        final(s)@ == old(s)@.push(c),
;

/// `char::from_u32` gives the character of a code point; the surrogates and
/// the numbers above 0x10FFFF have none.
pub assume_specification[ char::from_u32 ](i: u32) -> (res: Option<char>)
    ensures
        res is Some <==> (i < 0xD800 || 0xE000 <= i <= 0x10FFFF),
        res matches Some(c) ==> c as u32 == i,
;

/// `std::str::from_utf8` succeeds exactly on valid UTF-8, and its result holds
/// the characters that the bytes encode.
#[verifier::external_body]
pub(crate) fn utf8_text<'a>(bytes: &'a [u8]) -> (res: Option<&'a str>)
    ensures
        res is Some <==> valid_utf8(bytes@),
        res matches Some(s) ==> s@ == decode_utf8(bytes@),
{
    std::str::from_utf8(bytes).ok()
}

/// What `str::to_lowercase` gives for these characters.
pub uninterp spec fn lowercase(s: Seq<char>) -> Seq<char>;

/// `str::to_lowercase`, the Unicode lower case mapping of a whole string; its
/// result is a function of the characters alone and is named `lowercase`.
#[verifier::external_body]
pub(crate) fn to_lowercase(s: &str) -> (res: String)
    ensures
        res@ == lowercase(s@),
{
    s.to_lowercase()
}

/// The character has the Unicode property `White_Space`.
pub open spec fn white_space(c: char) -> bool {
    let n = c as u32;
    ||| 0x09 <= n <= 0x0d
    ||| n == 0x20 || n == 0x85 || n == 0xa0 || n == 0x1680
    ||| 0x2000 <= n <= 0x200a
    ||| n == 0x2028 || n == 0x2029 || n == 0x202f || n == 0x205f || n == 0x3000
}

/// `char::is_whitespace` answers whether a character has the Unicode property
/// `White_Space`.
#[verifier::external_body]
pub(crate) fn is_whitespace(c: char) -> (res: bool)
    ensures
        res == white_space(c),
{
    c.is_whitespace()
}

// ---------------------------------------------------------------------------
// Characters
// ---------------------------------------------------------------------------

/// The characters of a string, in order.
pub fn chars_of(s: &str) -> (res: Vec<char>)
    ensures
        res@ == s@,
{
    let mut out: Vec<char> = Vec::new();
    for c in iter: s.chars()
        invariant
            out@ == s@.take(iter.index() as int),
            iter.seq() == s@,
    {
        proof {
            assert(s@.take(iter.index() as int).push(c) =~= s@.take(iter.index() + 1));
        }
        out.push(c);
    }
    proof {
        assert(s@.take(s@.len() as int) =~= s@);
    }
    out
}

/// The string of the characters `chars[from..to]`.
pub fn string_of(chars: &Vec<char>, from: usize, to: usize) -> (res: String)
    requires
        from <= to <= chars@.len(),
    ensures
        res@ == chars@.subrange(from as int, to as int),
{
    let mut out = String::new();
    let mut i: usize = from;
    while i < to
        invariant
            from <= i <= to <= chars@.len(),
            out@ == chars@.subrange(from as int, i as int),
        decreases to - i,
    {
        out.push(chars[i]);
        i += 1;
        proof {
            assert(chars@.subrange(from as int, i as int) =~= chars@.subrange(from as int, i - 1).push(
                chars@[i - 1],
            ));
        }
    }
    out
}

// ---------------------------------------------------------------------------
// Search
// ---------------------------------------------------------------------------

/// `part` stands in `text` at position `at`.
pub open spec fn stands_at(text: Seq<char>, part: Seq<char>, at: int) -> bool {
    &&& 0 <= at
    &&& at + part.len() <= text.len()
    &&& text.subrange(at, at + part.len()) == part
}

/// `part` stands somewhere in `text`.
pub open spec fn has_part(text: Seq<char>, part: Seq<char>) -> bool {
    exists|at: int| stands_at(text, part, at)
}

/// Whether `part` stands in `text` at position `at`.
fn part_at(text: &Vec<char>, part: &Vec<char>, at: usize) -> (res: bool)
    ensures
        res == stands_at(text@, part@, at as int),
{
    if part.len() > text.len() || at > text.len() - part.len() {
        return false;
    }
    let mut k: usize = 0;
    while k < part.len()
        invariant
            k <= part@.len(),
            at + part@.len() <= text.len(),
            forall|j: int| 0 <= j < k ==> text@[at + j] == part@[j],
        decreases part@.len() - k,
    {
        if text[at + k] != part[k] {
            proof {
                assert(text@.subrange(at as int, at + part@.len())[k as int] != part@[k as int]);
            }
            return false;
        }
        k += 1;
    }
    proof {
        assert(text@.subrange(at as int, at + part@.len()) =~= part@);
    }
    true
}

/// Whether `part` stands somewhere in `text`.
pub fn contains_text(text: &str, part: &str) -> (res: bool)
    ensures
        res == has_part(text@, part@),
{
    let t = chars_of(text);
    let p = chars_of(part);
    let mut at: usize = 0;
    while at < t.len()
        invariant
            at <= t@.len(),
            t@ == text@,
            p@ == part@,
            forall|j: int| 0 <= j < at ==> !stands_at(text@, part@, j),
        decreases t@.len() - at,
    {
        if part_at(&t, &p, at) {
            return true;
        }
        at += 1;
    }
    let last = part_at(&t, &p, at);
    proof {
        if has_part(text@, part@) {
            let w = choose|j: int| stands_at(text@, part@, j);
            assert(w <= at);
            assert(w == at);
        }
    }
    last
}

/// Whether `text` begins with `prefix`.
pub fn begins_with(text: &str, prefix: &str) -> (res: bool)
    ensures
        res == stands_at(text@, prefix@, 0),
{
    let t = chars_of(text);
    let p = chars_of(prefix);
    part_at(&t, &p, 0)
}

/// What follows `prefix` in `text`, where `text` begins with it.
pub fn strip_prefix(text: &str, prefix: &str) -> (res: Option<String>)
    ensures
        opt_text(res) == stripped(text@, prefix@),
{
    let t = chars_of(text);
    let p = chars_of(prefix);
    if part_at(&t, &p, 0) {
        let rest = string_of(&t, p.len(), t.len());
        Some(rest)
    } else {
        None
    }
}

/// What follows `prefix` in `text`, where `text` begins with it.
pub open spec fn stripped(text: Seq<char>, prefix: Seq<char>) -> Option<Seq<char>> {
    if stands_at(text, prefix, 0) {
        Some(text.subrange(prefix.len() as int, text.len() as int))
    } else {
        None
    }
}

/// The characters of an optional string.
pub open spec fn opt_text(s: Option<String>) -> Option<Seq<char>> {
    match s {
        Some(text) => Some(text@),
        None => None,
    }
}

/// What precedes `suffix` in `text`, where `text` ends with it.
pub open spec fn stripped_end(text: Seq<char>, suffix: Seq<char>) -> Option<Seq<char>> {
    if stands_at(text, suffix, text.len() - suffix.len()) {
        Some(text.take(text.len() - suffix.len()))
    } else {
        None
    }
}

/// What precedes `suffix` in `text`, where `text` ends with it.
pub fn strip_suffix(text: &str, suffix: &str) -> (res: Option<String>)
    ensures
        opt_text(res) == stripped_end(text@, suffix@),
{
    let t = chars_of(text);
    let p = chars_of(suffix);
    if p.len() <= t.len() && part_at(&t, &p, t.len() - p.len()) {
        let rest = string_of(&t, 0, t.len() - p.len());
        proof {
            assert(t@.subrange(0, t@.len() - p@.len()) =~= text@.take(
                text@.len() - suffix@.len(),
            ));
        }
        Some(rest)
    } else {
        None
    }
}

/// Whether a text holds a character.
pub fn has_char(text: &str, c: char) -> (res: bool)
    ensures
        res == text@.contains(c),
{
    let chars = chars_of(text);
    let mut i: usize = 0;
    while i < chars.len()
        invariant
            i <= chars@.len(),
            chars@ == text@,
            forall|k: int| 0 <= k < i ==> #[trigger] chars@[k] != c,
        decreases chars@.len() - i,
    {
        if chars[i] == c {
            proof {
                assert(text@[i as int] == c);
            }
            return true;
        }
        i += 1;
    }
    false
}

/// The text without the characters `c` at its end.
pub open spec fn without_end(s: Seq<char>, c: char) -> Seq<char>
    decreases s.len(),
{
    if s.len() > 0 && s.last() == c {
        without_end(s.drop_last(), c)
    } else {
        s
    }
}

/// The text without the characters `c` at its end.
pub fn trim_end_char(s: &str, c: char) -> (res: String)
    ensures
        res@ == without_end(s@, c),
{
    let chars = chars_of(s);
    let mut end: usize = chars.len();
    proof {
        assert(chars@.take(end as int) =~= s@);
    }
    while end > 0 && chars[end - 1] == c
        invariant
            end <= chars@.len(),
            without_end(chars@.take(end as int), c) == without_end(s@, c),
        ensures
            end <= chars@.len(),
            without_end(s@, c) == chars@.take(end as int),
        decreases end,
    {
        proof {
            assert(chars@.take(end as int).drop_last() =~= chars@.take(end - 1));
        }
        end -= 1;
    }
    let res = string_of(&chars, 0, end);
    proof {
        assert(chars@.subrange(0, end as int) =~= chars@.take(end as int));
    }
    res
}

// ---------------------------------------------------------------------------
// Case
// ---------------------------------------------------------------------------

/// The lower case letter of an ASCII capital; any other character itself.
pub open spec fn ascii_lower(c: char) -> char {
    if 'A' <= c <= 'Z' {
        (c as u32 + 32) as char
    } else {
        c
    }
}

/// Equality up to the case of ASCII letters.
pub open spec fn same_ascii(a: Seq<char>, b: Seq<char>) -> bool {
    &&& a.len() == b.len()
    &&& forall|i: int| 0 <= i < a.len() ==> ascii_lower(#[trigger] a[i]) == ascii_lower(b[i])
}

/// The lower case letter of an ASCII capital; any other character itself.
pub fn to_ascii_lower(c: char) -> (res: char)
    ensures
        res == ascii_lower(c),
{
    if 'A' <= c && c <= 'Z' {
        let code: u8 = c as u8;
        (code + 32) as char
    } else {
        c
    }
}

/// Equality up to the case of ASCII letters.
pub fn eq_ignore_ascii_case(a: &str, b: &str) -> (res: bool)
    ensures
        res == same_ascii(a@, b@),
{
    let x = chars_of(a);
    let y = chars_of(b);
    if x.len() != y.len() {
        return false;
    }
    let mut i: usize = 0;
    while i < x.len()
        invariant
            i <= x@.len(),
            x@ == a@,
            y@ == b@,
            x@.len() == y@.len(),
            forall|j: int| 0 <= j < i ==> ascii_lower(#[trigger] a@[j]) == ascii_lower(b@[j]),
        decreases x@.len() - i,
    {
        if to_ascii_lower(x[i]) != to_ascii_lower(y[i]) {
            proof {
                assert(ascii_lower(a@[i as int]) != ascii_lower(b@[i as int]));
            }
            return false;
        }
        i += 1;
    }
    true
}

// ---------------------------------------------------------------------------
// Trimming
// ---------------------------------------------------------------------------

/// `s` without its leading white space.
pub open spec fn trimmed_start(s: Seq<char>) -> Seq<char>
    decreases s.len(),
{
    if s.len() > 0 && white_space(s[0]) {
        trimmed_start(s.skip(1))
    } else {
        s
    }
}

/// `s` without its trailing white space.
pub open spec fn trimmed_end(s: Seq<char>) -> Seq<char>
    decreases s.len(),
{
    if s.len() > 0 && white_space(s.last()) {
        trimmed_end(s.drop_last())
    } else {
        s
    }
}

/// `s` without its leading and trailing white space.
pub open spec fn trimmed(s: Seq<char>) -> Seq<char> {
    trimmed_end(trimmed_start(s))
}

proof fn lemma_trimmed_start_suffix(s: Seq<char>)
    ensures
        trimmed_start(s).len() <= s.len(),
        trimmed_start(s) == s.skip(s.len() - trimmed_start(s).len()),
        trimmed_start(s).len() > 0 ==> !white_space(trimmed_start(s)[0]),
    decreases s.len(),
{
    if s.len() > 0 && white_space(s[0]) {
        lemma_trimmed_start_suffix(s.skip(1));
        let n = trimmed_start(s).len();
        assert(s.skip(1).skip(s.skip(1).len() - n) =~= s.skip(s.len() - n));
    } else {
        assert(s.skip(0) =~= s);
    }
}

proof fn lemma_trimmed_end_prefix(s: Seq<char>)
    ensures
        trimmed_end(s).len() <= s.len(),
        trimmed_end(s) == s.take(trimmed_end(s).len() as int),
        trimmed_end(s).len() > 0 ==> !white_space(trimmed_end(s).last()),
    decreases s.len(),
{
    if s.len() > 0 && white_space(s.last()) {
        lemma_trimmed_end_prefix(s.drop_last());
        let n = trimmed_end(s).len() as int;
        assert(s.drop_last().take(n) =~= s.take(n));
    } else {
        assert(s.take(s.len() as int) =~= s);
    }
}

/// Trimming a trimmed text changes nothing.
pub proof fn lemma_trimmed_twice(s: Seq<char>)
    ensures
        trimmed(trimmed(s)) == trimmed(s),
{
    lemma_trimmed_start_suffix(s);
    lemma_trimmed_end_prefix(trimmed_start(s));
}

/// Nothing is left of a text that is white space throughout.
pub proof fn lemma_blank_is_trimmed_away(s: Seq<char>)
    requires
        forall|i: int| 0 <= i < s.len() ==> white_space(#[trigger] s[i]),
    ensures
        trimmed(s).len() == 0,
{
    lemma_trimmed_start_suffix(s);
    lemma_trimmed_end_prefix(trimmed_start(s));
    if trimmed_start(s).len() > 0 {
        assert(trimmed_start(s)[0] == s[s.len() - trimmed_start(s).len()]);
    }
}

/// A text of which nothing is left is white space throughout.
pub proof fn lemma_trimmed_away_is_blank(s: Seq<char>)
    requires
        trimmed(s).len() == 0,
    ensures
        forall|i: int| 0 <= i < s.len() ==> white_space(#[trigger] s[i]),
{
    let rest = trimmed_start(s);
    lemma_trimmed_start_suffix(s);
    lemma_trimmed_end_prefix(rest);
    lemma_cut_start_is_blank(s);
    if rest.len() > 0 {
        lemma_cut_end_is_blank(rest);
        assert(white_space(rest[0]));
    }
}

proof fn lemma_cut_start_is_blank(s: Seq<char>)
    ensures
        trimmed_start(s).len() <= s.len(),
        forall|i: int|
            0 <= i < s.len() - trimmed_start(s).len() ==> white_space(#[trigger] s[i]),
    decreases s.len(),
{
    if s.len() > 0 && white_space(s[0]) {
        lemma_cut_start_is_blank(s.skip(1));
        assert forall|i: int| 0 <= i < s.len() - trimmed_start(s).len() implies white_space(
            #[trigger] s[i],
        ) by {
            if i > 0 {
                assert(s[i] == s.skip(1)[i - 1]);
            }
        }
    }
}

proof fn lemma_cut_end_is_blank(s: Seq<char>)
    ensures
        trimmed_end(s).len() <= s.len(),
        forall|i: int| trimmed_end(s).len() <= i < s.len() ==> white_space(#[trigger] s[i]),
    decreases s.len(),
{
    if s.len() > 0 && white_space(s.last()) {
        lemma_cut_end_is_blank(s.drop_last());
        assert forall|i: int| trimmed_end(s).len() <= i < s.len() implies white_space(
            #[trigger] s[i],
        ) by {
            if i < s.len() - 1 {
                assert(s[i] == s.drop_last()[i]);
            }
        }
    }
}

/// A text without white space at its ends is trimmed already.
pub proof fn lemma_nothing_to_trim(s: Seq<char>)
    requires
        s.len() > 0,
        !white_space(s[0]),
        !white_space(s.last()),
    ensures
        trimmed(s) == s,
{
}

/// `s` without its leading and trailing white space.
pub fn trim(s: &str) -> (res: String)
    ensures
        res@ == trimmed(s@),
{
    let chars = chars_of(s);
    let mut from: usize = 0;
    proof {
        assert(chars@.skip(0) =~= chars@);
    }
    while from < chars.len() && is_whitespace(chars[from])
        invariant
            from <= chars@.len(),
            trimmed_start(chars@.skip(from as int)) == trimmed_start(chars@),
        ensures
            from <= chars@.len(),
            trimmed_start(chars@) == chars@.skip(from as int),
        decreases chars@.len() - from,
    {
        proof {
            assert(chars@.skip(from as int).skip(1) =~= chars@.skip(from + 1));
        }
        from += 1;
    }
    trim_end_from(&chars, from)
}

/// `chars[from..]` without its trailing white space.
fn trim_end_from(chars: &Vec<char>, from: usize) -> (res: String)
    requires
        from <= chars@.len(),
    ensures
        res@ == trimmed_end(chars@.skip(from as int)),
{
    let ghost all = chars@.skip(from as int);
    let mut to: usize = chars.len();
    proof {
        assert(all.take(to - from) =~= all);
    }
    while to > from && is_whitespace(chars[to - 1])
        invariant
            from <= to <= chars@.len(),
            all == chars@.skip(from as int),
            trimmed_end(all.take(to - from)) == trimmed_end(all),
        ensures
            from <= to <= chars@.len(),
            trimmed_end(all) == all.take(to - from),
        decreases to,
    {
        proof {
            assert(all.take(to - from).drop_last() =~= all.take(to - from - 1));
        }
        to -= 1;
    }
    let out = string_of(chars, from, to);
    proof {
        assert(out@ =~= all.take(to - from));
    }
    out
}

// ---------------------------------------------------------------------------
// Joining and splitting
// ---------------------------------------------------------------------------

/// The parts one after another, with `sep` between two neighbours.
pub open spec fn joined(parts: Seq<Seq<char>>, sep: Seq<char>) -> Seq<char>
    decreases parts.len(),
{
    if parts.len() == 0 {
        Seq::empty()
    } else if parts.len() == 1 {
        parts[0]
    } else {
        joined(parts.drop_last(), sep) + sep + parts.last()
    }
}

/// The characters of each string of a list.
pub open spec fn texts(list: Seq<String>) -> Seq<Seq<char>> {
    Seq::new(list.len(), |i: int| list[i]@)
}

/// The strings one after another, with `sep` between two neighbours.
pub fn join(parts: &Vec<String>, sep: &str) -> (res: String)
    ensures
        res@ == joined(texts(parts@), sep@),
{
    let mut out = String::new();
    let mut i: usize = 0;
    while i < parts.len()
        invariant
            i <= parts@.len(),
            out@ == joined(texts(parts@).take(i as int), sep@),
        decreases parts@.len() - i,
    {
        proof {
            let all = texts(parts@);
            assert(all.take(i + 1).drop_last() =~= all.take(i as int));
            assert(all.take(i + 1).last() == all[i as int]);
        }
        if i > 0 {
            out.append(sep);
        }
        out.append(parts[i].as_str());
        i += 1;
    }
    proof {
        assert(texts(parts@).take(i as int) =~= texts(parts@));
    }
    out
}

/// The pieces of `s` between the separators `sep`: one more than there are
/// separators.
pub open spec fn pieces(s: Seq<char>, sep: char) -> Seq<Seq<char>>
    decreases s.len(),
{
    if s.len() == 0 {
        seq![Seq::empty()]
    } else {
        let before = pieces(s.drop_last(), sep);
        if s.last() == sep {
            before.push(Seq::empty())
        } else {
            before.drop_last().push(before.last().push(s.last()))
        }
    }
}

/// The pieces of `s` between the separators `sep`.
pub fn split(s: &str, sep: char) -> (res: Vec<String>)
    ensures
        texts(res@) == pieces(s@, sep),
{
    let chars = chars_of(s);
    let mut done: Vec<String> = Vec::new();
    let mut piece = String::new();
    let mut i: usize = 0;
    proof {
        assert(chars@.take(0) =~= Seq::<char>::empty());
        assert(texts(done@).push(piece@) =~= pieces(chars@.take(0), sep));
    }
    while i < chars.len()
        invariant
            i <= chars@.len(),
            texts(done@).push(piece@) == pieces(chars@.take(i as int), sep),
        decreases chars@.len() - i,
    {
        let ghost before = texts(done@).push(piece@);
        proof {
            assert(chars@.take(i + 1).drop_last() =~= chars@.take(i as int));
            assert(chars@.take(i + 1).last() == chars@[i as int]);
            assert(before.drop_last() =~= texts(done@));
        }
        if chars[i] == sep {
            done.push(piece);
            piece = String::new();
            proof {
                assert(texts(done@) =~= before);
                assert(piece@ =~= Seq::<char>::empty());
            }
        } else {
            piece.push(chars[i]);
        }
        i += 1;
    }
    let ghost before = texts(done@).push(piece@);
    done.push(piece);
    proof {
        assert(texts(done@) =~= before);
        assert(chars@.take(i as int) =~= chars@);
    }
    done
}

// ---------------------------------------------------------------------------
// Numbers
// ---------------------------------------------------------------------------

/// The character of a decimal digit.
pub open spec fn digit_char(d: int) -> char {
    (48 + d) as char
}

/// The decimal digits of `n`, most significant first, without leading zeros.
pub open spec fn decimal(n: nat) -> Seq<char>
    decreases n,
{
    if n < 10 {
        seq![digit_char(n as int)]
    } else {
        decimal(n / 10).push(digit_char((n % 10) as int))
    }
}

/// The decimal digits of `n`.
pub fn decimal_text(n: u64) -> (res: String)
    ensures
        res@ == decimal(n as nat),
    decreases n,
{
    let d: u8 = (n % 10) as u8;
    let c: char = (48 + d) as char;
    if n < 10 {
        let mut out = String::new();
        out.push(c);
        proof {
            assert(out@ =~= decimal(n as nat));
        }
        out
    } else {
        let mut out = decimal_text(n / 10);
        out.push(c);
        out
    }
}

/// The decimal digits of a signed number, after a minus sign where it is
/// negative.
pub open spec fn signed_decimal(n: int) -> Seq<char> {
    if n < 0 {
        seq!['-'] + decimal((-n) as nat)
    } else {
        decimal(n as nat)
    }
}

/// The decimal digits of a signed number, after a minus sign where it is
/// negative.
pub fn signed_text(n: i64) -> (res: String)
    ensures
        res@ == signed_decimal(n as int),
{
    if n < 0 {
        let magnitude: u64 = (-(n as i128)) as u64;
        let digits = decimal_text(magnitude);
        let mut out = String::new();
        out.push('-');
        out.append(digits.as_str());
        proof {
            assert(out@ =~= signed_decimal(n as int));
        }
        out
    } else {
        decimal_text(n as u64)
    }
}

/// `c` is a decimal digit.
pub open spec fn is_digit(c: char) -> bool {
    '0' <= c <= '9'
}

/// The number that a string of decimal digits writes.
pub open spec fn digits_value(s: Seq<char>) -> nat
    decreases s.len(),
{
    if s.len() == 0 {
        0
    } else {
        10 * digits_value(s.drop_last()) + (s.last() as nat - 48) as nat
    }
}

/// Every character is a decimal digit.
pub open spec fn all_digits(s: Seq<char>) -> bool {
    forall|i: int| 0 <= i < s.len() ==> is_digit(#[trigger] s[i])
}

/// The number that a text writes: an optional plus sign and at least one
/// decimal digit.
pub open spec fn written_number(s: Seq<char>) -> Option<nat> {
    let digits = if s.len() > 0 && s[0] == '+' {
        s.skip(1)
    } else {
        s
    };
    if digits.len() > 0 && all_digits(digits) {
        Some(digits_value(digits))
    } else {
        None
    }
}

/// The number that a text writes, where it is at most `max`.
pub open spec fn number_up_to(s: Seq<char>, max: nat) -> Option<nat> {
    match written_number(s) {
        Some(n) => if n <= max {
            Some(n)
        } else {
            None
        },
        None => None,
    }
}

/// The number that a text writes, where it is at most `max`: what parsing the
/// text as an unsigned integer type with that maximum gives.
pub fn parse_up_to(s: &str, max: u64) -> (res: Option<u64>)
    ensures
        match res {
            Some(n) => number_up_to(s@, max as nat) == Some(n as nat),
            None => number_up_to(s@, max as nat) == None::<nat>,
        },
{
    let chars = chars_of(s);
    let start: usize = if chars.len() > 0 && chars[0] == '+' {
        1
    } else {
        0
    };
    let ghost digits = chars@.skip(start as int);
    proof {
        assert(chars@.skip(0) =~= chars@);
    }
    if start == chars.len() {
        return None;
    }
    let mut value: u64 = 0;
    let mut over: bool = false;
    let mut i: usize = start;
    while i < chars.len()
        invariant
            start <= i <= chars@.len(),
            digits == chars@.skip(start as int),
            digits == (if s@.len() > 0 && s@[0] == '+' { s@.skip(1) } else { s@ }),
            all_digits(digits.take(i - start)),
            !over ==> value == digits_value(digits.take(i - start)) && value <= max,
            over ==> digits_value(digits.take(i - start)) > max,
        decreases chars@.len() - i,
    {
        let c: char = chars[i];
        proof {
            assert(digits.take(i + 1 - start).drop_last() =~= digits.take(i - start));
            assert(digits[i - start] == c);
        }
        if !('0' <= c && c <= '9') {
            proof {
                assert(!is_digit(digits[i - start]));
            }
            return None;
        }
        let d: u64 = c as u64 - 48;
        if !over {
            if value as u128 * 10 + d as u128 > max as u128 {
                over = true;
            } else {
                value = value * 10 + d;
            }
        }
        i += 1;
    }
    proof {
        assert(digits.take(i - start) =~= digits);
    }
    if over {
        None
    } else {
        Some(value)
    }
}

/// Reading a number back from its decimal digits gives the number.
pub proof fn lemma_decimal_round_trip(n: nat)
    ensures
        written_number(decimal(n)) == Some(n),
        all_digits(decimal(n)),
        digits_value(decimal(n)) == n,
        decimal(n).len() > 0,
    decreases n,
{
    if n >= 10 {
        lemma_decimal_round_trip(n / 10);
        assert(decimal(n).drop_last() =~= decimal(n / 10));
        assert(decimal(n)[0] == decimal(n / 10)[0]);
        assert(is_digit(decimal(n / 10)[0]));
    } else {
        assert(decimal(n).drop_last() =~= Seq::<char>::empty());
        assert(digits_value(Seq::<char>::empty()) == 0);
    }
}

// ---------------------------------------------------------------------------
// Building
// ---------------------------------------------------------------------------

/// Two strings one after the other.
pub fn concat(a: &str, b: &str) -> (res: String)
    ensures
        res@ == a@ + b@,
{
    let mut out = a.to_string();
    out.append(b);
    out
}

/// Three strings one after another.
pub fn concat3(a: &str, b: &str, c: &str) -> (res: String)
    ensures
        res@ == a@ + b@ + c@,
{
    let mut out = a.to_string();
    out.append(b);
    out.append(c);
    out
}

/// Trimming cuts nothing but white space, and leaves none at either end.
pub proof fn law_trimming_cuts_white_space(s: Seq<char>)
    ensures
        exists|from: int, to: int|
            #![trigger s.subrange(from, to)]
            0 <= from <= to <= s.len() && trimmed(s) == s.subrange(from, to) && (forall|i: int|
                0 <= i < from || to <= i < s.len() ==> white_space(#[trigger] s[i])),
        trimmed(s).len() > 0 ==> !white_space(trimmed(s)[0]) && !white_space(trimmed(s).last()),
{
    lemma_trimmed_start_suffix(s);
    lemma_cut_start_is_blank(s);
    let rest = trimmed_start(s);
    lemma_trimmed_end_prefix(rest);
    lemma_cut_end_is_blank(rest);
    let from = s.len() - rest.len();
    let to = from + trimmed(s).len();
    assert(trimmed(s) =~= s.subrange(from, to));
    assert forall|i: int| 0 <= i < from || to <= i < s.len() implies white_space(
        #[trigger] s[i],
    ) by {
        if i >= to {
            assert(rest[i - from] == s[i]);
        }
    }
    if trimmed(s).len() > 0 {
        assert(trimmed(s)[0] == rest[0]);
    }
}

/// Joining puts the texts one after another with the separator between two.
pub proof fn law_joining(parts: Seq<Seq<char>>, part: Seq<char>, sep: Seq<char>)
    ensures
        joined(Seq::empty(), sep).len() == 0,
        joined(seq![part], sep) == part,
        parts.len() > 0 ==> joined(parts.push(part), sep) == joined(parts, sep) + sep + part,
{
    assert(parts.push(part).drop_last() =~= parts);
    assert(seq![part][0] == part);
}

/// Splitting cuts at every separator and nowhere else: no piece holds one, and
/// joined again the pieces give the text.
pub proof fn law_splitting_undoes_joining(s: Seq<char>, sep: char)
    ensures
        pieces(s, sep).len() > 0,
        forall|i: int, k: int|
            0 <= i < pieces(s, sep).len() && 0 <= k < pieces(s, sep)[i].len() ==> (
            #[trigger] pieces(s, sep)[i][k]) != sep,
        joined(pieces(s, sep), seq![sep]) == s,
    decreases s.len(),
{
    if s.len() == 0 {
        assert(pieces(s, sep)[0] =~= Seq::empty());
        assert(joined(pieces(s, sep), seq![sep]) =~= s);
    } else {
        let start = s.drop_last();
        law_splitting_undoes_joining(start, sep);
        let before = pieces(start, sep);
        if s.last() == sep {
            let all = before.push(Seq::empty());
            assert(pieces(s, sep) == all);
            assert(all.drop_last() =~= before);
            assert(joined(all, seq![sep]) == joined(before, seq![sep]) + seq![sep]
                + Seq::<char>::empty());
            assert(joined(all, seq![sep]) =~= s);
        } else {
            let longer = before.last().push(s.last());
            let all = before.drop_last().push(longer);
            assert(pieces(s, sep) == all);
            assert(all.drop_last() =~= before.drop_last());
            if before.len() == 1 {
                assert(joined(before, seq![sep]) == before[0]);
                assert(joined(all, seq![sep]) == longer);
            } else {
                assert(joined(all, seq![sep]) == joined(before.drop_last(), seq![sep]) + seq![sep]
                    + longer);
            }
            assert(joined(all, seq![sep]) =~= joined(before, seq![sep]).push(s.last()));
            assert(joined(all, seq![sep]) =~= s);
            assert forall|i: int, k: int| 0 <= i < all.len() && 0 <= k < all[i].len() implies (
            #[trigger] all[i][k]) != sep by {
                if i < before.len() - 1 {
                    assert(all[i] == before[i]);
                } else {
                    assert(all[i] == longer);
                    if k < before.last().len() {
                        assert(before[before.len() - 1][k] != sep);
                    }
                }
            }
        }
    }
}

/// A number that is written is read again as itself, with or without a plus sign
/// before it, up to the largest that is allowed.
pub proof fn law_numbers_are_read_as_written(n: nat, max: nat)
    ensures
        n <= max ==> number_up_to(decimal(n), max) == Some(n),
        n > max ==> number_up_to(decimal(n), max) is None,
        written_number(seq!['+'] + decimal(n)) == Some(n),
        written_number(Seq::empty()) is None,
        number_up_to(seq!['-'] + decimal(n), max) is None,
        n >= 10 ==> decimal(n) == decimal(n / 10) + decimal(n % 10),
{
    lemma_decimal_round_trip(n);
    let plus = seq!['+'] + decimal(n);
    assert(plus.skip(1) =~= decimal(n));
    let minus = seq!['-'] + decimal(n);
    assert(minus[0] == '-');
    assert(!is_digit(minus[0]));
    if n >= 10 {
        assert(decimal(n) =~= decimal(n / 10) + decimal(n % 10));
    }
}

/// A text begins with what is cut off its start, and ends with what is cut off
/// its end.
pub proof fn law_cutting_undoes_writing(text: Seq<char>, part: Seq<char>)
    ensures
        stripped(part + text, part) == Some(text),
        stripped_end(text + part, part) == Some(text),
        stripped(text, part) matches Some(rest) ==> text == part + rest,
        stripped_end(text, part) matches Some(rest) ==> text == rest + part,
        has_part(text + part, part),
        has_part(part + text, part),
{
    let a = part + text;
    assert(a.subrange(0, part.len() as int) =~= part);
    assert(a.subrange(part.len() as int, a.len() as int) =~= text);
    assert(stands_at(a, part, 0));
    let b = text + part;
    assert(b.subrange(text.len() as int, b.len() as int) =~= part);
    assert(b.take(text.len() as int) =~= text);
    assert(stands_at(b, part, text.len() as int));
    if stands_at(text, part, 0) {
        assert(text =~= part + text.subrange(part.len() as int, text.len() as int));
    }
    if stands_at(text, part, text.len() - part.len()) {
        assert(text =~= text.take(text.len() - part.len()) + part);
    }
}

/// A text that ends in a separator and a piece without one is split before that
/// piece; a text without a separator is one piece.
pub proof fn law_splitting_piece_by_piece(start: Seq<char>, piece: Seq<char>, sep: char)
    requires
        forall|i: int| 0 <= i < piece.len() ==> #[trigger] piece[i] != sep,
    ensures
        pieces(piece, sep) == seq![piece],
        pieces(start + seq![sep] + piece, sep) == pieces(start, sep).push(piece),
    decreases piece.len(),
{
    let all = start + seq![sep] + piece;
    if piece.len() == 0 {
        assert(all.drop_last() =~= start);
        assert(piece =~= Seq::empty());
    } else {
        let rest = piece.drop_last();
        law_splitting_piece_by_piece(start, rest, sep);
        assert(all.drop_last() =~= start + seq![sep] + rest);
        assert(rest.push(piece.last()) =~= piece);
        let before = pieces(start, sep).push(rest);
        assert(before.drop_last() =~= pieces(start, sep));
        assert(seq![rest].drop_last().push(piece) =~= seq![piece]);
    }
}

/// White space before a text is trimmed away.
pub proof fn lemma_blank_before(c: char, s: Seq<char>)
    requires
        white_space(c),
    ensures
        trimmed(seq![c] + s) == trimmed(s),
{
    let t = seq![c] + s;
    assert(t.skip(1) =~= s);
    assert(t[0] == c);
}

} // verus!
