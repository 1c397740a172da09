//! Small text routines shared by the other modules.
use vstd::prelude::*;
use vstd::string::*;
use vstd::utf8::*;

verus! {

/// `String::push` appends one character.
pub assume_specification[ String::push ](s: &mut String, c: char)
    ensures
        final(s)@ == old(s)@.push(c),
;

/// The character of a decimal digit.
pub open spec fn digit_char(d: nat) -> char {
    (48 + d) as char
}

/// The decimal notation of a number, without leading zeros.
pub open spec fn decimal(n: nat) -> Seq<char>
    decreases n,
{
    if n < 10 {
        seq![digit_char(n)]
    } else {
        decimal(n / 10).push(digit_char(n % 10))
    }
}

/// Whether a character is one of `0` to `9`.
pub open spec fn is_digit(c: char) -> bool {
    48 <= c as u32 <= 57
}

/// The number that a sequence of digits denotes.
pub open spec fn digits_value(s: Seq<char>) -> nat
    decreases s.len(),
{
    if s.len() == 0 {
        0
    } else {
        10 * digits_value(s.drop_last()) + (s.last() as u32 - 48) as nat
    }
}

/// A text with one leading `+` taken off.
pub open spec fn unsigned_part(s: Seq<char>) -> Seq<char> {
    if s.len() > 0 && s[0] == '+' {
        s.skip(1)
    } else {
        s
    }
}

/// The port number that a text denotes: digits, after an optional `+`, whose
/// value fits in sixteen bits.
pub open spec fn port_of(s: Seq<char>) -> Option<u16> {
    let d = unsigned_part(s);
    if d.len() > 0 && (forall|i: int| 0 <= i < d.len() ==> is_digit(#[trigger] d[i]))
        && digits_value(d) <= u16::MAX {
        Some(digits_value(d) as u16)
    } else {
        None
    }
}

/// The characters of a string, one by one.
pub fn characters(s: &str) -> (chars: Vec<char>)
    ensures
        chars@ == s@,
{
    let mut chars: Vec<char> = Vec::new();
    for c in it: s.chars()
        invariant
            it.seq() == s@,
            chars@ == s@.take(it.index()),
    {
        chars.push(c);
        proof {
            assert(s@.take(it.index() + 1) =~= s@.take(it.index()).push(c));
        }
    }
    proof {
        assert(s@.take(s@.len() as int) =~= s@);
    }
    chars
}

/// Whether two texts are the same.
pub fn same_text(a: &str, b: &str) -> (same: bool)
    ensures
        same == (a@ == b@),
{
    a.to_owned() == b.to_owned()
}

/// Writes a port number in decimal.
pub fn decimal_text(n: u16) -> (text: String)
    ensures
        text@ == decimal(n as nat),
    decreases n,
{
    let digit: u8 = (n % 10) as u8;
    let mut text: String = if n < 10 {
        String::new()
    } else {
        decimal_text(n / 10)
    };
    text.push((48 + digit) as char);
    proof {
        assert(n < 10 ==> text@ =~= seq![digit_char(n as nat)]);
    }
    text
}

/// Reads a port number.
pub fn parse_port(s: &str) -> (port: Option<u16>)
    ensures
        port == port_of(s@),
{
    let chars = characters(s);
    let start: usize = if chars.len() > 0 && chars[0] == '+' {
        1
    } else {
        0
    };
    let ghost d = unsigned_part(s@);
    if chars.len() == start {
        return None;
    }
    let mut value: u32 = 0;
    let mut too_big = false;
    let mut i: usize = start;
    while i < chars.len()
        invariant
            chars@ == s@,
            start <= 1,
            start <= i <= chars.len(),
            d == chars@.skip(start as int),
            d == unsigned_part(s@),
            forall|j: int| 0 <= j < i - start ==> is_digit(#[trigger] d[j]),
            too_big <==> digits_value(d.take(i - start)) > u16::MAX,
            !too_big ==> value == digits_value(d.take(i - start)),
        decreases chars.len() - i,
    {
        let c: char = chars[i];
        proof {
            assert(d[i - start] == c);
            assert(d.take(i - start + 1).drop_last() =~= d.take(i - start));
        }
        let code: u32 = c as u32;
        if code < 48 || code > 57 {
            proof {
                assert(!is_digit(d[i - start]));
            }
            return None;
        }
        if !too_big {
            value = value * 10 + (code - 48);
            if value > 65535 {
                too_big = true;
            }
        }
        i += 1;
    }
    proof {
        assert(d.take(d.len() as int) =~= d);
    }
    if too_big {
        None
    } else {
        Some(value as u16)
    }
}

/// Why a byte sequence is not UTF-8; only that it is not is used.
#[verifier::external_type_specification]
#[verifier::external_body]
pub struct ExUtf8Error(core::str::Utf8Error);

/// `str::from_utf8` gives the text whose UTF-8 encoding the bytes are, and an
/// error exactly where they encode no text.
pub assume_specification[ core::str::from_utf8 ](bytes: &[u8]) -> (text: Result<
    &str,
    core::str::Utf8Error,
>)
    ensures
        match text {
            Ok(t) => valid_utf8(bytes@) && t@ == decode_utf8(bytes@),
            Err(_) => !valid_utf8(bytes@),
        },
;

/// The text that bytes encode in UTF-8, if they do.
pub open spec fn utf8_text(bytes: Seq<u8>) -> Option<Seq<char>> {
    if valid_utf8(bytes) {
        Some(decode_utf8(bytes))
    } else {
        None
    }
}

/// A text by its characters, or its absence.
pub open spec fn opt_text(text: Option<String>) -> Option<Seq<char>> {
    match text {
        Some(t) => Some(t@),
        None => None,
    }
}

/// Decodes UTF-8.
pub fn decode_text(bytes: &[u8]) -> (text: Option<String>)
    ensures
        opt_text(text) == utf8_text(bytes@),
{
    match core::str::from_utf8(bytes) {
        Ok(t) => Some(t.to_owned()),
        Err(_) => None,
    }
}

/// The part of a text before its first dot, if it has a dot.
pub open spec fn label_before_dot(s: Seq<char>) -> Option<Seq<char>> {
    match s.index_of_first('.') {
        Some(i) => Some(s.take(i)),
        None => None,
    }
}

/// The part of a host name before its first dot, if it has a dot.
pub fn first_label(host: &str) -> (label: Option<String>)
    ensures
        opt_text(label) == label_before_dot(host@),
{
    let chars = characters(host);
    let mut i: usize = 0;
    while i < chars.len()
        invariant
            chars@ == host@,
            i <= chars.len(),
            forall|j: int| 0 <= j < i ==> chars@[j] != '.',
        decreases chars.len() - i,
    {
        if chars[i] == '.' {
            proof {
                host@.index_of_first_ensures('.');
                assert(host@.contains(host@[i as int]));
                assert(host@.index_of_first('.') == Some(i as int));
            }
            return Some(host.substring_char(0, i).to_owned());
        }
        i += 1;
    }
    proof {
        host@.index_of_first_ensures('.');
        assert(!host@.contains('.'));
    }
    None
}

/// Unicode's `White_Space` property.
pub open spec fn is_white_space(c: char) -> bool {
    let v = c as u32;
    ||| 9 <= v <= 13
    ||| v == 0x20
    ||| v == 0x85
    ||| v == 0xA0
    ||| v == 0x1680
    ||| 0x2000 <= v <= 0x200A
    ||| v == 0x2028
    ||| v == 0x2029
    ||| v == 0x202F
    ||| v == 0x205F
    ||| v == 0x3000
}

/// A text that holds nothing but white space.
pub open spec fn blank(s: Seq<char>) -> bool {
    forall|i: int| 0 <= i < s.len() ==> is_white_space(#[trigger] s[i])
}

/// Whether a text holds nothing but white space.
pub fn is_blank(s: &str) -> (b: bool)
    ensures
        b == blank(s@),
{
    let chars = characters(s);
    let mut i: usize = 0;
    while i < chars.len()
        invariant
            chars@ == s@,
            i <= chars.len(),
            forall|j: int| 0 <= j < i ==> is_white_space(#[trigger] chars@[j]),
        decreases chars.len() - i,
    {
        let v: u32 = chars[i] as u32;
        let white = (9 <= v && v <= 13) || v == 0x20 || v == 0x85 || v == 0xA0 || v == 0x1680 || (
        0x2000 <= v && v <= 0x200A) || v == 0x2028 || v == 0x2029 || v == 0x202F || v == 0x205F || v
            == 0x3000;
        if !white {
            proof {
                assert(!is_white_space(s@[i as int]));
            }
            return false;
        }
        i += 1;
    }
    true
}

/// A character with the letters `A` to `Z` made small.
pub open spec fn ascii_lower(c: char) -> char {
    if 65 <= c as u32 <= 90 {
        (c as u32 + 32) as char
    } else {
        c
    }
}

/// A text with the letters `A` to `Z` made small.
pub open spec fn ascii_lower_text(s: Seq<char>) -> Seq<char> {
    s.map_values(|c: char| ascii_lower(c))
}

/// Makes the letters `A` to `Z` small.
pub fn lower_text(s: &str) -> (text: String)
    ensures
        text@ == ascii_lower_text(s@),
{
    let chars = characters(s);
    let mut text = String::new();
    let mut i: usize = 0;
    while i < chars.len()
        invariant
            chars@ == s@,
            i <= chars.len(),
            text@ == ascii_lower_text(s@).take(i as int),
        decreases chars.len() - i,
    {
        let c: char = chars[i];
        let v: u32 = c as u32;
        if 65 <= v && v <= 90 {
            text.push((v as u8 + 32) as char);
        } else {
            text.push(c);
        }
        i += 1;
        proof {
            assert(text@ =~= ascii_lower_text(s@).take(i as int));
        }
    }
    proof {
        assert(ascii_lower_text(s@).take(i as int) =~= ascii_lower_text(s@));
    }
    text
}

/// Whether a byte is a visible ASCII character, a space or a tab.
pub open spec fn is_visible(b: u8) -> bool {
    32 <= b < 127 || b == 9
}

/// The text of a header value, if it is visible ASCII throughout.
pub open spec fn visible_text(bytes: Seq<u8>) -> Option<Seq<char>> {
    if forall|i: int| 0 <= i < bytes.len() ==> is_visible(#[trigger] bytes[i]) {
        Some(bytes.map_values(|b: u8| b as char))
    } else {
        None
    }
}

/// The text of a header value, if it is visible ASCII throughout.
pub fn header_text(bytes: &[u8]) -> (text: Option<String>)
    ensures
        opt_text(text) == visible_text(bytes@),
{
    let mut text = String::new();
    let mut i: usize = 0;
    while i < bytes.len()
        invariant
            i <= bytes.len(),
            forall|j: int| 0 <= j < i ==> is_visible(#[trigger] bytes@[j]),
            text@ == bytes@.map_values(|b: u8| b as char).take(i as int),
        decreases bytes.len() - i,
    {
        let b: u8 = bytes[i];
        if !((32 <= b && b < 127) || b == 9) {
            proof {
                assert(!is_visible(bytes@[i as int]));
            }
            return None;
        }
        text.push(b as char);
        i += 1;
        proof {
            assert(text@ =~= bytes@.map_values(|b: u8| b as char).take(i as int));
        }
    }
    proof {
        let all = bytes@.map_values(|b: u8| b as char);
        assert(all.take(i as int) =~= all);
    }
    Some(text)
}

/// Reading back what was written in decimal gives the same port number.
pub proof fn decimal_reads_back(port: u16)
    ensures
        port_of(decimal(port as nat)) == Some(port),
{
    decimal_is_digits(port as nat);
    let s = decimal(port as nat);
    assert(is_digit(s[0]));
    assert(unsigned_part(s) == s);
}

/// A number in decimal is a nonempty run of digits of that value.
pub proof fn decimal_is_digits(n: nat)
    ensures
        decimal(n).len() > 0,
        forall|i: int| 0 <= i < decimal(n).len() ==> is_digit(#[trigger] decimal(n)[i]),
        digits_value(decimal(n)) == n,
    decreases n,
{
    reveal_with_fuel(digits_value, 2);
    if n >= 10 {
        decimal_is_digits(n / 10);
        assert(decimal(n).drop_last() =~= decimal(n / 10));
    } else {
        assert(decimal(n).drop_last() =~= Seq::<char>::empty());
    }
}

} // verus!
