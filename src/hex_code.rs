//! The textual form of a color: a `#` marker followed by six hexadecimal digits, two for each of
//! the red, green and blue channels (`#FF8000`). Reading accepts either case; writing produces
//! upper case.
use vstd::prelude::*;
use vstd::string::is_ascii_spec_bytes;

verus! {

/// A color as three 8-bit channels, the precision of its textual form.
#[derive(Debug, Copy, Clone, PartialEq, Eq, Hash, Structural)]
pub struct Rgb8 {
    pub r: u8,
    pub g: u8,
    pub b: u8,
}

/// Why a text is not a color code.
#[derive(Debug, Copy, Clone, PartialEq, Eq, Hash, Structural)]
pub enum HexCodeError {
    /// The text is not `#` followed by exactly six hexadecimal digits.
    InvalidHexSyntax,
}

/// A hexadecimal digit in either case.
pub open spec fn is_hex_digit(c: char) -> bool {
    ('0' <= c && c <= '9') || ('a' <= c && c <= 'f') || ('A' <= c && c <= 'F')
}

/// The value of a hexadecimal digit.
pub open spec fn digit_value(c: char) -> int {
    if '0' <= c && c <= '9' {
        c as int - '0' as int
    } else if 'a' <= c && c <= 'f' {
        c as int - 'a' as int + 10
    } else {
        c as int - 'A' as int + 10
    }
}

/// The upper-case hexadecimal digit for a value below 16.
pub open spec fn upper_digit(v: int) -> char {
    if v < 10 {
        ((v + '0' as int) as u32) as char
    } else {
        ((v - 10 + 'A' as int) as u32) as char
    }
}

/// `s` is `#` followed by six hexadecimal digits.
pub open spec fn is_hex_code(s: Seq<char>) -> bool {
    &&& s.len() == 7
    &&& s[0] == '#'
    &&& forall|i: int| 1 <= i < 7 ==> is_hex_digit(#[trigger] s[i])
}

/// The channel written by the two digits at `i` and `i + 1`.
pub open spec fn channel_at(s: Seq<char>, i: int) -> int {
    16 * digit_value(s[i]) + digit_value(s[i + 1])
}

/// The color that a well-formed code denotes.
pub open spec fn decode(s: Seq<char>) -> Rgb8 {
    Rgb8 { r: channel_at(s, 1) as u8, g: channel_at(s, 3) as u8, b: channel_at(s, 5) as u8 }
}

/// The two upper-case digits of a channel.
pub open spec fn channel_digits(v: u8) -> Seq<char> {
    seq![upper_digit(v as int / 16), upper_digit(v as int % 16)]
}

/// The upper-case code of a color.
pub open spec fn encode(c: Rgb8) -> Seq<char> {
    seq!['#'] + channel_digits(c.r) + channel_digits(c.g) + channel_digits(c.b)
}

/// The value of a hexadecimal digit given as an ASCII byte, if it is one.
fn digit_of_byte(b: u8) -> (r: Option<u8>)
    ensures
        r is Some <==> is_hex_digit(b as char),
        r is Some ==> r->0 as int == digit_value(b as char) && r->0 < 16,
{
    // ASCII: '0' is 48, 'a' is 97, 'A' is 65.
    if 48 <= b && b <= 57 {
        Some(b - 48)
    } else if 97 <= b && b <= 102 {
        Some(b - 97 + 10)
    } else if 65 <= b && b <= 70 {
        Some(b - 65 + 10)
    } else {
        None
    }
}

/// Reads the channel written by the two digits at `i` and `i + 1` of an ASCII text.
fn channel_of_bytes(bytes: &[u8], i: usize) -> (r: Option<u8>)
    requires
        i + 1 < bytes@.len(),
    ensures
        r is Some <==> is_hex_digit(bytes@[i as int] as char) && is_hex_digit(
            bytes@[i + 1] as char,
        ),
        r is Some ==> r->0 as int == 16 * digit_value(bytes@[i as int] as char) + digit_value(
            bytes@[i + 1] as char,
        ),
{
    match (digit_of_byte(bytes[i]), digit_of_byte(bytes[i + 1])) {
        (Some(hi), Some(lo)) => Some(hi * 16 + lo),
        _ => None,
    }
}

/// Reads a color code: `#` followed by six hexadecimal digits, in either case. Anything else,
/// including surrounding white space or a three-digit short form, is refused.
pub fn parse_hex_code(s: &str) -> (r: Result<Rgb8, HexCodeError>)
    ensures
        r is Ok <==> is_hex_code(s@),
        r is Ok ==> r->Ok_0 == decode(s@),
        r is Err ==> r == Err::<Rgb8, HexCodeError>(HexCodeError::InvalidHexSyntax),
{
    if !s.is_ascii() {
        proof {
            if is_hex_code(s@) {
                assert forall|i: int| 0 <= i < s@.len() implies '\0' <= #[trigger] s@[i]
                    <= '\u{7f}' by {
                    if i > 0 {
                        assert(is_hex_digit(s@[i]));
                    }
                }
            }
        }
        return Err(HexCodeError::InvalidHexSyntax);
    }
    let bytes = s.as_bytes();
    proof {
        is_ascii_spec_bytes(s);
        assert(bytes@.len() == s@.len());
        assert forall|i: int| 0 <= i < s@.len() implies #[trigger] bytes@[i] as char == s@[i] by {
            assert(bytes@[i] == s@[i] as u8);
        }
    }
    if bytes.len() != 7 || bytes[0] != 35 {
        // 35 is '#'
        return Err(HexCodeError::InvalidHexSyntax);
    }
    let r = channel_of_bytes(bytes, 1);
    let g = channel_of_bytes(bytes, 3);
    let b = channel_of_bytes(bytes, 5);
    match (r, g, b) {
        (Some(r), Some(g), Some(b)) => {
            let c = Rgb8 { r, g, b };
            assert(c == decode(s@));
            Ok(c)
        },
        _ => {
            proof {
                if is_hex_code(s@) {
                    assert(is_hex_digit(s@[1]) && is_hex_digit(s@[2]) && is_hex_digit(s@[3]));
                    assert(is_hex_digit(s@[4]) && is_hex_digit(s@[5]) && is_hex_digit(s@[6]));
                }
            }
            Err(HexCodeError::InvalidHexSyntax)
        },
    }
}

/// Relies on std's `String::push`, which appends one character to the end of the string.
#[verifier::external_body]
fn push_char(s: &mut String, c: char)
    ensures
        final(s)@ == old(s)@.push(c),
{
    s.push(c)
}

/// The upper-case hexadecimal digit for a value below 16.
fn upper_digit_of(v: u8) -> (r: char)
    requires
        v < 16,
    ensures
        r == upper_digit(v as int),
{
    if v < 10 {
        (v + 48) as char
    } else {
        (v - 10 + 65) as char
    }
}

/// Appends the two upper-case digits of a channel.
fn push_channel(s: &mut String, v: u8)
    ensures
        final(s)@ == old(s)@ + channel_digits(v),
{
    push_char(s, upper_digit_of(v / 16));
    push_char(s, upper_digit_of(v % 16));
    assert(final(s)@ =~= old(s)@ + channel_digits(v));
}

impl Rgb8 {
    /// Writes the color as `#` followed by six upper-case hexadecimal digits.
    pub fn to_hex_code(&self) -> (r: String)
        ensures
            r@ == encode(*self),
    {
        let mut s = String::new();
        push_char(&mut s, '#');
        push_channel(&mut s, self.r);
        push_channel(&mut s, self.g);
        push_channel(&mut s, self.b);
        assert(s@ =~= encode(*self));
        s
    }
}

/// An upper-case digit is a hexadecimal digit and reads back as its value.
proof fn lemma_upper_digit(v: int)
    requires
        0 <= v < 16,
    ensures
        is_hex_digit(upper_digit(v)),
        digit_value(upper_digit(v)) == v,
{
}

/// Writing a color and reading the text back gives the same color.
pub proof fn lemma_hex_code_round_trip(c: Rgb8)
    ensures
        is_hex_code(encode(c)),
        decode(encode(c)) == c,
{
    let s = encode(c);
    lemma_upper_digit(c.r as int / 16);
    lemma_upper_digit(c.r as int % 16);
    lemma_upper_digit(c.g as int / 16);
    lemma_upper_digit(c.g as int % 16);
    lemma_upper_digit(c.b as int / 16);
    lemma_upper_digit(c.b as int % 16);
    assert(s =~= seq![
        '#',
        upper_digit(c.r as int / 16),
        upper_digit(c.r as int % 16),
        upper_digit(c.g as int / 16),
        upper_digit(c.g as int % 16),
        upper_digit(c.b as int / 16),
        upper_digit(c.b as int % 16),
    ]);
    assert forall|i: int| 1 <= i < 7 implies is_hex_digit(#[trigger] s[i]) by {}
}

/// The upper-case form of a character; only `a` to `f` change here.
pub open spec fn upper_hex_char(c: char) -> char {
    if 'a' <= c && c <= 'f' {
        ((c as int - 32) as u32) as char
    } else {
        c
    }
}

/// A digit written back in upper case is the digit in upper case.
proof fn lemma_digit_rewritten(c: char)
    requires
        is_hex_digit(c),
    ensures
        0 <= digit_value(c) < 16,
        upper_digit(digit_value(c)) == upper_hex_char(c),
{
}

/// Reading a code and writing the color back gives the code in upper case.
pub proof fn lemma_hex_code_normalizes(s: Seq<char>)
    requires
        is_hex_code(s),
    ensures
        encode(decode(s)) == s.map_values(|c: char| upper_hex_char(c)),
{
    let c = decode(s);
    assert forall|i: int| 1 <= i < 7 implies 0 <= digit_value(#[trigger] s[i]) < 16
        && upper_digit(digit_value(s[i])) == upper_hex_char(s[i]) by {
        lemma_digit_rewritten(s[i]);
    }
    assert(c.r as int / 16 == digit_value(s[1]) && c.r as int % 16 == digit_value(s[2]));
    assert(c.g as int / 16 == digit_value(s[3]) && c.g as int % 16 == digit_value(s[4]));
    assert(c.b as int / 16 == digit_value(s[5]) && c.b as int % 16 == digit_value(s[6]));
    assert(encode(c) =~= s.map_values(|c: char| upper_hex_char(c)));
}

} // verus!
