//! The JSON grammar that the service accepts, stated as specification
//! functions over character sequences, and an executable recursive-descent
//! parser proved equal to it.
//!
//! A payload is one JSON object holding exactly the fields its endpoint
//! requires, in any order, each exactly once, with arbitrary whitespace
//! between tokens. A member whose key is not one of the endpoint's fields is
//! refused, where serde's derives would have skipped it: this decoder takes
//! the shape literally, and the deviation is deliberate and pinned by tests.
//! String values may use the short escapes (`\" \\ \/ \b \f \n \r \t`) and
//! `\uXXXX` escapes, surrogate pairs included, so any text — control
//! characters among them — can be expressed; as JSON demands, a raw control
//! character must be escaped. Numeric values follow the JSON number grammar
//! and are kept as their literal text, so that no floating-point value ever
//! has to be computed here.

use crate::ext::{char_from_scalar, push_char};
use vstd::prelude::*;

verus! {

/// A decoded reading payload: the sensor name and the temperature and
/// humidity values as the literal text of their JSON numbers.
#[derive(Debug)]
pub struct Reading {
    pub sensor: String,
    pub temp: String,
    pub humidity: String,
}

/// A decoded log payload.
#[derive(Debug)]
pub struct LogEntry {
    pub sensor: String,
    pub message: String,
}

/// Insignificant whitespace between JSON tokens.
pub open spec fn is_ws_char(c: char) -> bool {
    c == ' ' || c == '\t' || c == '\n' || c == '\r'
}

/// Index of the first character at or after `i` that is not whitespace.
pub open spec fn skip_ws(s: Seq<char>, i: int) -> int
    decreases s.len() - i,
{
    if 0 <= i < s.len() && is_ws_char(s[i]) {
        skip_ws(s, i + 1)
    } else {
        i
    }
}

pub proof fn lemma_skip_ws_bounds(s: Seq<char>, i: int)
    requires
        0 <= i <= s.len(),
    ensures
        i <= skip_ws(s, i) <= s.len(),
    decreases s.len() - i,
{
    if i < s.len() && is_ws_char(s[i]) {
        lemma_skip_ws_bounds(s, i + 1);
    }
}

/// What a short escape sequence `\c` denotes, if `c` is one of the eight
/// escape letters.
pub open spec fn unescape(c: char) -> Option<char> {
    if c == '"' {
        Some('"')
    } else if c == '\\' {
        Some('\\')
    } else if c == '/' {
        Some('/')
    } else if c == 'b' {
        Some('\u{0008}')
    } else if c == 'f' {
        Some('\u{000C}')
    } else if c == 'n' {
        Some('\n')
    } else if c == 'r' {
        Some('\r')
    } else if c == 't' {
        Some('\t')
    } else {
        None
    }
}

/// A hexadecimal digit of a `\u` escape.
pub open spec fn is_hex_digit(c: char) -> bool {
    ('0' <= c && c <= '9') || ('a' <= c && c <= 'f') || ('A' <= c && c <= 'F')
}

/// The value of one hexadecimal digit.
pub open spec fn hex_val(c: char) -> int {
    if '0' <= c && c <= '9' {
        c as u32 - '0' as u32
    } else if 'a' <= c && c <= 'f' {
        10 + c as u32 - 'a' as u32
    } else {
        10 + c as u32 - 'A' as u32
    }
}

/// Four hexadecimal digits stand at `i`.
pub open spec fn is_hex4(s: Seq<char>, i: int) -> bool {
    i + 4 <= s.len() && is_hex_digit(s[i]) && is_hex_digit(s[i + 1]) && is_hex_digit(s[i + 2])
        && is_hex_digit(s[i + 3])
}

/// The value the four digits at `i` denote.
pub open spec fn hex4_val(s: Seq<char>, i: int) -> int {
    hex_val(s[i]) * 0x1000 + hex_val(s[i + 1]) * 0x100 + hex_val(s[i + 2]) * 0x10 + hex_val(
        s[i + 3],
    )
}

/// The first half of a surrogate pair.
pub open spec fn is_high_surrogate(v: int) -> bool {
    0xD800 <= v <= 0xDBFF
}

/// The second half of a surrogate pair.
pub open spec fn is_low_surrogate(v: int) -> bool {
    0xDC00 <= v <= 0xDFFF
}

/// The scalar value a surrogate pair denotes.
pub open spec fn combine_surrogates(hi: int, lo: int) -> int {
    0x10000 + (hi - 0xD800) * 0x400 + (lo - 0xDC00)
}

/// A character that may stand unescaped inside a JSON string.
pub open spec fn is_plain_string_char(c: char) -> bool {
    c != '"' && c != '\\' && (c as u32) >= 0x20
}

/// Parses the remainder of a JSON string: `i` points just past the opening
/// quote. On success: the decoded content from `i` on, and the index just
/// past the closing quote.
pub open spec fn parse_string_rest(s: Seq<char>, i: int) -> Option<(Seq<char>, int)>
    decreases s.len() - i,
{
    if i < 0 || i >= s.len() {
        None
    } else if s[i] == '"' {
        Some((Seq::empty(), i + 1))
    } else if s[i] == '\\' {
        if i + 1 >= s.len() {
            None
        } else if s[i + 1] == 'u' {
            if is_hex4(s, i + 2) {
                let v = hex4_val(s, i + 2);
                if !is_high_surrogate(v) && !is_low_surrogate(v) {
                    match parse_string_rest(s, i + 6) {
                        Some(t) => Some((seq![((v as u32) as char)] + t.0, t.1)),
                        None => None,
                    }
                } else if is_high_surrogate(v) && i + 8 <= s.len() && s[i + 6] == '\\' && s[i + 7]
                    == 'u' && is_hex4(s, i + 8) && is_low_surrogate(hex4_val(s, i + 8)) {
                    match parse_string_rest(s, i + 12) {
                        Some(t) => Some(
                            (seq![((combine_surrogates(v, hex4_val(s, i + 8)) as u32) as char)]
                                + t.0, t.1),
                        ),
                        None => None,
                    }
                } else {
                    None
                }
            } else {
                None
            }
        } else {
            match unescape(s[i + 1]) {
                Some(c) => match parse_string_rest(s, i + 2) {
                    Some(t) => Some((seq![c] + t.0, t.1)),
                    None => None,
                },
                None => None,
            }
        }
    } else if is_plain_string_char(s[i]) {
        match parse_string_rest(s, i + 1) {
            Some(t) => Some((seq![s[i]] + t.0, t.1)),
            None => None,
        }
    } else {
        None
    }
}

pub proof fn lemma_parse_string_rest_bounds(s: Seq<char>, i: int)
    requires
        parse_string_rest(s, i) is Some,
    ensures
        i < (parse_string_rest(s, i)->0).1 <= s.len(),
    decreases s.len() - i,
{
    if i < 0 || i >= s.len() {
    } else if s[i] == '"' {
    } else if s[i] == '\\' {
        if i + 1 < s.len() && s[i + 1] == 'u' {
            if is_hex4(s, i + 2) {
                let v = hex4_val(s, i + 2);
                if !is_high_surrogate(v) && !is_low_surrogate(v) {
                    lemma_parse_string_rest_bounds(s, i + 6);
                } else if is_high_surrogate(v) && i + 8 <= s.len() && s[i + 6] == '\\' && s[i + 7]
                    == 'u' && is_hex4(s, i + 8) && is_low_surrogate(hex4_val(s, i + 8)) {
                    lemma_parse_string_rest_bounds(s, i + 12);
                }
            }
        } else {
            lemma_parse_string_rest_bounds(s, i + 2);
        }
    } else {
        lemma_parse_string_rest_bounds(s, i + 1);
    }
}

/// A decimal digit.
pub open spec fn is_digit(c: char) -> bool {
    '0' <= c && c <= '9'
}

/// Index of the first character at or after `i` that is not a digit.
pub open spec fn digits_end(s: Seq<char>, i: int) -> int
    decreases s.len() - i,
{
    if 0 <= i < s.len() && is_digit(s[i]) {
        digits_end(s, i + 1)
    } else {
        i
    }
}

pub proof fn lemma_digits_end_bounds(s: Seq<char>, i: int)
    requires
        0 <= i <= s.len(),
    ensures
        i <= digits_end(s, i) <= s.len(),
    decreases s.len() - i,
{
    if i < s.len() && is_digit(s[i]) {
        lemma_digits_end_bounds(s, i + 1);
    }
}

/// End of the optional fraction part beginning at `i`: either no `.` stands
/// there, or `.` must be followed by at least one digit.
pub open spec fn frac_end(s: Seq<char>, i: int) -> Option<int> {
    if i < s.len() && s[i] == '.' {
        if i + 1 < s.len() && is_digit(s[i + 1]) {
            Some(digits_end(s, i + 1))
        } else {
            None
        }
    } else {
        Some(i)
    }
}

/// End of the optional exponent part beginning at `i`.
pub open spec fn exp_end(s: Seq<char>, i: int) -> Option<int> {
    if i < s.len() && (s[i] == 'e' || s[i] == 'E') {
        let j = if i + 1 < s.len() && (s[i + 1] == '+' || s[i + 1] == '-') {
            i + 2
        } else {
            i + 1
        };
        if j < s.len() && is_digit(s[j]) {
            Some(digits_end(s, j))
        } else {
            None
        }
    } else {
        Some(i)
    }
}

/// End of a JSON number starting exactly at `i`, if one starts there:
/// `-? (0 | [1-9][0-9]*) (. [0-9]+)? ([eE][+-]?[0-9]+)?`.
pub open spec fn number_end(s: Seq<char>, i: int) -> Option<int> {
    if 0 <= i {
        let a = if i < s.len() && s[i] == '-' {
            i + 1
        } else {
            i
        };
        if a < s.len() && is_digit(s[a]) {
            let b = if s[a] == '0' {
                a + 1
            } else {
                digits_end(s, a)
            };
            match frac_end(s, b) {
                Some(c) => exp_end(s, c),
                None => None,
            }
        } else {
            None
        }
    } else {
        None
    }
}

pub proof fn lemma_number_end_bounds(s: Seq<char>, i: int)
    requires
        number_end(s, i) is Some,
    ensures
        i < number_end(s, i)->0 <= s.len(),
{
    let a = if i < s.len() && s[i] == '-' {
        i + 1
    } else {
        i
    };
    let b = if s[a] == '0' {
        a + 1
    } else {
        digits_end(s, a)
    };
    lemma_digits_end_bounds(s, a);
    if a < s.len() && is_digit(s[a]) && s[a] != '0' {
        lemma_digits_end_bounds(s, a + 1);
    }
    if b < s.len() && s[b] == '.' {
        if b + 1 < s.len() && is_digit(s[b + 1]) {
            lemma_digits_end_bounds(s, b + 1);
        }
    }
    let c = frac_end(s, b)->0;
    if c < s.len() && (s[c] == 'e' || s[c] == 'E') {
        let j = if c + 1 < s.len() && (s[c + 1] == '+' || s[c + 1] == '-') {
            c + 2
        } else {
            c + 1
        };
        if j < s.len() && is_digit(s[j]) {
            lemma_digits_end_bounds(s, j);
        }
    }
}

/// The whole of `t` is one JSON number literal.
pub open spec fn is_number_text(t: Seq<char>) -> bool {
    number_end(t, 0) == Some(t.len() as int)
}

/// `digits_end` characterized by the characters it passes over: everything
/// from `i` to the result is a digit, and the result stands at the end or on
/// a non-digit.
pub proof fn lemma_digits_end_chars(s: Seq<char>, i: int)
    requires
        0 <= i <= s.len(),
    ensures
        forall|k: int| i <= k < digits_end(s, i) ==> is_digit(s[k]),
        digits_end(s, i) == s.len() || !is_digit(s[digits_end(s, i)]),
    decreases s.len() - i,
{
    lemma_digits_end_bounds(s, i);
    if i < s.len() && is_digit(s[i]) {
        lemma_digits_end_chars(s, i + 1);
    }
}

/// The converse: a run of digits ended by the sequence's end or a non-digit
/// is exactly what `digits_end` passes over.
pub proof fn lemma_digits_end_from_chars(s: Seq<char>, i: int, j: int)
    requires
        0 <= i <= j <= s.len(),
        forall|k: int| i <= k < j ==> is_digit(s[k]),
        j == s.len() || !is_digit(s[j]),
    ensures
        digits_end(s, i) == j,
    decreases j - i,
{
    if i < j {
        lemma_digits_end_from_chars(s, i + 1, j);
    }
}

/// A number recognized inside `s` is the same number when its text stands
/// alone: the grammar reads nothing outside the literal itself.
pub proof fn lemma_number_end_subrange(s: Seq<char>, v: int, e: int)
    requires
        0 <= v,
        number_end(s, v) == Some(e),
    ensures
        is_number_text(s.subrange(v, e)),
{
    lemma_number_end_bounds(s, v);
    let t = s.subrange(v, e);
    assert(forall|k: int| 0 <= k < e - v ==> t[k] == s[v + k]);
    let a = if v < s.len() && s[v] == '-' {
        v + 1
    } else {
        v
    };
    let b = if s[a] == '0' {
        a + 1
    } else {
        digits_end(s, a)
    };
    let c = frac_end(s, b)->0;
    lemma_digits_end_bounds(s, a);
    lemma_digits_end_chars(s, a);
    if s[a] != '0' {
        lemma_digits_end_bounds(s, a + 1);
    }
    if b < s.len() && s[b] == '.' {
        lemma_digits_end_bounds(s, b + 1);
        lemma_digits_end_chars(s, b + 1);
    }
    if c < s.len() && (s[c] == 'e' || s[c] == 'E') {
        let j = if c + 1 < s.len() && (s[c + 1] == '+' || s[c + 1] == '-') {
            c + 2
        } else {
            c + 1
        };
        if j < s.len() && is_digit(s[j]) {
            lemma_digits_end_bounds(s, j);
            lemma_digits_end_chars(s, j);
        }
    }
    assert(a <= b <= c <= e <= s.len());
    let ta = a - v;
    let tb = b - v;
    let tc = c - v;
    if s[a] != '0' {
        lemma_digits_end_from_chars(t, ta, tb);
    }
    if b < s.len() && s[b] == '.' {
        lemma_digits_end_from_chars(t, tb + 1, tc);
    }
    if c < s.len() && (s[c] == 'e' || s[c] == 'E') {
        let j = if c + 1 < s.len() && (s[c + 1] == '+' || s[c + 1] == '-') {
            c + 2
        } else {
            c + 1
        };
        lemma_digits_end_from_chars(t, j - v, e - v);
    }
    assert(number_end(t, 0) == Some(t.len() as int));
}

/// The fields a reading object must hold, each exactly once.
#[derive(PartialEq, Eq, Structural, Clone, Copy, Debug)]
pub enum RField {
    Sensor,
    Temp,
    Humidity,
}

/// The fields a log object must hold, each exactly once.
#[derive(PartialEq, Eq, Structural, Clone, Copy, Debug)]
pub enum LField {
    Sensor,
    Message,
}

/// A decoded reading payload, at the specification level: the sensor name and
/// the two numeric values as their literal text.
pub struct ReadingV {
    pub sensor: Seq<char>,
    pub temp: Seq<char>,
    pub humidity: Seq<char>,
}

/// A decoded log payload, at the specification level.
pub struct LogV {
    pub sensor: Seq<char>,
    pub message: Seq<char>,
}

/// Parses one member of a reading object beginning at `i` (leading whitespace
/// allowed): a known key, a colon, and a value of the key's type. On success:
/// which field it was, the value (string content decoded, number as literal
/// text), and the index just past the value.
pub open spec fn parse_reading_member(s: Seq<char>, i: int) -> Option<(RField, Seq<char>, int)> {
    let k = skip_ws(s, i);
    if k < s.len() && s[k] == '"' {
        match parse_string_rest(s, k + 1) {
            Some((key, j)) => {
                let c = skip_ws(s, j);
                if c < s.len() && s[c] == ':' {
                    let v = skip_ws(s, c + 1);
                    if key == "sensor"@ {
                        if v < s.len() && s[v] == '"' {
                            match parse_string_rest(s, v + 1) {
                                Some((content, e)) => Some((RField::Sensor, content, e)),
                                None => None,
                            }
                        } else {
                            None
                        }
                    } else if key == "temp"@ {
                        match number_end(s, v) {
                            Some(e) => Some((RField::Temp, s.subrange(v, e), e)),
                            None => None,
                        }
                    } else if key == "humidity"@ {
                        match number_end(s, v) {
                            Some(e) => Some((RField::Humidity, s.subrange(v, e), e)),
                            None => None,
                        }
                    } else {
                        None
                    }
                } else {
                    None
                }
            },
            None => None,
        }
    } else {
        None
    }
}

/// Parses one member of a log object, as `parse_reading_member` does for a
/// reading object; both of a log object's fields hold strings.
pub open spec fn parse_log_member(s: Seq<char>, i: int) -> Option<(LField, Seq<char>, int)> {
    let k = skip_ws(s, i);
    if k < s.len() && s[k] == '"' {
        match parse_string_rest(s, k + 1) {
            Some((key, j)) => {
                let c = skip_ws(s, j);
                if c < s.len() && s[c] == ':' {
                    let v = skip_ws(s, c + 1);
                    if key == "sensor"@ || key == "message"@ {
                        if v < s.len() && s[v] == '"' {
                            match parse_string_rest(s, v + 1) {
                                Some((content, e)) => {
                                    let f = if key == "sensor"@ {
                                        LField::Sensor
                                    } else {
                                        LField::Message
                                    };
                                    Some((f, content, e))
                                },
                                None => None,
                            }
                        } else {
                            None
                        }
                    } else {
                        None
                    }
                } else {
                    None
                }
            },
            None => None,
        }
    } else {
        None
    }
}

/// The value bound to field `f` among three parsed members.
pub open spec fn pick3(f: RField, f1: RField, v1: Seq<char>, f2: RField, v2: Seq<char>, f3: RField, v3: Seq<char>) -> Seq<char> {
    if f1 == f {
        v1
    } else if f2 == f {
        v2
    } else {
        v3
    }
}

/// Parses a whole request body as a reading object: `{` then exactly the
/// three required members separated by commas, in any order, then `}`, with
/// nothing but whitespace around them.
pub open spec fn spec_parse_reading(s: Seq<char>) -> Option<ReadingV> {
    let i = skip_ws(s, 0);
    if i < s.len() && s[i] == '{' {
        match parse_reading_member(s, i + 1) {
            Some((f1, v1, j1)) => {
                let a = skip_ws(s, j1);
                if a < s.len() && s[a] == ',' {
                    match parse_reading_member(s, a + 1) {
                        Some((f2, v2, j2)) => {
                            let b = skip_ws(s, j2);
                            if b < s.len() && s[b] == ',' {
                                match parse_reading_member(s, b + 1) {
                                    Some((f3, v3, j3)) => {
                                        let c = skip_ws(s, j3);
                                        if c < s.len() && s[c] == '}' && skip_ws(s, c + 1)
                                            == s.len() && f1 != f2 && f1 != f3 && f2 != f3 {
                                            Some(ReadingV {
                                                sensor: pick3(RField::Sensor, f1, v1, f2, v2, f3, v3),
                                                temp: pick3(RField::Temp, f1, v1, f2, v2, f3, v3),
                                                humidity: pick3(RField::Humidity, f1, v1, f2, v2, f3, v3),
                                            })
                                        } else {
                                            None
                                        }
                                    },
                                    None => None,
                                }
                            } else {
                                None
                            }
                        },
                        None => None,
                    }
                } else {
                    None
                }
            },
            None => None,
        }
    } else {
        None
    }
}

/// Parses a whole request body as a log object: `{` then exactly the two
/// required members separated by a comma, in either order, then `}`.
pub open spec fn spec_parse_log(s: Seq<char>) -> Option<LogV> {
    let i = skip_ws(s, 0);
    if i < s.len() && s[i] == '{' {
        match parse_log_member(s, i + 1) {
            Some((f1, v1, j1)) => {
                let a = skip_ws(s, j1);
                if a < s.len() && s[a] == ',' {
                    match parse_log_member(s, a + 1) {
                        Some((f2, v2, j2)) => {
                            let b = skip_ws(s, j2);
                            if b < s.len() && s[b] == '}' && skip_ws(s, b + 1) == s.len()
                                && f1 != f2 {
                                Some(LogV {
                                    sensor: if f1 == LField::Sensor {
                                        v1
                                    } else {
                                        v2
                                    },
                                    message: if f1 == LField::Message {
                                        v1
                                    } else {
                                        v2
                                    },
                                })
                            } else {
                                None
                            }
                        },
                        None => None,
                    }
                } else {
                    None
                }
            },
            None => None,
        }
    } else {
        None
    }
}

/// What any successfully parsed reading member guarantees: the value ends
/// within the input, past where it began, and every value of a numeric field
/// is one whole number literal.
pub proof fn lemma_reading_member_props(s: Seq<char>, i: int)
    requires
        0 <= i,
        parse_reading_member(s, i) is Some,
    ensures
        i < (parse_reading_member(s, i)->0).2 <= s.len(),
        (parse_reading_member(s, i)->0).0 != RField::Sensor ==> is_number_text(
            (parse_reading_member(s, i)->0).1,
        ),
{
    let k = skip_ws(s, i);
    lemma_skip_ws_bounds(s, i);
    lemma_parse_string_rest_bounds(s, k + 1);
    let j = (parse_string_rest(s, k + 1)->0).1;
    let c = skip_ws(s, j);
    lemma_skip_ws_bounds(s, j);
    let v = skip_ws(s, c + 1);
    lemma_skip_ws_bounds(s, c + 1);
    let key = (parse_string_rest(s, k + 1)->0).0;
    if key == "sensor"@ {
        lemma_parse_string_rest_bounds(s, v + 1);
    } else {
        let e = number_end(s, v)->0;
        lemma_number_end_bounds(s, v);
        lemma_number_end_subrange(s, v, e);
    }
}

/// The numeric fields of every parsed reading payload are whole number
/// literals: what is later bound into the temperature and humidity columns
/// is always the text of one JSON number.
pub proof fn lemma_parsed_reading_numbers(s: Seq<char>)
    requires
        spec_parse_reading(s) is Some,
    ensures
        is_number_text((spec_parse_reading(s)->0).temp),
        is_number_text((spec_parse_reading(s)->0).humidity),
{
    let i = skip_ws(s, 0);
    lemma_skip_ws_bounds(s, 0);
    lemma_reading_member_props(s, i + 1);
    let j1 = (parse_reading_member(s, i + 1)->0).2;
    let a = skip_ws(s, j1);
    lemma_skip_ws_bounds(s, j1);
    lemma_reading_member_props(s, a + 1);
    let j2 = (parse_reading_member(s, a + 1)->0).2;
    let b = skip_ws(s, j2);
    lemma_skip_ws_bounds(s, j2);
    lemma_reading_member_props(s, b + 1);
}

/// Character-for-character string equality, without assuming anything of the
/// derived `PartialEq` on `str`.
pub fn str_eq(a: &str, b: &str) -> (r: bool)
    ensures
        r == (a@ == b@),
{
    let la = a.unicode_len();
    let lb = b.unicode_len();
    if la != lb {
        return false;
    }
    let mut i: usize = 0;
    while i < la
        invariant
            i <= la,
            la == a@.len(),
            la == b@.len(),
            forall|j: int| 0 <= j < i ==> a@[j] == b@[j],
        decreases la - i,
    {
        if a.get_char(i) != b.get_char(i) {
            return false;
        }
        i = i + 1;
    }
    proof {
        assert(a@ =~= b@);
    }
    true
}

fn is_ws_exec(c: char) -> (r: bool)
    ensures
        r == is_ws_char(c),
{
    c == ' ' || c == '\t' || c == '\n' || c == '\r'
}

fn ws_end(s: &str, i: usize) -> (r: usize)
    ensures
        r == skip_ws(s@, i as int),
    decreases s@.len() - i,
{
    let len = s.unicode_len();
    if i < len && is_ws_exec(s.get_char(i)) {
        ws_end(s, i + 1)
    } else {
        i
    }
}

fn unescape_exec(c: char) -> (r: Option<char>)
    ensures
        r == unescape(c),
{
    if c == '"' {
        Some('"')
    } else if c == '\\' {
        Some('\\')
    } else if c == '/' {
        Some('/')
    } else if c == 'b' {
        Some('\u{0008}')
    } else if c == 'f' {
        Some('\u{000C}')
    } else if c == 'n' {
        Some('\n')
    } else if c == 'r' {
        Some('\r')
    } else if c == 't' {
        Some('\t')
    } else {
        None
    }
}

fn hex_val_exec(c: char) -> (r: Option<u32>)
    ensures
        match r {
            Some(v) => is_hex_digit(c) && v == hex_val(c) && v < 16,
            None => !is_hex_digit(c),
        },
{
    if '0' <= c && c <= '9' {
        Some(c as u32 - '0' as u32)
    } else if 'a' <= c && c <= 'f' {
        Some(10 + (c as u32 - 'a' as u32))
    } else if 'A' <= c && c <= 'F' {
        Some(10 + (c as u32 - 'A' as u32))
    } else {
        None
    }
}

fn hex4_exec(s: &str, i: usize) -> (r: Option<u32>)
    ensures
        match r {
            Some(v) => is_hex4(s@, i as int) && v == hex4_val(s@, i as int) && v <= 0xFFFF,
            None => !is_hex4(s@, i as int),
        },
{
    let len = s.unicode_len();
    if len >= 4 && i <= len - 4 {
        match (hex_val_exec(s.get_char(i)), hex_val_exec(s.get_char(i + 1))) {
            (Some(a), Some(b)) => {
                match (hex_val_exec(s.get_char(i + 2)), hex_val_exec(s.get_char(i + 3))) {
                    (Some(c2), Some(d)) => Some(a * 4096 + b * 256 + c2 * 16 + d),
                    _ => None,
                }
            },
            _ => None,
        }
    } else {
        None
    }
}

fn parse_string_rest_exec(s: &str, i: usize) -> (r: Option<(String, usize)>)
    ensures
        match (parse_string_rest(s@, i as int), r) {
            (Some((c0, e0)), Some((c1, e1))) => c1@ == c0 && e1 == e0,
            (None, None) => true,
            _ => false,
        },
    decreases s@.len() - i,
{
    let len = s.unicode_len();
    if i >= len {
        return None;
    }
    let c = s.get_char(i);
    if c == '"' {
        Some((String::new(), i + 1))
    } else if c == '\\' {
        if i + 1 >= len {
            return None;
        }
        let e1 = s.get_char(i + 1);
        if e1 == 'u' {
            match hex4_exec(s, i + 2) {
                Some(v) => {
                    if v < 0xD800 || v > 0xDFFF {
                        let d = char_from_scalar(v);
                        proof {
                            vstd::utf8::char_u32_cast(d, v);
                        }
                        match parse_string_rest_exec(s, i + 6) {
                            Some((t, j)) => {
                                let mut out = String::new();
                                push_char(&mut out, d);
                                out.append(t.as_str());
                                proof {
                                    assert(out@ =~= seq![d] + t@);
                                }
                                Some((out, j))
                            },
                            None => None,
                        }
                    } else if v <= 0xDBFF {
                        // A high surrogate: its partner must follow at once.
                        if len >= 8 && i <= len - 8 && s.get_char(i + 6) == '\\' && s.get_char(
                            i + 7,
                        ) == 'u' {
                            match hex4_exec(s, i + 8) {
                                Some(w) => {
                                    if 0xDC00 <= w && w <= 0xDFFF {
                                        let combined = 0x10000 + (v - 0xD800) * 0x400 + (w
                                            - 0xDC00);
                                        let d = char_from_scalar(combined);
                                        proof {
                                            vstd::utf8::char_u32_cast(d, combined);
                                        }
                                        match parse_string_rest_exec(s, i + 12) {
                                            Some((t, j)) => {
                                                let mut out = String::new();
                                                push_char(&mut out, d);
                                                out.append(t.as_str());
                                                proof {
                                                    assert(out@ =~= seq![d] + t@);
                                                }
                                                Some((out, j))
                                            },
                                            None => None,
                                        }
                                    } else {
                                        None
                                    }
                                },
                                None => None,
                            }
                        } else {
                            None
                        }
                    } else {
                        None
                    }
                },
                None => None,
            }
        } else {
            match unescape_exec(e1) {
                Some(d) => match parse_string_rest_exec(s, i + 2) {
                    Some((t, j)) => {
                        let mut out = String::new();
                        push_char(&mut out, d);
                        out.append(t.as_str());
                        proof {
                            assert(out@ =~= seq![d] + t@);
                        }
                        Some((out, j))
                    },
                    None => None,
                },
                None => None,
            }
        }
    } else if c != '"' && c != '\\' && (c as u32) >= 0x20 {
        match parse_string_rest_exec(s, i + 1) {
            Some((t, j)) => {
                let mut out = String::new();
                push_char(&mut out, c);
                out.append(t.as_str());
                proof {
                    assert(out@ =~= seq![c] + t@);
                }
                Some((out, j))
            },
            None => None,
        }
    } else {
        None
    }
}

fn digits_end_exec(s: &str, i: usize) -> (r: usize)
    ensures
        r == digits_end(s@, i as int),
    decreases s@.len() - i,
{
    let len = s.unicode_len();
    if i < len {
        let c = s.get_char(i);
        if '0' <= c && c <= '9' {
            return digits_end_exec(s, i + 1);
        }
    }
    i
}

fn number_end_exec(s: &str, i: usize) -> (r: Option<usize>)
    ensures
        match (number_end(s@, i as int), r) {
            (Some(e0), Some(e1)) => e1 == e0,
            (None, None) => true,
            _ => false,
        },
{
    let len = s.unicode_len();
    let a = if i < len && s.get_char(i) == '-' {
        i + 1
    } else {
        i
    };
    if a < len {
        let ca = s.get_char(a);
        if '0' <= ca && ca <= '9' {
            let b = if ca == '0' {
                a + 1
            } else {
                digits_end_exec(s, a)
            };
            proof {
                lemma_digits_end_bounds(s@, a as int);
            }
            let f = if b < len && s.get_char(b) == '.' {
                if b + 1 < len {
                    let cb = s.get_char(b + 1);
                    if '0' <= cb && cb <= '9' {
                        proof {
                            lemma_digits_end_bounds(s@, b as int + 1);
                        }
                        Some(digits_end_exec(s, b + 1))
                    } else {
                        None
                    }
                } else {
                    None
                }
            } else {
                Some(b)
            };
            match f {
                Some(cpos) => {
                    if cpos < len && (s.get_char(cpos) == 'e' || s.get_char(cpos) == 'E') {
                        let j = if cpos + 1 < len && (s.get_char(cpos + 1) == '+' || s.get_char(
                            cpos + 1,
                        ) == '-') {
                            cpos + 2
                        } else {
                            cpos + 1
                        };
                        if j < len {
                            let cj = s.get_char(j);
                            if '0' <= cj && cj <= '9' {
                                Some(digits_end_exec(s, j))
                            } else {
                                None
                            }
                        } else {
                            None
                        }
                    } else {
                        Some(cpos)
                    }
                },
                None => None,
            }
        } else {
            None
        }
    } else {
        None
    }
}

fn parse_reading_member_exec(s: &str, i: usize) -> (r: Option<(RField, String, usize)>)
    requires
        i <= s@.len(),
    ensures
        match (parse_reading_member(s@, i as int), r) {
            (Some((f0, v0, e0)), Some((f1, v1, e1))) => f1 == f0 && v1@ == v0 && e1 == e0 && e1
                <= s@.len(),
            (None, None) => true,
            _ => false,
        },
{
    let len = s.unicode_len();
    let k = ws_end(s, i);
    proof {
        lemma_skip_ws_bounds(s@, i as int);
    }
    if k < len && s.get_char(k) == '"' {
        match parse_string_rest_exec(s, k + 1) {
            Some((key, j)) => {
                proof {
                    lemma_parse_string_rest_bounds(s@, k as int + 1);
                }
                let c = ws_end(s, j);
                proof {
                    lemma_skip_ws_bounds(s@, j as int);
                }
                if c < len && s.get_char(c) == ':' {
                    let v = ws_end(s, c + 1);
                    proof {
                        lemma_skip_ws_bounds(s@, c as int + 1);
                    }
                    if str_eq(key.as_str(), "sensor") {
                        if v < len && s.get_char(v) == '"' {
                            match parse_string_rest_exec(s, v + 1) {
                                Some((content, e)) => {
                                    proof {
                                        lemma_parse_string_rest_bounds(s@, v as int + 1);
                                    }
                                    Some((RField::Sensor, content, e))
                                },
                                None => None,
                            }
                        } else {
                            None
                        }
                    } else if str_eq(key.as_str(), "temp") {
                        match number_end_exec(s, v) {
                            Some(e) => {
                                proof {
                                    lemma_number_end_bounds(s@, v as int);
                                }
                                let text = s.substring_char(v, e);
                                Some((RField::Temp, String::from_str(text), e))
                            },
                            None => None,
                        }
                    } else if str_eq(key.as_str(), "humidity") {
                        match number_end_exec(s, v) {
                            Some(e) => {
                                proof {
                                    lemma_number_end_bounds(s@, v as int);
                                }
                                let text = s.substring_char(v, e);
                                Some((RField::Humidity, String::from_str(text), e))
                            },
                            None => None,
                        }
                    } else {
                        None
                    }
                } else {
                    None
                }
            },
            None => None,
        }
    } else {
        None
    }
}

fn parse_log_member_exec(s: &str, i: usize) -> (r: Option<(LField, String, usize)>)
    requires
        i <= s@.len(),
    ensures
        match (parse_log_member(s@, i as int), r) {
            (Some((f0, v0, e0)), Some((f1, v1, e1))) => f1 == f0 && v1@ == v0 && e1 == e0 && e1
                <= s@.len(),
            (None, None) => true,
            _ => false,
        },
{
    let len = s.unicode_len();
    let k = ws_end(s, i);
    proof {
        lemma_skip_ws_bounds(s@, i as int);
    }
    if k < len && s.get_char(k) == '"' {
        match parse_string_rest_exec(s, k + 1) {
            Some((key, j)) => {
                proof {
                    lemma_parse_string_rest_bounds(s@, k as int + 1);
                }
                let c = ws_end(s, j);
                proof {
                    lemma_skip_ws_bounds(s@, j as int);
                }
                if c < len && s.get_char(c) == ':' {
                    let v = ws_end(s, c + 1);
                    proof {
                        lemma_skip_ws_bounds(s@, c as int + 1);
                    }
                    let is_sensor = str_eq(key.as_str(), "sensor");
                    let is_message = str_eq(key.as_str(), "message");
                    if is_sensor || is_message {
                        if v < len && s.get_char(v) == '"' {
                            match parse_string_rest_exec(s, v + 1) {
                                Some((content, e)) => {
                                    proof {
                                        lemma_parse_string_rest_bounds(s@, v as int + 1);
                                    }
                                    let f = if is_sensor {
                                        LField::Sensor
                                    } else {
                                        LField::Message
                                    };
                                    Some((f, content, e))
                                },
                                None => None,
                            }
                        } else {
                            None
                        }
                    } else {
                        None
                    }
                } else {
                    None
                }
            },
            None => None,
        }
    } else {
        None
    }
}

fn pick3_exec(f: RField, f1: RField, v1: &String, f2: RField, v2: &String, f3: RField, v3: &String) -> (r:
    String)
    ensures
        r@ == pick3(f, f1, v1@, f2, v2@, f3, v3@),
{
    if f1 == f {
        v1.clone()
    } else if f2 == f {
        v2.clone()
    } else {
        v3.clone()
    }
}

/// Parses a whole request body as a reading payload; returns a payload
/// exactly when the body belongs to the reading grammar, and that payload's
/// fields are the parsed field values.
pub fn parse_reading(s: &str) -> (r: Option<Reading>)
    ensures
        match (spec_parse_reading(s@), r) {
            (Some(rv), Some(x)) => x.sensor@ == rv.sensor && x.temp@ == rv.temp && x.humidity@
                == rv.humidity,
            (None, None) => true,
            _ => false,
        },
{
    let len = s.unicode_len();
    let i = ws_end(s, 0);
    proof {
        lemma_skip_ws_bounds(s@, 0);
    }
    if i < len && s.get_char(i) == '{' {
        match parse_reading_member_exec(s, i + 1) {
            Some((f1, v1, j1)) => {
                let a = ws_end(s, j1);
                proof {
                    lemma_skip_ws_bounds(s@, j1 as int);
                }
                if a < len && s.get_char(a) == ',' {
                    match parse_reading_member_exec(s, a + 1) {
                        Some((f2, v2, j2)) => {
                            let b = ws_end(s, j2);
                            proof {
                                lemma_skip_ws_bounds(s@, j2 as int);
                            }
                            if b < len && s.get_char(b) == ',' {
                                match parse_reading_member_exec(s, b + 1) {
                                    Some((f3, v3, j3)) => {
                                        let c = ws_end(s, j3);
                                        proof {
                                            lemma_skip_ws_bounds(s@, j3 as int);
                                        }
                                        if c < len && s.get_char(c) == '}' && ws_end(s, c + 1)
                                            == len && f1 != f2 && f1 != f3 && f2 != f3 {
                                            Some(
                                                Reading {
                                                    sensor: pick3_exec(
                                                        RField::Sensor,
                                                        f1,
                                                        &v1,
                                                        f2,
                                                        &v2,
                                                        f3,
                                                        &v3,
                                                    ),
                                                    temp: pick3_exec(
                                                        RField::Temp,
                                                        f1,
                                                        &v1,
                                                        f2,
                                                        &v2,
                                                        f3,
                                                        &v3,
                                                    ),
                                                    humidity: pick3_exec(
                                                        RField::Humidity,
                                                        f1,
                                                        &v1,
                                                        f2,
                                                        &v2,
                                                        f3,
                                                        &v3,
                                                    ),
                                                },
                                            )
                                        } else {
                                            None
                                        }
                                    },
                                    None => None,
                                }
                            } else {
                                None
                            }
                        },
                        None => None,
                    }
                } else {
                    None
                }
            },
            None => None,
        }
    } else {
        None
    }
}

/// Parses a whole request body as a log payload; returns a payload exactly
/// when the body belongs to the log grammar.
pub fn parse_log(s: &str) -> (r: Option<LogEntry>)
    ensures
        match (spec_parse_log(s@), r) {
            (Some(lv), Some(x)) => x.sensor@ == lv.sensor && x.message@ == lv.message,
            (None, None) => true,
            _ => false,
        },
{
    let len = s.unicode_len();
    let i = ws_end(s, 0);
    proof {
        lemma_skip_ws_bounds(s@, 0);
    }
    if i < len && s.get_char(i) == '{' {
        match parse_log_member_exec(s, i + 1) {
            Some((f1, v1, j1)) => {
                let a = ws_end(s, j1);
                proof {
                    lemma_skip_ws_bounds(s@, j1 as int);
                }
                if a < len && s.get_char(a) == ',' {
                    match parse_log_member_exec(s, a + 1) {
                        Some((f2, v2, j2)) => {
                            let b = ws_end(s, j2);
                            proof {
                                lemma_skip_ws_bounds(s@, j2 as int);
                            }
                            if b < len && s.get_char(b) == '}' && ws_end(s, b + 1) == len && f1
                                != f2 {
                                let sensor = if f1 == LField::Sensor {
                                    v1.clone()
                                } else {
                                    v2.clone()
                                };
                                let message = if f1 == LField::Message {
                                    v1
                                } else {
                                    v2
                                };
                                Some(LogEntry { sensor, message })
                            } else {
                                None
                            }
                        },
                        None => None,
                    }
                } else {
                    None
                }
            },
            None => None,
        }
    } else {
        None
    }
}

} // verus!
