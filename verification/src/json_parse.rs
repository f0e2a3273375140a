//! Decoding of JSON wire text: primitives and the value recognizer.
//!
//! Every `spec` function defines what a well-formed document means, one
//! production at a time, over a character sequence and a position; each
//! executable parser is proved to return exactly what its `spec` counterpart
//! defines. Parsers consume no surrounding whitespace of their own; callers
//! skip it between tokens.

use vstd::prelude::*;
use crate::text::push_char;

verus! {

// ---------------------------------------------------------------------------
// Whitespace
// ---------------------------------------------------------------------------

pub open spec fn is_ws(c: char) -> bool {
    c == ' ' || c == '\n' || c == '\r' || c == '\t'
}

/// First position at or after `i` holding a non-whitespace character.
pub open spec fn spec_skip_ws(s: Seq<char>, i: int) -> int
    decreases s.len() - i,
{
    if 0 <= i && i < s.len() && is_ws(s[i]) {
        spec_skip_ws(s, i + 1)
    } else {
        i
    }
}

pub fn skip_ws(s: &Vec<char>, i: usize) -> (j: usize)
    requires
        i <= s@.len(),
    ensures
        j == spec_skip_ws(s@, i as int),
        i <= j <= s@.len(),
    decreases s@.len() - i,
{
    if i < s.len() {
        let c = s[i];
        if c == ' ' || c == '\n' || c == '\r' || c == '\t' {
            return skip_ws(s, i + 1);
        }
    }
    i
}

// ---------------------------------------------------------------------------
// Hexadecimal digits and escapes
// ---------------------------------------------------------------------------

/// Value of a hexadecimal digit, either case.
pub open spec fn hex_val(c: char) -> Option<int> {
    let u = c as u32;
    if 48 <= u && u <= 57 {
        Some((u - 48) as int)
    } else if 97 <= u && u <= 102 {
        Some((u - 97 + 10) as int)
    } else if 65 <= u && u <= 70 {
        Some((u - 65 + 10) as int)
    } else {
        None
    }
}

/// Value of the four hexadecimal digits at `i`.
pub open spec fn spec_hex4(s: Seq<char>, i: int) -> Option<int> {
    if 0 <= i && i + 4 <= s.len() {
        match (hex_val(s[i]), hex_val(s[i + 1]), hex_val(s[i + 2]), hex_val(s[i + 3])) {
            (Some(a), Some(b), Some(c), Some(d)) => Some(a * 4096 + b * 256 + c * 16 + d),
            _ => None,
        }
    } else {
        None
    }
}

/// A `\uXXXX` escape starting at the backslash at `i`: a non-surrogate code
/// point stands alone; a high surrogate must be followed by a `\uXXXX` low
/// surrogate and the pair combines into one character.
pub open spec fn spec_parse_unicode_escape(s: Seq<char>, i: int) -> Option<(char, int)> {
    match spec_hex4(s, i + 2) {
        Some(v) => if v < 0xD800 || v > 0xDFFF {
            Some(((v as u32) as char, i + 6))
        } else if v < 0xDC00 {
            if i + 8 <= s.len() && s[i + 6] == '\\' && s[i + 7] == 'u' {
                match spec_hex4(s, i + 8) {
                    Some(w) => if 0xDC00 <= w && w < 0xE000 {
                        Some((((0x10000 + (v - 0xD800) * 0x400 + (w - 0xDC00)) as u32) as char, i + 12))
                    } else {
                        None
                    },
                    None => None,
                }
            } else {
                None
            }
        } else {
            None
        },
        None => None,
    }
}

/// The escape sequence starting at the backslash at `i`.
pub open spec fn spec_parse_escape(s: Seq<char>, i: int) -> Option<(char, int)> {
    if 0 <= i && i + 2 <= s.len() {
        let e = s[i + 1];
        if e == '"' {
            Some(('"', i + 2))
        } else if e == '\\' {
            Some(('\\', i + 2))
        } else if e == '/' {
            Some(('/', i + 2))
        } else if e == 'n' {
            Some(('\n', i + 2))
        } else if e == 'r' {
            Some(('\r', i + 2))
        } else if e == 't' {
            Some(('\t', i + 2))
        } else if e == 'b' {
            Some(('\u{8}', i + 2))
        } else if e == 'f' {
            Some(('\u{c}', i + 2))
        } else if e == 'u' {
            spec_parse_unicode_escape(s, i)
        } else {
            None
        }
    } else {
        None
    }
}

// ---------------------------------------------------------------------------
// String literals
// ---------------------------------------------------------------------------

/// The body of a string literal from `i` up to and past its closing quote.
/// Unescaped control characters are rejected.
pub open spec fn spec_parse_string_body(s: Seq<char>, i: int) -> Option<(Seq<char>, int)>
    decreases s.len() - i,
{
    if i < 0 || i >= s.len() {
        None
    } else if s[i] == '"' {
        Some((Seq::empty(), i + 1))
    } else if s[i] == '\\' {
        match spec_parse_escape(s, i) {
            Some((c, j)) => if i < j && j <= s.len() {
                match spec_parse_string_body(s, j) {
                    Some((rest, k)) => Some((seq![c] + rest, k)),
                    None => None,
                }
            } else {
                None
            },
            None => None,
        }
    } else if (s[i] as u32) < 0x20 {
        None
    } else {
        match spec_parse_string_body(s, i + 1) {
            Some((rest, k)) => Some((seq![s[i]] + rest, k)),
            None => None,
        }
    }
}

/// A quoted string literal at `i`.
pub open spec fn spec_parse_string(s: Seq<char>, i: int) -> Option<(Seq<char>, int)> {
    if 0 <= i && i < s.len() && s[i] == '"' {
        spec_parse_string_body(s, i + 1)
    } else {
        None
    }
}

fn hex_val_exec(c: char) -> (r: Option<u32>)
    ensures
        r matches Some(v) ==> hex_val(c) == Some(v as int) && v < 16,
        r is None ==> hex_val(c) is None,
{
    let u = c as u32;
    if 48 <= u && u <= 57 {
        Some(u - 48)
    } else if 97 <= u && u <= 102 {
        Some(u - 97 + 10)
    } else if 65 <= u && u <= 70 {
        Some(u - 65 + 10)
    } else {
        None
    }
}

fn hex4(s: &Vec<char>, i: usize) -> (r: Option<u32>)
    requires
        i <= s@.len(),
    ensures
        r matches Some(v) ==> spec_hex4(s@, i as int) == Some(v as int) && v < 0x10000,
        r is None ==> spec_hex4(s@, i as int) is None,
{
    if s.len() - i >= 4 {
        match (hex_val_exec(s[i]), hex_val_exec(s[i + 1]), hex_val_exec(s[i + 2]), hex_val_exec(
            s[i + 3],
        )) {
            (Some(a), Some(b), Some(c), Some(d)) => Some(a * 4096 + b * 256 + c * 16 + d),
            _ => None,
        }
    } else {
        None
    }
}

fn parse_unicode_escape(s: &Vec<char>, i: usize) -> (r: Option<(char, usize)>)
    requires
        i <= s@.len(),
    ensures
        r matches Some((c, j)) ==> spec_parse_unicode_escape(s@, i as int) == Some((c, j as int))
            && j <= s@.len(),
        r is None ==> spec_parse_unicode_escape(s@, i as int) is None,
{
    if s.len() - i < 6 {
        proof {
            assert(spec_hex4(s@, i as int + 2) is None);
        }
        return None;
    }
    match hex4(s, i + 2) {
        Some(v) => {
            if v < 0xD800 || v > 0xDFFF {
                match crate::text::char_from_u32(v) {
                    Some(c) => Some((c, i + 6)),
                    None => None,
                }
            } else if v < 0xDC00 {
                if s.len() - i >= 8 && s[i + 6] == '\\' && s[i + 7] == 'u' {
                    match hex4(s, i + 8) {
                        Some(w) => {
                            if 0xDC00 <= w && w < 0xE000 {
                                let code = 0x10000 + (v - 0xD800) * 0x400 + (w - 0xDC00);
                                match crate::text::char_from_u32(code) {
                                    Some(c) => Some((c, i + 12)),
                                    None => None,
                                }
                            } else {
                                None
                            }
                        },
                        None => None,
                    }
                } else {
                    None
                }
            } else {
                None
            }
        },
        None => None,
    }
}

fn parse_escape(s: &Vec<char>, i: usize) -> (r: Option<(char, usize)>)
    requires
        i <= s@.len(),
    ensures
        r matches Some((c, j)) ==> spec_parse_escape(s@, i as int) == Some((c, j as int)) && i < j
            <= s@.len(),
        r is None ==> spec_parse_escape(s@, i as int) is None,
{
    if s.len() - i < 2 {
        return None;
    }
    let e = s[i + 1];
    if e == '"' {
        Some(('"', i + 2))
    } else if e == '\\' {
        Some(('\\', i + 2))
    } else if e == '/' {
        Some(('/', i + 2))
    } else if e == 'n' {
        Some(('\n', i + 2))
    } else if e == 'r' {
        Some(('\r', i + 2))
    } else if e == 't' {
        Some(('\t', i + 2))
    } else if e == 'b' {
        Some(('\u{8}', i + 2))
    } else if e == 'f' {
        Some(('\u{c}', i + 2))
    } else if e == 'u' {
        parse_unicode_escape(s, i)
    } else {
        None
    }
}

fn parse_string_body(s: &Vec<char>, i: usize) -> (r: Option<(String, usize)>)
    requires
        i <= s@.len(),
    ensures
        r matches Some((b, j)) ==> spec_parse_string_body(s@, i as int) == Some((b@, j as int))
            && i < j <= s@.len(),
        r is None ==> spec_parse_string_body(s@, i as int) is None,
    decreases s@.len() - i,
{
    if i >= s.len() {
        return None;
    }
    let c = s[i];
    if c == '"' {
        let out = String::new();
        proof {
            assert(out@ =~= Seq::<char>::empty());
        }
        Some((out, i + 1))
    } else if c == '\\' {
        match parse_escape(s, i) {
            Some((e, j)) => {
                match parse_string_body(s, j) {
                    Some((rest, k)) => {
                        let mut out = String::new();
                        push_char(&mut out, e);
                        out.append(rest.as_str());
                        proof {
                            assert(out@ =~= seq![e] + rest@);
                        }
                        Some((out, k))
                    },
                    None => None,
                }
            },
            None => None,
        }
    } else if (c as u32) < 0x20 {
        None
    } else {
        match parse_string_body(s, i + 1) {
            Some((rest, k)) => {
                let mut out = String::new();
                push_char(&mut out, c);
                out.append(rest.as_str());
                proof {
                    assert(out@ =~= seq![c] + rest@);
                }
                Some((out, k))
            },
            None => None,
        }
    }
}

/// A quoted string literal at `i`.
pub fn parse_string(s: &Vec<char>, i: usize) -> (r: Option<(String, usize)>)
    requires
        i <= s@.len(),
    ensures
        r matches Some((b, j)) ==> spec_parse_string(s@, i as int) == Some((b@, j as int)) && i < j
            <= s@.len(),
        r is None ==> spec_parse_string(s@, i as int) is None,
{
    if i < s.len() && s[i] == '"' {
        parse_string_body(s, i + 1)
    } else {
        None
    }
}

// ---------------------------------------------------------------------------
// Numbers
// ---------------------------------------------------------------------------

pub open spec fn is_digit(c: char) -> bool {
    48 <= c as u32 && c as u32 <= 57
}

pub open spec fn digit_val(c: char) -> int {
    c as u32 - 48
}

/// Accumulates decimal digits from `i` onto `acc`; overflow past `u64::MAX`
/// rejects the number.
pub open spec fn spec_parse_digits(s: Seq<char>, i: int, acc: u64) -> Option<(u64, int)>
    decreases s.len() - i,
{
    if 0 <= i && i < s.len() && is_digit(s[i]) {
        let v = acc * 10 + digit_val(s[i]);
        if v > u64::MAX {
            None
        } else {
            spec_parse_digits(s, i + 1, v as u64)
        }
    } else {
        Some((acc, i))
    }
}

/// An unsigned integer at `i`: a lone `0`, or a nonzero digit followed by
/// more digits.
pub open spec fn spec_parse_u64(s: Seq<char>, i: int) -> Option<(u64, int)> {
    if 0 <= i && i < s.len() && is_digit(s[i]) {
        if s[i] == '0' {
            Some((0, i + 1))
        } else {
            spec_parse_digits(s, i, 0)
        }
    } else {
        None
    }
}

pub proof fn lemma_parse_digits_bounds(s: Seq<char>, i: int, acc: u64)
    requires
        0 <= i <= s.len(),
    ensures
        spec_parse_digits(s, i, acc) matches Some((v, j)) ==> i <= j <= s.len(),
    decreases s.len() - i,
{
    if i < s.len() && is_digit(s[i]) {
        let v = acc * 10 + digit_val(s[i]);
        if v <= u64::MAX {
            lemma_parse_digits_bounds(s, i + 1, v as u64);
        }
    }
}

fn parse_digits(s: &Vec<char>, i: usize, acc: u64) -> (r: Option<(u64, usize)>)
    requires
        i <= s@.len(),
    ensures
        r matches Some((v, j)) ==> spec_parse_digits(s@, i as int, acc) == Some((v, j as int))
            && i <= j <= s@.len(),
        r is None ==> spec_parse_digits(s@, i as int, acc) is None,
    decreases s@.len() - i,
{
    if i < s.len() {
        let c = s[i];
        let u = c as u32;
        if 48 <= u && u <= 57 {
            let d = (u - 48) as u64;
            let wide: u128 = (acc as u128) * 10 + (d as u128);
            if wide > u64::MAX as u128 {
                return None;
            }
            return parse_digits(s, i + 1, wide as u64);
        }
    }
    Some((acc, i))
}

/// An unsigned integer at `i`.
pub fn parse_u64(s: &Vec<char>, i: usize) -> (r: Option<(u64, usize)>)
    requires
        i <= s@.len(),
    ensures
        r matches Some((v, j)) ==> spec_parse_u64(s@, i as int) == Some((v, j as int)) && i < j
            <= s@.len(),
        r is None ==> spec_parse_u64(s@, i as int) is None,
{
    if i < s.len() {
        let c = s[i];
        let u = c as u32;
        if 48 <= u && u <= 57 {
            if c == '0' {
                return Some((0, i + 1));
            }
            let r = parse_digits(s, i, 0);
            proof {
                let d = digit_val(s@[i as int]);
                assert(spec_parse_digits(s@, i as int, 0) == spec_parse_digits(
                    s@,
                    i as int + 1,
                    d as u64,
                ));
                lemma_parse_digits_bounds(s@, i as int + 1, d as u64);
            }
            return r;
        }
    }
    None
}

// ---------------------------------------------------------------------------
// Skipping arbitrary values
// ---------------------------------------------------------------------------

/// First position at or after `i` holding a non-digit character.
pub open spec fn spec_skip_digits(s: Seq<char>, i: int) -> int
    decreases s.len() - i,
{
    if 0 <= i && i < s.len() && is_digit(s[i]) {
        spec_skip_digits(s, i + 1)
    } else {
        i
    }
}

pub proof fn lemma_skip_digits_bounds(s: Seq<char>, i: int)
    requires
        0 <= i <= s.len(),
    ensures
        i <= spec_skip_digits(s, i) <= s.len(),
    decreases s.len() - i,
{
    if i < s.len() && is_digit(s[i]) {
        lemma_skip_digits_bounds(s, i + 1);
    }
}

/// The position after the JSON number starting at `i`: optional minus,
/// integer digits, optional fraction, optional exponent.
pub open spec fn spec_skip_number(s: Seq<char>, i: int) -> Option<int> {
    if i < 0 {
        None
    } else {
        let a = if i < s.len() && s[i] == '-' {
            i + 1
        } else {
            i
        };
        if a < s.len() && is_digit(s[a]) {
            let b = if s[a] == '0' {
                a + 1
            } else {
                spec_skip_digits(s, a)
            };
            let c2 = if b < s.len() && s[b] == '.' {
                if b + 1 < s.len() && is_digit(s[b + 1]) {
                    Some(spec_skip_digits(s, b + 1))
                } else {
                    None::<int>
                }
            } else {
                Some(b)
            };
            match c2 {
                Some(b2) => if b2 < s.len() && (s[b2] == 'e' || s[b2] == 'E') {
                    let e0 = if b2 + 1 < s.len() && (s[b2 + 1] == '+' || s[b2 + 1] == '-') {
                        b2 + 2
                    } else {
                        b2 + 1
                    };
                    if e0 < s.len() && is_digit(s[e0]) {
                        Some(spec_skip_digits(s, e0))
                    } else {
                        None
                    }
                } else {
                    Some(b2)
                },
                None => None,
            }
        } else {
            None
        }
    }
}

/// Matches `lit` at position `i`.
pub open spec fn spec_match_lit(s: Seq<char>, i: int, lit: Seq<char>) -> bool {
    0 <= i && i + lit.len() <= s.len() && s.subrange(i, i + lit.len()) == lit
}

/// The position after the complete JSON value starting at `i`. Recognizes
/// every value shape without retaining it.
pub open spec fn spec_skip_value(s: Seq<char>, i: int) -> Option<int>
    decreases s.len() - i, 0int,
{
    if i < 0 || i >= s.len() {
        None
    } else if s[i] == '"' {
        match spec_parse_string(s, i) {
            Some((b, j)) => Some(j),
            None => None,
        }
    } else if s[i] == '{' {
        let j = spec_skip_ws(s, i + 1);
        if i < j && j < s.len() {
            if s[j] == '}' {
                Some(j + 1)
            } else {
                spec_skip_object_items(s, j)
            }
        } else {
            None
        }
    } else if s[i] == '[' {
        let j = spec_skip_ws(s, i + 1);
        if i < j && j < s.len() {
            if s[j] == ']' {
                Some(j + 1)
            } else {
                spec_skip_array_items(s, j)
            }
        } else {
            None
        }
    } else if spec_match_lit(s, i, "true"@) {
        Some(i + 4)
    } else if spec_match_lit(s, i, "false"@) {
        Some(i + 5)
    } else if spec_match_lit(s, i, "null"@) {
        Some(i + 4)
    } else if s[i] == '-' || is_digit(s[i]) {
        spec_skip_number(s, i)
    } else {
        None
    }
}

/// The position after the remaining array items and the closing bracket;
/// `i` stands at the start of an item.
pub open spec fn spec_skip_array_items(s: Seq<char>, i: int) -> Option<int>
    decreases s.len() - i, 1int,
{
    if i < 0 || i > s.len() {
        None
    } else {
        match spec_skip_value(s, i) {
            Some(p) => {
                let q = spec_skip_ws(s, p);
                if i <= q && q < s.len() {
                    if s[q] == ']' {
                        Some(q + 1)
                    } else if s[q] == ',' {
                        let r2 = spec_skip_ws(s, q + 1);
                        if i < r2 && r2 <= s.len() {
                            spec_skip_array_items(s, r2)
                        } else {
                            None
                        }
                    } else {
                        None
                    }
                } else {
                    None
                }
            },
            None => None,
        }
    }
}

/// The position after the remaining object members and the closing brace;
/// `i` stands at the start of a key.
pub open spec fn spec_skip_object_items(s: Seq<char>, i: int) -> Option<int>
    decreases s.len() - i, 1int,
{
    if i < 0 || i > s.len() {
        None
    } else {
        match spec_parse_string(s, i) {
            Some((key, p)) => {
                let q = spec_skip_ws(s, p);
                if q < s.len() && s[q] == ':' {
                    let r2 = spec_skip_ws(s, q + 1);
                    if i < r2 && r2 <= s.len() {
                        match spec_skip_value(s, r2) {
                            Some(p2) => {
                                let q2 = spec_skip_ws(s, p2);
                                if i <= q2 && q2 < s.len() {
                                    if s[q2] == '}' {
                                        Some(q2 + 1)
                                    } else if s[q2] == ',' {
                                        let r3 = spec_skip_ws(s, q2 + 1);
                                        if i < r3 && r3 <= s.len() {
                                            spec_skip_object_items(s, r3)
                                        } else {
                                            None
                                        }
                                    } else {
                                        None
                                    }
                                } else {
                                    None
                                }
                            },
                            None => None,
                        }
                    } else {
                        None
                    }
                } else {
                    None
                }
            },
            None => None,
        }
    }
}

/// The whole of `s` is one JSON value with optional surrounding whitespace.
pub open spec fn spec_is_valid_json(s: Seq<char>) -> bool {
    let i = spec_skip_ws(s, 0);
    match spec_skip_value(s, i) {
        Some(p) => spec_skip_ws(s, p) == s.len(),
        None => false,
    }
}

fn skip_digits(s: &Vec<char>, i: usize) -> (j: usize)
    requires
        i <= s@.len(),
    ensures
        j == spec_skip_digits(s@, i as int),
        i <= j <= s@.len(),
    decreases s@.len() - i,
{
    if i < s.len() {
        let u = s[i] as u32;
        if 48 <= u && u <= 57 {
            return skip_digits(s, i + 1);
        }
    }
    i
}

fn skip_number(s: &Vec<char>, i: usize) -> (r: Option<usize>)
    requires
        i <= s@.len(),
    ensures
        r matches Some(j) ==> spec_skip_number(s@, i as int) == Some(j as int) && i < j
            <= s@.len(),
        r is None ==> spec_skip_number(s@, i as int) is None,
{
    let a = if i < s.len() && s[i] == '-' {
        i + 1
    } else {
        i
    };
    if a < s.len() {
        let u = s[a] as u32;
        if 48 <= u && u <= 57 {
            let b = if s[a] == '0' {
                a + 1
            } else {
                let b0 = skip_digits(s, a);
                proof {
                    assert(spec_skip_digits(s@, a as int) == spec_skip_digits(s@, a as int + 1));
                    lemma_skip_digits_bounds(s@, a as int + 1);
                }
                b0
            };
            let c2 = if b < s.len() && s[b] == '.' {
                if b + 1 < s.len() && 48 <= (s[b + 1] as u32) && (s[b + 1] as u32) <= 57 {
                    Some(skip_digits(s, b + 1))
                } else {
                    None
                }
            } else {
                Some(b)
            };
            match c2 {
                Some(b2) => {
                    if b2 < s.len() && (s[b2] == 'e' || s[b2] == 'E') {
                        let e0 = if b2 + 1 < s.len() && (s[b2 + 1] == '+' || s[b2 + 1] == '-') {
                            b2 + 2
                        } else {
                            b2 + 1
                        };
                        if e0 < s.len() && 48 <= (s[e0] as u32) && (s[e0] as u32) <= 57 {
                            Some(skip_digits(s, e0))
                        } else {
                            None
                        }
                    } else {
                        Some(b2)
                    }
                },
                None => None,
            }
        } else {
            None
        }
    } else {
        None
    }
}

fn match_lit(s: &Vec<char>, i: usize, lit: &Vec<char>) -> (r: bool)
    requires
        i <= s@.len(),
    ensures
        r == spec_match_lit(s@, i as int, lit@),
{
    if s.len() - i < lit.len() {
        proof {
            assert(!spec_match_lit(s@, i as int, lit@));
        }
        return false;
    }
    let n = s.len();
    let mut k: usize = 0;
    while k < lit.len()
        invariant
            n == s@.len(),
            i <= s@.len(),
            i + lit@.len() <= s@.len(),
            k <= lit@.len(),
            forall|m: int| 0 <= m < k ==> s@[i + m] == lit@[m],
        decreases lit@.len() - k,
    {
        if s[i + k] != lit[k] {
            proof {
                assert(s@.subrange(i as int, i + lit@.len())[k as int] == s@[i + k]);
                assert(!spec_match_lit(s@, i as int, lit@));
            }
            return false;
        }
        k = k + 1;
    }
    proof {
        assert(s@.subrange(i as int, i + lit@.len()) =~= lit@);
    }
    true
}

/// The position after the complete JSON value starting at `i`.
pub fn skip_value(s: &Vec<char>, i: usize) -> (r: Option<usize>)
    requires
        i <= s@.len(),
    ensures
        r matches Some(j) ==> spec_skip_value(s@, i as int) == Some(j as int) && i < j <= s@.len(),
        r is None ==> spec_skip_value(s@, i as int) is None,
    decreases s@.len() - i, 0int,
{
    proof {
        reveal_strlit("true");
        reveal_strlit("false");
        reveal_strlit("null");
    }
    if i >= s.len() {
        return None;
    }
    let c = s[i];
    if c == '"' {
        match parse_string(s, i) {
            Some((_b, j)) => Some(j),
            None => None,
        }
    } else if c == '{' {
        let j = skip_ws(s, i + 1);
        if j < s.len() {
            if s[j] == '}' {
                Some(j + 1)
            } else {
                skip_object_items(s, j)
            }
        } else {
            None
        }
    } else if c == '[' {
        let j = skip_ws(s, i + 1);
        if j < s.len() {
            if s[j] == ']' {
                Some(j + 1)
            } else {
                skip_array_items(s, j)
            }
        } else {
            None
        }
    } else {
        let lit_true = crate::text::string_to_chars("true");
        if match_lit(s, i, &lit_true) {
            return Some(i + 4);
        }
        let lit_false = crate::text::string_to_chars("false");
        if match_lit(s, i, &lit_false) {
            return Some(i + 5);
        }
        let lit_null = crate::text::string_to_chars("null");
        if match_lit(s, i, &lit_null) {
            return Some(i + 4);
        }
        let u = c as u32;
        if c == '-' || (48 <= u && u <= 57) {
            skip_number(s, i)
        } else {
            None
        }
    }
}

fn skip_array_items(s: &Vec<char>, i: usize) -> (r: Option<usize>)
    requires
        i <= s@.len(),
    ensures
        r matches Some(j) ==> spec_skip_array_items(s@, i as int) == Some(j as int) && i < j
            <= s@.len(),
        r is None ==> spec_skip_array_items(s@, i as int) is None,
    decreases s@.len() - i, 1int,
{
    match skip_value(s, i) {
        Some(p) => {
            let q = skip_ws(s, p);
            if q < s.len() {
                if s[q] == ']' {
                    Some(q + 1)
                } else if s[q] == ',' {
                    let r2 = skip_ws(s, q + 1);
                    skip_array_items(s, r2)
                } else {
                    None
                }
            } else {
                None
            }
        },
        None => None,
    }
}

fn skip_object_items(s: &Vec<char>, i: usize) -> (r: Option<usize>)
    requires
        i <= s@.len(),
    ensures
        r matches Some(j) ==> spec_skip_object_items(s@, i as int) == Some(j as int) && i < j
            <= s@.len(),
        r is None ==> spec_skip_object_items(s@, i as int) is None,
    decreases s@.len() - i, 1int,
{
    match parse_string(s, i) {
        Some((_key, p)) => {
            let q = skip_ws(s, p);
            if q < s.len() && s[q] == ':' {
                let r2 = skip_ws(s, q + 1);
                match skip_value(s, r2) {
                    Some(p2) => {
                        let q2 = skip_ws(s, p2);
                        if q2 < s.len() {
                            if s[q2] == '}' {
                                Some(q2 + 1)
                            } else if s[q2] == ',' {
                                let r3 = skip_ws(s, q2 + 1);
                                skip_object_items(s, r3)
                            } else {
                                None
                            }
                        } else {
                            None
                        }
                    },
                    None => None,
                }
            } else {
                None
            }
        },
        None => None,
    }
}

/// A literal `null` at `i`, as tolerated for optional members.
pub open spec fn spec_try_null(s: Seq<char>, i: int) -> Option<int> {
    if spec_match_lit(s, i, "null"@) {
        Some(i + 4)
    } else {
        None
    }
}

/// A literal `null` at `i`.
pub fn try_null(s: &Vec<char>, i: usize) -> (r: Option<usize>)
    requires
        i <= s@.len(),
    ensures
        r matches Some(j) ==> spec_try_null(s@, i as int) == Some(j as int) && i < j <= s@.len(),
        r is None ==> spec_try_null(s@, i as int) is None,
{
    proof {
        reveal_strlit("null");
    }
    let n = s.len();
    let lit_null = crate::text::string_to_chars("null");
    if match_lit(s, i, &lit_null) {
        proof {
            assert(i + 4 <= n);
        }
        Some(i + 4)
    } else {
        None
    }
}

/// Whether `s` is one complete JSON document. This is the check applied to
/// capability-argument strings before dispatch.
pub fn is_valid_json(s: &str) -> (r: bool)
    ensures
        r == spec_is_valid_json(s@),
{
    let chars = crate::text::string_to_chars(s);
    let i = skip_ws(&chars, 0);
    match skip_value(&chars, i) {
        Some(p) => {
            let e = skip_ws(&chars, p);
            e == chars.len()
        },
        None => false,
    }
}

} // verus!
