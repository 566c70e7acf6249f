//! The lexical layer of the wire text: whitespace, string literals
//! with their escapes, integer literals, and stepping past a value of
//! unknown shape. Parsers work on a character buffer and a position;
//! each spec function is the exact meaning of its executable
//! counterpart.

use vstd::prelude::*;

use crate::strutil::push_char;

verus! {

/// The whitespace the wire text tolerates between tokens.
pub open spec fn is_json_ws(c: char) -> bool {
    c == ' ' || c == '\t' || c == '\n' || c == '\r'
}

/// The first position at or after `p` that does not hold whitespace.
pub open spec fn spec_skip_ws(s: Seq<char>, p: int) -> int
    decreases s.len() - p,
    when 0 <= p <= s.len()
{
    if p < s.len() && is_json_ws(s[p]) {
        spec_skip_ws(s, p + 1)
    } else {
        p
    }
}

/// Step past whitespace.
pub fn skip_ws(s: &Vec<char>, p: usize) -> (r: usize)
    requires
        p <= s@.len(),
    ensures
        r == spec_skip_ws(s@, p as int),
        p <= r <= s@.len(),
    decreases s@.len() - p,
{
    if p < s.len() {
        let c = s[p];
        if c == ' ' || c == '\t' || c == '\n' || c == '\r' {
            return skip_ws(s, p + 1);
        }
    }
    p
}

/// Whether a code is a Unicode scalar value: a code point that is not a
/// surrogate.
pub open spec fn is_scalar_value(v: int) -> bool {
    (0 <= v < 0xD800) || (0xE000 <= v < 0x110000)
}

/// Relies on std's `char::from_u32`: `Some` exactly on Unicode scalar
/// values, yielding the character with that code.
#[verifier::external_body]
pub fn char_from_u32(v: u32) -> (r: Option<char>)
    ensures
        r == if is_scalar_value(v as int) {
            Some(v as char)
        } else {
            None::<char>
        },
{
    char::from_u32(v)
}

/// The value of one hexadecimal digit, or 16 for any other character.
pub open spec fn spec_hex_val(c: char) -> int {
    if '0' <= c && c <= '9' {
        (c as int) - ('0' as int)
    } else if 'a' <= c && c <= 'f' {
        (c as int) - ('a' as int) + 10
    } else if 'A' <= c && c <= 'F' {
        (c as int) - ('A' as int) + 10
    } else {
        16
    }
}

/// The value of one hexadecimal digit, or 16 for any other character.
pub fn hex_val(c: char) -> (r: u32)
    ensures
        r == spec_hex_val(c),
{
    if '0' <= c && c <= '9' {
        (c as u32) - ('0' as u32)
    } else if 'a' <= c && c <= 'f' {
        (c as u32) - ('a' as u32) + 10
    } else if 'A' <= c && c <= 'F' {
        (c as u32) - ('A' as u32) + 10
    } else {
        16
    }
}

/// The code named by the four hexadecimal digits at `p`, if they are
/// there.
pub open spec fn spec_hex4(s: Seq<char>, p: int) -> Option<int> {
    if p + 4 <= s.len() {
        let a = spec_hex_val(s[p]);
        let b = spec_hex_val(s[p + 1]);
        let c = spec_hex_val(s[p + 2]);
        let d = spec_hex_val(s[p + 3]);
        if a < 16 && b < 16 && c < 16 && d < 16 {
            Some(a * 0x1000 + b * 0x100 + c * 0x10 + d)
        } else {
            None
        }
    } else {
        None
    }
}

/// The four hexadecimal digits at `p`, as a code.
pub fn hex4(s: &Vec<char>, p: usize) -> (r: Option<u32>)
    requires
        p <= s@.len(),
    ensures
        match r {
            Some(v) => spec_hex4(s@, p as int) == Some(v as int),
            None => spec_hex4(s@, p as int) is None,
        },
{
    if s.len() - p >= 4 {
        let a = hex_val(s[p]);
        let b = hex_val(s[p + 1]);
        let c = hex_val(s[p + 2]);
        let d = hex_val(s[p + 3]);
        if a < 16 && b < 16 && c < 16 && d < 16 {
            Some(a * 0x1000 + b * 0x100 + c * 0x10 + d)
        } else {
            None
        }
    } else {
        None
    }
}

/// The meaning of the escape whose introducing backslash stands just
/// before `p`: the character it denotes and the position after it. A
/// `\u` escape naming a high surrogate must be followed by a `\u` escape
/// naming a low surrogate; the pair denotes one supplementary character.
pub open spec fn spec_parse_escape(s: Seq<char>, p: int) -> Option<(char, int)> {
    if 0 <= p < s.len() {
        let c = s[p];
        if c == '"' {
            Some(('"', p + 1))
        } else if c == '\\' {
            Some(('\\', p + 1))
        } else if c == '/' {
            Some(('/', p + 1))
        } else if c == 'b' {
            Some(('\u{8}', p + 1))
        } else if c == 'f' {
            Some(('\u{c}', p + 1))
        } else if c == 'n' {
            Some(('\n', p + 1))
        } else if c == 'r' {
            Some(('\r', p + 1))
        } else if c == 't' {
            Some(('\t', p + 1))
        } else if c == 'u' {
            match spec_hex4(s, p + 1) {
                Some(v) => {
                    if v < 0xD800 || v >= 0xE000 {
                        Some(((v as char), p + 5))
                    } else if v < 0xDC00 {
                        // a high surrogate: a low one must follow
                        if p + 7 <= s.len() && s[p + 5] == '\\' && s[p + 6] == 'u' {
                            match spec_hex4(s, p + 7) {
                                Some(w) => {
                                    if 0xDC00 <= w < 0xE000 {
                                        let code = 0x10000 + (v - 0xD800) * 0x400 + (w - 0xDC00);
                                        Some(((code as char), p + 11))
                                    } else {
                                        None
                                    }
                                },
                                None => None,
                            }
                        } else {
                            None
                        }
                    } else {
                        None
                    }
                },
                None => None,
            }
        } else {
            None
        }
    } else {
        None
    }
}

/// Decode the escape whose introducing backslash stands just before `p`.
pub fn parse_escape(s: &Vec<char>, p: usize) -> (r: Option<(char, usize)>)
    requires
        p <= s@.len(),
    ensures
        match r {
            Some((c, q)) => spec_parse_escape(s@, p as int) == Some((c, q as int)) && p < q
                <= s@.len(),
            None => spec_parse_escape(s@, p as int) is None,
        },
{
    if p >= s.len() {
        return None;
    }
    let c = s[p];
    if c == '"' {
        Some(('"', p + 1))
    } else if c == '\\' {
        Some(('\\', p + 1))
    } else if c == '/' {
        Some(('/', p + 1))
    } else if c == 'b' {
        Some(('\u{8}', p + 1))
    } else if c == 'f' {
        Some(('\u{c}', p + 1))
    } else if c == 'n' {
        Some(('\n', p + 1))
    } else if c == 'r' {
        Some(('\r', p + 1))
    } else if c == 't' {
        Some(('\t', p + 1))
    } else if c == 'u' {
        match hex4(s, p + 1) {
            Some(v) => {
                if v < 0xD800 || v >= 0xE000 {
                    match char_from_u32(v) {
                        Some(ec) => Some((ec, p + 5)),
                        None => None,
                    }
                } else if v < 0xDC00 {
                    if s.len() - p >= 7 && s[p + 5] == '\\' && s[p + 6] == 'u' {
                        match hex4(s, p + 7) {
                            Some(w) => {
                                if 0xDC00 <= w && w < 0xE000 {
                                    let code: u32 = 0x10000 + (v - 0xD800) * 0x400 + (w - 0xDC00);
                                    match char_from_u32(code) {
                                        Some(ec) => Some((ec, p + 11)),
                                        None => None,
                                    }
                                } else {
                                    None
                                }
                            },
                            None => None,
                        }
                    } else {
                        None
                    }
                } else {
                    None
                }
            },
            None => None,
        }
    } else {
        None
    }
}

/// The body of a string literal from `p` to its closing quote: the
/// characters it denotes and the position after the quote. Unescaped
/// control characters are refused.
pub open spec fn spec_parse_string_body(s: Seq<char>, p: int) -> Option<(Seq<char>, int)>
    decreases s.len() - p,
    when 0 <= p <= s.len()
{
    if p >= s.len() {
        None
    } else {
        let c = s[p];
        if c == '"' {
            Some((Seq::empty(), p + 1))
        } else if c == '\\' {
            match spec_parse_escape(s, p + 1) {
                Some((ec, q)) => {
                    if p + 1 < q <= s.len() {
                        match spec_parse_string_body(s, q) {
                            Some((rest, e)) => Some((seq![ec] + rest, e)),
                            None => None,
                        }
                    } else {
                        None
                    }
                },
                None => None,
            }
        } else if c <= '\u{1f}' {
            None
        } else {
            match spec_parse_string_body(s, p + 1) {
                Some((rest, e)) => Some((seq![c] + rest, e)),
                None => None,
            }
        }
    }
}

/// Read the body of a string literal up to its closing quote.
pub fn parse_string_body(s: &Vec<char>, p: usize) -> (r: Option<(String, usize)>)
    requires
        p <= s@.len(),
    ensures
        match r {
            Some((text, q)) => spec_parse_string_body(s@, p as int) == Some((text@, q as int))
                && p < q <= s@.len(),
            None => spec_parse_string_body(s@, p as int) is None,
        },
    decreases s@.len() - p,
{
    if p >= s.len() {
        return None;
    }
    let c = s[p];
    if c == '"' {
        let text = String::new();
        proof {
            assert(text@ =~= Seq::<char>::empty());
            assert(spec_parse_string_body(s@, p as int) == Some((Seq::<char>::empty(), p as int + 1)));
        }
        Some((text, p + 1))
    } else if c == '\\' {
        match parse_escape(s, p + 1) {
            Some((ec, q)) => {
                match parse_string_body(s, q) {
                    Some((rest, e)) => {
                        let mut text = String::new();
                        push_char(&mut text, ec);
                        text.append(rest.as_str());
                        proof {
                            assert(text@ =~= seq![ec] + rest@);
                            assert(spec_parse_string_body(s@, p as int) == Some((text@, e as int)));
                        }
                        Some((text, e))
                    },
                    None => None,
                }
            },
            None => None,
        }
    } else if c <= '\u{1f}' {
        None
    } else {
        match parse_string_body(s, p + 1) {
            Some((rest, e)) => {
                let mut text = String::new();
                push_char(&mut text, c);
                text.append(rest.as_str());
                proof {
                    assert(text@ =~= seq![c] + rest@);
                    assert(spec_parse_string_body(s@, p as int) == Some((text@, e as int)));
                }
                Some((text, e))
            },
            None => None,
        }
    }
}

/// A whole string literal at `p`: the opening quote, the body, the
/// closing quote.
pub open spec fn spec_parse_string(s: Seq<char>, p: int) -> Option<(Seq<char>, int)> {
    if 0 <= p < s.len() && s[p] == '"' {
        spec_parse_string_body(s, p + 1)
    } else {
        None
    }
}

/// Read a whole string literal at `p`.
pub fn parse_string(s: &Vec<char>, p: usize) -> (r: Option<(String, usize)>)
    requires
        p <= s@.len(),
    ensures
        match r {
            Some((text, q)) => spec_parse_string(s@, p as int) == Some((text@, q as int)) && p < q
                <= s@.len(),
            None => spec_parse_string(s@, p as int) is None,
        },
{
    if p < s.len() && s[p] == '"' {
        parse_string_body(s, p + 1)
    } else {
        None
    }
}

/// Whether a character is a decimal digit.
pub open spec fn is_digit(c: char) -> bool {
    '0' <= c && c <= '9'
}

/// The run of decimal digits from `p`, folded onto `acc`; more than
/// `u64::MAX` is refused, as is an empty run folded onto nothing.
pub open spec fn spec_parse_digits(s: Seq<char>, p: int, acc: int) -> Option<(int, int)>
    decreases s.len() - p,
    when 0 <= p <= s.len()
{
    if p < s.len() && is_digit(s[p]) {
        let grown = acc * 10 + (s[p] as int) - ('0' as int);
        if grown > u64::MAX {
            None
        } else {
            spec_parse_digits(s, p + 1, grown)
        }
    } else {
        Some((acc, p))
    }
}

/// An unsigned integer literal at `p`: at least one digit, no sign, no
/// fraction, no exponent, at most `u64::MAX`.
pub open spec fn spec_parse_u64(s: Seq<char>, p: int) -> Option<(int, int)> {
    if 0 <= p < s.len() && is_digit(s[p]) {
        spec_parse_digits(s, p, 0)
    } else {
        None
    }
}

pub proof fn lemma_parse_digits_bounds(s: Seq<char>, p: int, acc: int)
    requires
        0 <= p <= s.len(),
        0 <= acc <= u64::MAX,
        spec_parse_digits(s, p, acc) is Some,
    ensures
        p <= (spec_parse_digits(s, p, acc)->0).1 <= s.len(),
        0 <= (spec_parse_digits(s, p, acc)->0).0 <= u64::MAX,
    decreases s.len() - p,
{
    if p < s.len() && is_digit(s[p]) {
        let grown = acc * 10 + (s[p] as int) - ('0' as int);
        if grown <= u64::MAX {
            lemma_parse_digits_bounds(s, p + 1, grown);
        }
    }
}

/// Read an unsigned integer literal at `p`.
pub fn parse_u64(s: &Vec<char>, p: usize) -> (r: Option<(u64, usize)>)
    requires
        p <= s@.len(),
    ensures
        match r {
            Some((v, q)) => spec_parse_u64(s@, p as int) == Some((v as int, q as int)) && p < q
                <= s@.len(),
            None => spec_parse_u64(s@, p as int) is None,
        },
{
    if !(p < s.len() && s[p] >= '0' && s[p] <= '9') {
        return None;
    }
    let mut acc: u64 = 0;
    let mut q: usize = p;
    loop
        invariant_except_break
            p <= q <= s@.len(),
            spec_parse_digits(s@, p as int, 0) == spec_parse_digits(s@, q as int, acc as int),
        ensures
            p <= q <= s@.len(),
            spec_parse_digits(s@, p as int, 0) == Some((acc as int, q as int)),
        decreases s@.len() - q,
    {
        if q < s.len() && s[q] >= '0' && s[q] <= '9' {
            let d: u64 = (s[q] as u32 as u64) - ('0' as u32 as u64);
            if acc > (u64::MAX - d) / 10 {
                // the literal does not fit
                proof {
                    assert(acc * 10 + d > u64::MAX) by (nonlinear_arith)
                        requires
                            acc > (u64::MAX - d) / 10,
                            0 <= d <= 9,
                            0 <= acc,
                    ;
                }
                return None;
            }
            proof {
                assert(acc * 10 + d <= u64::MAX) by (nonlinear_arith)
                    requires
                        acc <= (u64::MAX - d) / 10,
                        0 <= d <= 9,
                        0 <= acc,
                ;
            }
            acc = acc * 10 + d;
            q = q + 1;
        } else {
            break;
        }
    }
    proof {
        let d0 = (s@[p as int] as int) - ('0' as int);
        assert(spec_parse_digits(s@, p as int, 0) == spec_parse_digits(s@, p + 1, d0));
        lemma_parse_digits_bounds(s@, p + 1, d0);
        assert(spec_parse_u64(s@, p as int) == Some((acc as int, q as int)));
        assert(p < q);
    }
    Some((acc, q))
}

/// A character that can stand in a number literal.
pub open spec fn is_number_char(c: char) -> bool {
    is_digit(c) || c == '-' || c == '+' || c == '.' || c == 'e' || c == 'E'
}

/// The end of the maximal run of number characters from `p`. Skipping
/// reads numbers loosely: a malformed number inside a skipped value is
/// tolerated.
pub open spec fn spec_skip_number(s: Seq<char>, p: int) -> int
    decreases s.len() - p,
    when 0 <= p <= s.len()
{
    if p < s.len() && is_number_char(s[p]) {
        spec_skip_number(s, p + 1)
    } else {
        p
    }
}

/// Step past a value of unknown shape: a string, an object, an array,
/// a literal or a number, whitespace before it allowed.
pub open spec fn spec_skip_value(s: Seq<char>, p: int) -> Option<int>
    decreases s.len() - p, 0int,
    when 0 <= p <= s.len()
{
    let q = spec_skip_ws(s, p);
    if !(p <= q && q < s.len()) {
        None
    } else {
        let c = s[q];
        if c == '"' {
            match spec_parse_string(s, q) {
                Some((_, e)) => Some(e),
                None => None,
            }
        } else if c == '{' {
            spec_skip_members(s, q + 1, true)
        } else if c == '[' {
            spec_skip_elements(s, q + 1, true)
        } else if c == 't' {
            if q + 4 <= s.len() && s[q + 1] == 'r' && s[q + 2] == 'u' && s[q + 3] == 'e' {
                Some(q + 4)
            } else {
                None
            }
        } else if c == 'f' {
            if q + 5 <= s.len() && s[q + 1] == 'a' && s[q + 2] == 'l' && s[q + 3] == 's' && s[q
                + 4] == 'e' {
                Some(q + 5)
            } else {
                None
            }
        } else if c == 'n' {
            if q + 4 <= s.len() && s[q + 1] == 'u' && s[q + 2] == 'l' && s[q + 3] == 'l' {
                Some(q + 4)
            } else {
                None
            }
        } else if is_number_char(c) && c != '+' && c != '.' && c != 'e' && c != 'E' {
            Some(spec_skip_number(s, q))
        } else {
            None
        }
    }
}

/// Step past the members of an object of unknown shape, from just
/// after its brace or a separating comma.
pub open spec fn spec_skip_members(s: Seq<char>, p: int, allow_close: bool) -> Option<int>
    decreases s.len() - p, 1int,
    when 0 <= p <= s.len()
{
    let q = spec_skip_ws(s, p);
    if !(p <= q && q < s.len()) {
        None
    } else if s[q] == '}' && allow_close {
        Some(q + 1)
    } else {
        match spec_parse_string(s, q) {
            Some((_, k)) => {
                if !(q < k && k <= s.len()) {
                    None
                } else {
                    let r = spec_skip_ws(s, k);
                    if !(k <= r && r < s.len() && s[r] == ':') {
                        None
                    } else {
                        match spec_skip_value(s, r + 1) {
                            Some(v) => {
                                if !(r + 1 <= v && v <= s.len()) {
                                    None
                                } else {
                                    let x = spec_skip_ws(s, v);
                                    if !(v <= x && x < s.len()) {
                                        None
                                    } else if s[x] == ',' {
                                        spec_skip_members(s, x + 1, false)
                                    } else if s[x] == '}' {
                                        Some(x + 1)
                                    } else {
                                        None
                                    }
                                }
                            },
                            None => None,
                        }
                    }
                }
            },
            None => None,
        }
    }
}

/// Step past the elements of an array of unknown shape, from just
/// after its bracket or a separating comma.
pub open spec fn spec_skip_elements(s: Seq<char>, p: int, allow_close: bool) -> Option<int>
    decreases s.len() - p, 1int,
    when 0 <= p <= s.len()
{
    let q = spec_skip_ws(s, p);
    if !(p <= q && q < s.len()) {
        None
    } else if s[q] == ']' && allow_close {
        Some(q + 1)
    } else {
        match spec_skip_value(s, p) {
            Some(v) => {
                if !(p < v && v <= s.len()) {
                    None
                } else {
                    let x = spec_skip_ws(s, v);
                    if !(v <= x && x < s.len()) {
                        None
                    } else if s[x] == ',' {
                        spec_skip_elements(s, x + 1, false)
                    } else if s[x] == ']' {
                        Some(x + 1)
                    } else {
                        None
                    }
                }
            },
            None => None,
        }
    }
}

/// Step past the maximal run of number characters.
pub fn skip_number(s: &Vec<char>, p: usize) -> (r: usize)
    requires
        p <= s@.len(),
    ensures
        r == spec_skip_number(s@, p as int),
        p <= r <= s@.len(),
    decreases s@.len() - p,
{
    if p < s.len() {
        let c = s[p];
        if ('0' <= c && c <= '9') || c == '-' || c == '+' || c == '.' || c == 'e' || c == 'E' {
            return skip_number(s, p + 1);
        }
    }
    p
}

/// Step past a value of unknown shape.
pub fn skip_value(s: &Vec<char>, p: usize) -> (r: Option<usize>)
    requires
        p <= s@.len(),
    ensures
        match r {
            Some(e) => spec_skip_value(s@, p as int) == Some(e as int) && p <= e <= s@.len(),
            None => spec_skip_value(s@, p as int) is None,
        },
    decreases s@.len() - p, 0int,
{
    let q = skip_ws(s, p);
    if q >= s.len() {
        return None;
    }
    let c = s[q];
    if c == '"' {
        match parse_string(s, q) {
            Some((_, e)) => Some(e),
            None => None,
        }
    } else if c == '{' {
        skip_members(s, q + 1, true)
    } else if c == '[' {
        skip_elements(s, q + 1, true)
    } else if c == 't' {
        if s.len() - q >= 4 && s[q + 1] == 'r' && s[q + 2] == 'u' && s[q + 3] == 'e' {
            Some(q + 4)
        } else {
            None
        }
    } else if c == 'f' {
        if s.len() - q >= 5 && s[q + 1] == 'a' && s[q + 2] == 'l' && s[q + 3] == 's' && s[q + 4]
            == 'e' {
            Some(q + 5)
        } else {
            None
        }
    } else if c == 'n' {
        if s.len() - q >= 4 && s[q + 1] == 'u' && s[q + 2] == 'l' && s[q + 3] == 'l' {
            Some(q + 4)
        } else {
            None
        }
    } else if ('0' <= c && c <= '9') || c == '-' {
        Some(skip_number(s, q))
    } else {
        None
    }
}

/// Step past the members of an object of unknown shape.
pub fn skip_members(s: &Vec<char>, p: usize, allow_close: bool) -> (r: Option<usize>)
    requires
        p <= s@.len(),
    ensures
        match r {
            Some(e) => spec_skip_members(s@, p as int, allow_close) == Some(e as int) && p <= e
                <= s@.len(),
            None => spec_skip_members(s@, p as int, allow_close) is None,
        },
    decreases s@.len() - p, 1int,
{
    let q = skip_ws(s, p);
    if q >= s.len() {
        return None;
    }
    if s[q] == '}' && allow_close {
        return Some(q + 1);
    }
    let (_, k) = match parse_string(s, q) {
        Some(v) => v,
        None => {
            return None;
        },
    };
    let r = skip_ws(s, k);
    if !(r < s.len() && s[r] == ':') {
        return None;
    }
    let v = match skip_value(s, r + 1) {
        Some(x) => x,
        None => {
            return None;
        },
    };
    let x = skip_ws(s, v);
    if x >= s.len() {
        return None;
    }
    if s[x] == ',' {
        skip_members(s, x + 1, false)
    } else if s[x] == '}' {
        Some(x + 1)
    } else {
        None
    }
}

/// Step past the elements of an array of unknown shape.
pub fn skip_elements(s: &Vec<char>, p: usize, allow_close: bool) -> (r: Option<usize>)
    requires
        p <= s@.len(),
    ensures
        match r {
            Some(e) => spec_skip_elements(s@, p as int, allow_close) == Some(e as int) && p <= e
                <= s@.len(),
            None => spec_skip_elements(s@, p as int, allow_close) is None,
        },
    decreases s@.len() - p, 1int,
{
    let q = skip_ws(s, p);
    if q >= s.len() {
        return None;
    }
    if s[q] == ']' && allow_close {
        return Some(q + 1);
    }
    let v = match skip_value(s, p) {
        Some(x) => x,
        None => {
            return None;
        },
    };
    if v <= p {
        return None;
    }
    let x = skip_ws(s, v);
    if x >= s.len() {
        return None;
    }
    if s[x] == ',' {
        skip_elements(s, x + 1, false)
    } else if s[x] == ']' {
        Some(x + 1)
    } else {
        None
    }
}

} // verus!
