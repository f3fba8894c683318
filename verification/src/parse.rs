//! Parser for the stored form of the configuration document.
//!
//! The stored document is JSON.  The parser accepts the usual freedoms of
//! that grammar — arbitrary whitespace between tokens, the members of an
//! object in any order, unknown members (which are ignored), string escapes
//! — and rejects everything else: a document that is not well-formed JSON,
//! or whose known members carry a value of the wrong type, or that lacks a
//! required member, is refused rather than silently patched.
//!
//! Every function has a specification twin; the executable parser returns
//! exactly what the twin denotes.

use crate::codec::push_char;
use crate::codec::spec_dec;
use crate::codec::spec_digit_char;
use crate::codec::spec_escape;
use crate::codec::spec_escape_char;
use crate::codec::spec_hex_char;
use crate::settings::AutoSaveSettings;
use crate::settings::AutoSaveSettingsView;
use crate::settings::EditorSettings;
use crate::settings::EditorSettingsView;
use vstd::prelude::*;

verus! {

// ---------------------------------------------------------------------------
// text helpers
// ---------------------------------------------------------------------------
/// Collects the characters of a text value.
pub(crate) fn chars_of(s: &str) -> (r: Vec<char>)
    ensures
        r@ == s@,
{
    let n = s.unicode_len();
    let mut r: Vec<char> = Vec::new();
    let mut i: usize = 0;
    while i < n
        invariant
            i <= n,
            n == s@.len(),
            r@ == s@.take(i as int),
        decreases n - i,
    {
        r.push(s.get_char(i));
        proof {
            assert(s@.take(i as int + 1) =~= s@.take(i as int).push(s@[i as int]));
        }
        i = i + 1;
    }
    proof {
        assert(s@.take(n as int) =~= s@);
    }
    r
}

/// Builds a text value from its characters.
pub(crate) fn string_of_chars(v: &Vec<char>) -> (r: String)
    ensures
        r@ == v@,
{
    let mut r = String::new();
    let mut i: usize = 0;
    while i < v.len()
        invariant
            i <= v@.len(),
            r@ == v@.take(i as int),
        decreases v@.len() - i,
    {
        push_char(&mut r, v[i]);
        proof {
            assert(v@.take(i as int + 1) =~= v@.take(i as int).push(v@[i as int]));
        }
        i = i + 1;
    }
    proof {
        assert(v@.take(v@.len() as int) =~= v@);
    }
    r
}

/// Whether the text `t` stands at position `i` of `s`.
pub open spec fn spec_has_text(s: Seq<char>, i: int, t: Seq<char>) -> bool {
    0 <= i && i + t.len() <= s.len() && s.subrange(i, i + t.len()) == t
}

/// Whether the text `t` stands at position `pos` of `s`.
fn has_text(s: &Vec<char>, pos: usize, t: &str) -> (r: bool)
    requires
        pos <= s@.len(),
    ensures
        r == spec_has_text(s@, pos as int, t@),
        s@.len() <= usize::MAX,
{
    let n = t.unicode_len();
    if n > s.len() - pos {
        proof {
            assert(!spec_has_text(s@, pos as int, t@));
        }
        return false;
    }
    let mut j: usize = 0;
    while j < n
        invariant
            j <= n,
            n == t@.len(),
            pos + n <= s@.len(),
            s@.len() <= usize::MAX,
            forall|k: int| 0 <= k < j ==> s@[pos + k] == t@[k],
        decreases n - j,
    {
        if s[pos + j] != t.get_char(j) {
            proof {
                assert(s@.subrange(pos as int, pos + n) != t@) by {
                    if s@.subrange(pos as int, pos + n) == t@ {
                        assert(s@.subrange(pos as int, pos + n)[j as int] == t@[j as int]);
                    }
                }
            }
            return false;
        }
        j = j + 1;
    }
    proof {
        assert(s@.subrange(pos as int, pos + n) =~= t@);
    }
    true
}

// ---------------------------------------------------------------------------
// whitespace
// ---------------------------------------------------------------------------
/// Whether `c` is JSON whitespace.
pub open spec fn spec_is_ws(c: char) -> bool {
    c == ' ' || c == '\t' || c == '\n' || c == '\r'
}

/// The first position at or after `i` that does not hold whitespace.
pub open spec fn spec_skip_ws(s: Seq<char>, i: int) -> int
    decreases s.len() - i,
    when 0 <= i <= s.len()
{
    if i < s.len() && spec_is_ws(s[i]) {
        spec_skip_ws(s, i + 1)
    } else {
        i
    }
}

/// Whether `c` is JSON whitespace.
fn is_ws(c: char) -> (r: bool)
    ensures
        r == spec_is_ws(c),
{
    c == ' ' || c == '\t' || c == '\n' || c == '\r'
}

/// Advances past whitespace.
fn skip_ws(s: &Vec<char>, pos: usize) -> (r: usize)
    requires
        pos <= s@.len(),
    ensures
        r == spec_skip_ws(s@, pos as int),
        pos <= r <= s@.len(),
        r < s@.len() ==> !spec_is_ws(s@[r as int]),
{
    let mut i = pos;
    while i < s.len() && is_ws(s[i])
        invariant
            pos <= i <= s@.len(),
            spec_skip_ws(s@, pos as int) == spec_skip_ws(s@, i as int),
        decreases s@.len() - i,
    {
        i = i + 1;
    }
    i
}

// ---------------------------------------------------------------------------
// numbers
// ---------------------------------------------------------------------------
/// Whether `c` is a decimal digit.
pub open spec fn spec_is_digit(c: char) -> bool {
    48 <= (c as u32) <= 57
}

/// The value of a decimal digit character.
pub open spec fn spec_digit_val(c: char) -> nat
    recommends
        spec_is_digit(c),
{
    ((c as u32) - 48) as nat
}

/// The first position at or after `i` that does not hold a digit.
pub open spec fn spec_scan_digits(s: Seq<char>, i: int) -> int
    decreases s.len() - i,
    when 0 <= i <= s.len()
{
    if i < s.len() && spec_is_digit(s[i]) {
        spec_scan_digits(s, i + 1)
    } else {
        i
    }
}

/// The value of a digit string, most significant digit first.
pub open spec fn spec_digits_val(s: Seq<char>) -> nat
    decreases s.len(),
{
    if s.len() == 0 {
        0
    } else {
        spec_digits_val(s.drop_last()) * 10 + spec_digit_val(s.last())
    }
}

/// Whether `c` is a decimal digit.
fn is_digit(c: char) -> (r: bool)
    ensures
        r == spec_is_digit(c),
{
    let u = c as u32;
    48 <= u && u <= 57
}

/// Advances past digits.
fn scan_digits(s: &Vec<char>, pos: usize) -> (r: usize)
    requires
        pos <= s@.len(),
    ensures
        r == spec_scan_digits(s@, pos as int),
        pos <= r <= s@.len(),
        forall|j: int| pos <= j < r ==> spec_is_digit(s@[j]),
        r < s@.len() ==> !spec_is_digit(s@[r as int]),
    decreases s@.len() - pos,
{
    let mut i = pos;
    while i < s.len() && is_digit(s[i])
        invariant
            pos <= i <= s@.len(),
            spec_scan_digits(s@, pos as int) == spec_scan_digits(s@, i as int),
            forall|j: int| pos <= j < i ==> spec_is_digit(s@[j]),
        decreases s@.len() - i,
    {
        i = i + 1;
    }
    i
}

/// A JSON number, as far as this document's fields care: an unsigned
/// integer that fits in 32 bits, or any other well-formed number.
pub enum NumToken {
    U32(u32),
    Other,
}

/// Parses a JSON number at `i`: `None` when no well-formed number stands
/// there, otherwise the token and the position after it.  A plain unsigned
/// integer that fits in 32 bits becomes `U32`; any other well-formed number
/// (signed, fractional, with an exponent, or too large) becomes `Other`.
pub open spec fn spec_parse_number(s: Seq<char>, i: int) -> Option<(NumToken, int)> {
    let neg = 0 <= i < s.len() && s[i] == '-';
    let i1 = if neg {
        i + 1
    } else {
        i
    };
    if !(0 <= i1 < s.len() && spec_is_digit(s[i1])) {
        None
    } else {
        let int_end = if s[i1] == '0' {
            i1 + 1
        } else {
            spec_scan_digits(s, i1)
        };
        if int_end < s.len() && spec_is_digit(s[int_end]) {
            None  // a leading zero may not be followed by more digits
        } else {
            let fe = if int_end < s.len() && s[int_end] == '.' {
                if int_end + 1 < s.len() && spec_is_digit(s[int_end + 1]) {
                    spec_scan_digits(s, int_end + 1)
                } else {
                    -1
                }
            } else {
                int_end
            };
            if fe < 0 {
                None
            } else {
                let ee = if fe < s.len() && (s[fe] == 'e' || s[fe] == 'E') {
                    let es = if fe + 1 < s.len() && (s[fe + 1] == '+' || s[fe + 1] == '-') {
                        fe + 2
                    } else {
                        fe + 1
                    };
                    if es < s.len() && spec_is_digit(s[es]) {
                        spec_scan_digits(s, es)
                    } else {
                        -1
                    }
                } else {
                    fe
                };
                if ee < 0 {
                    None
                } else {
                    let tok = if neg || ee != int_end {
                        NumToken::Other
                    } else {
                        let v = spec_digits_val(s.subrange(i1, int_end));
                        if v <= u32::MAX {
                            NumToken::U32(v as u32)
                        } else {
                            NumToken::Other
                        }
                    };
                    Some((tok, ee))
                }
            }
        }
    }
}

/// Appending one digit multiplies the value by ten and adds that digit.
proof fn lemma_digits_val_step(s: Seq<char>, a: int, j: int)
    requires
        0 <= a <= j < s.len(),
    ensures
        spec_digits_val(s.subrange(a, j + 1)) == spec_digits_val(s.subrange(a, j)) * 10
            + spec_digit_val(s[j]),
{
    assert(s.subrange(a, j + 1).drop_last() =~= s.subrange(a, j));
    assert(s.subrange(a, j + 1).last() == s[j]);
}

/// Parses a JSON number: exactly [`spec_parse_number`].
fn parse_number(s: &Vec<char>, pos: usize) -> (r: Option<(NumToken, usize)>)
    requires
        pos <= s@.len(),
    ensures
        r is None ==> spec_parse_number(s@, pos as int) is None,
        r matches Some((t, e)) ==> spec_parse_number(s@, pos as int) == Some((t, e as int)) && pos
            < e <= s@.len(),
{
    let ghost i = pos as int;
    let neg = pos < s.len() && s[pos] == '-';
    let p1 = if neg {
        pos + 1
    } else {
        pos
    };
    if !(p1 < s.len() && is_digit(s[p1])) {
        return None;
    }
    let int_end = if s[p1] == '0' {
        p1 + 1
    } else {
        scan_digits(s, p1)
    };
    if int_end < s.len() && is_digit(s[int_end]) {
        return None;
    }
    let fe = if int_end < s.len() && s[int_end] == '.' {
        if int_end + 1 < s.len() && is_digit(s[int_end + 1]) {
            scan_digits(s, int_end + 1)
        } else {
            return None;
        }
    } else {
        int_end
    };
    let has_frac = fe != int_end;
    let ee = if fe < s.len() && (s[fe] == 'e' || s[fe] == 'E') {
        let es = if fe + 1 < s.len() && (s[fe + 1] == '+' || s[fe + 1] == '-') {
            fe + 2
        } else {
            fe + 1
        };
        if es < s.len() && is_digit(s[es]) {
            scan_digits(s, es)
        } else {
            return None;
        }
    } else {
        fe
    };
    if neg || ee != int_end {
        return Some((NumToken::Other, ee));
    }
    // Plain unsigned integer: compute its value, watching for overflow.
    let mut v: u32 = 0;
    let mut fits = true;
    let mut j = p1;
    while j < int_end
        invariant
            p1 <= j <= int_end <= s@.len(),
            forall|k: int| p1 <= k < int_end ==> spec_is_digit(s@[k]),
            fits ==> v == spec_digits_val(s@.subrange(p1 as int, j as int)),
            !fits ==> spec_digits_val(s@.subrange(p1 as int, j as int)) > u32::MAX,
        decreases int_end - j,
    {
        let d = (s[j] as u32) - 48;
        proof {
            lemma_digits_val_step(s@, p1 as int, j as int);
        }
        if fits {
            if v <= (u32::MAX - d) / 10 {
                v = v * 10 + d;
            } else {
                proof {
                    assert((u32::MAX - d) / 10 * 10 + (u32::MAX - d) % 10 == u32::MAX - d);
                    assert(v * 10 + d > u32::MAX);
                }
                fits = false;
            }
        }
        j = j + 1;
    }
    if fits {
        Some((NumToken::U32(v), int_end))
    } else {
        Some((NumToken::Other, int_end))
    }
}

// ---------------------------------------------------------------------------
// strings
// ---------------------------------------------------------------------------
/// The character whose Unicode scalar value is `u`, as `char::from_u32`
/// returns it.
pub uninterp spec fn spec_char_of_code(u: u32) -> char;

/// Relies on `char::from_u32`: it returns `Some` exactly for Unicode scalar
/// values (below the surrogate range or between it and the last code
/// point), it is the inverse of `char as u32`, and its result on a given
/// code is the character named by [`spec_char_of_code`].
#[verifier::external_body]
fn char_from_u32(u: u32) -> (r: Option<char>)
    ensures
        r is Some <==> (u < 0xD800 || (0xE000 <= u && u <= 0x10FFFF)),
        r matches Some(c) ==> c == spec_char_of_code(u) && c as u32 == u,
        forall|c: char| c as u32 == u ==> r == Some(c),
{
    char::from_u32(u)
}

/// The value of a hexadecimal digit character, upper or lower case.
pub open spec fn spec_hex_val(c: char) -> Option<nat> {
    let u = c as u32;
    if 48 <= u <= 57 {
        Some((u - 48) as nat)
    } else if 97 <= u <= 102 {
        Some((u - 87) as nat)
    } else if 65 <= u <= 70 {
        Some((u - 55) as nat)
    } else {
        None
    }
}

/// The value of the four hexadecimal digits at `i`.
pub open spec fn spec_hex4(s: Seq<char>, i: int) -> Option<nat>
    recommends
        0 <= i,
        i + 4 <= s.len(),
{
    match (spec_hex_val(s[i]), spec_hex_val(s[i + 1]), spec_hex_val(s[i + 2]), spec_hex_val(
        s[i + 3],
    )) {
        (Some(a), Some(b), Some(c), Some(d)) => Some(a * 4096 + b * 256 + c * 16 + d),
        _ => None,
    }
}

/// The value of a hexadecimal digit character.
fn hex_val(c: char) -> (r: Option<u32>)
    ensures
        r is Some <==> spec_hex_val(c) is Some,
        r matches Some(v) ==> Some(v as nat) == spec_hex_val(c) && v < 16,
{
    let u = c as u32;
    if 48 <= u && u <= 57 {
        Some(u - 48)
    } else if 97 <= u && u <= 102 {
        Some(u - 87)
    } else if 65 <= u && u <= 70 {
        Some(u - 55)
    } else {
        None
    }
}

/// The value of the four hexadecimal digits at `pos`.
fn hex4(s: &Vec<char>, pos: usize) -> (r: Option<u32>)
    requires
        pos + 4 <= s@.len(),
    ensures
        r is Some <==> spec_hex4(s@, pos as int) is Some,
        r matches Some(v) ==> Some(v as nat) == spec_hex4(s@, pos as int) && v < 0x10000,
{
    let slen = s.len();
    proof {
        assert(pos + 4 <= slen);
    }
    let a = hex_val(s[pos]);
    let b = hex_val(s[pos + 1]);
    let c = hex_val(s[pos + 2]);
    let d = hex_val(s[pos + 3]);
    match (a, b, c, d) {
        (Some(a), Some(b), Some(c), Some(d)) => Some(a * 4096 + b * 256 + c * 16 + d),
        _ => None,
    }
}

/// Parses one string escape, `i` standing just after the backslash: the
/// named single-character escapes, or `uXXXX` (with a following low
/// surrogate escape when `XXXX` is a high surrogate).  Yields the denoted
/// character and the position after the escape.
pub open spec fn spec_parse_escape(s: Seq<char>, i: int) -> Option<(char, int)> {
    if !(0 <= i < s.len()) {
        None
    } else {
        let c = s[i];
        if c == '"' {
            Some(('"', i + 1))
        } else if c == '\\' {
            Some(('\\', i + 1))
        } else if c == '/' {
            Some(('/', i + 1))
        } else if c == 'b' {
            Some(('\u{8}', i + 1))
        } else if c == 'f' {
            Some(('\u{c}', i + 1))
        } else if c == 'n' {
            Some(('\n', i + 1))
        } else if c == 'r' {
            Some(('\r', i + 1))
        } else if c == 't' {
            Some(('\t', i + 1))
        } else if c == 'u' {
            if i + 5 > s.len() {
                None
            } else {
                match spec_hex4(s, i + 1) {
                    None => None,
                    Some(u) => if u < 256 {
                        Some((((u as u8) as char), i + 5))
                    } else if u < 0xD800 || u >= 0xE000 {
                        Some((spec_char_of_code(u as u32), i + 5))
                    } else if u < 0xDC00 {
                        // high surrogate: a low surrogate escape must follow
                        if i + 11 > s.len() || s[i + 5] != '\\' || s[i + 6] != 'u' {
                            None
                        } else {
                            match spec_hex4(s, i + 7) {
                                None => None,
                                Some(lo) => if 0xDC00 <= lo < 0xE000 {
                                    Some(
                                        (
                                            spec_char_of_code(
                                                (0x10000 + (u - 0xD800) * 0x400 + (lo
                                                    - 0xDC00)) as u32,
                                            ),
                                            i + 11,
                                        ),
                                    )
                                } else {
                                    None
                                },
                            }
                        }
                    } else {
                        None  // a lone low surrogate denotes no character
                    },
                }
            }
        } else {
            None
        }
    }
}

/// Parses one string escape: exactly [`spec_parse_escape`].
fn parse_escape(s: &Vec<char>, pos: usize) -> (r: Option<(char, usize)>)
    requires
        pos <= s@.len(),
    ensures
        r is None ==> spec_parse_escape(s@, pos as int) is None,
        r matches Some((c, e)) ==> spec_parse_escape(s@, pos as int) == Some((c, e as int)) && pos
            < e <= s@.len(),
{
    if pos >= s.len() {
        return None;
    }
    let c = s[pos];
    if c == '"' {
        Some(('"', pos + 1))
    } else if c == '\\' {
        Some(('\\', pos + 1))
    } else if c == '/' {
        Some(('/', pos + 1))
    } else if c == 'b' {
        Some(('\u{8}', pos + 1))
    } else if c == 'f' {
        Some(('\u{c}', pos + 1))
    } else if c == 'n' {
        Some(('\n', pos + 1))
    } else if c == 'r' {
        Some(('\r', pos + 1))
    } else if c == 't' {
        Some(('\t', pos + 1))
    } else if c == 'u' {
        if s.len() - pos < 5 {
            return None;
        }
        match hex4(s, pos + 1) {
            None => None,
            Some(u) => {
                if u < 256 {
                    Some((((u as u8) as char), pos + 5))
                } else if u < 0xD800 || u >= 0xE000 {
                    match char_from_u32(u) {
                        Some(ch) => Some((ch, pos + 5)),
                        None => {
                            proof {
                                assert(false);
                            }
                            None
                        },
                    }
                } else if u < 0xDC00 {
                    if s.len() - pos < 11 || s[pos + 5] != '\\' || s[pos + 6] != 'u' {
                        return None;
                    }
                    match hex4(s, pos + 7) {
                        None => None,
                        Some(lo) => {
                            if 0xDC00 <= lo && lo < 0xE000 {
                                let code = 0x10000 + (u - 0xD800) * 0x400 + (lo - 0xDC00);
                                match char_from_u32(code) {
                                    Some(ch) => Some((ch, pos + 11)),
                                    None => {
                                        proof {
                                            assert(false);
                                        }
                                        None
                                    },
                                }
                            } else {
                                None
                            }
                        },
                    }
                } else {
                    None
                }
            },
        }
    } else {
        None
    }
}

/// Parses the body of a quoted string, `i` standing just after the opening
/// quote: the decoded characters and the position after the closing quote.
/// Raw control characters are refused; escapes are decoded by
/// [`spec_parse_escape`].
pub open spec fn spec_parse_string_body(s: Seq<char>, i: int) -> Option<(Seq<char>, int)>
    decreases s.len() - i,
    when 0 <= i <= s.len()
{
    if i >= s.len() {
        None
    } else if s[i] == '"' {
        Some((Seq::empty(), i + 1))
    } else if s[i] == '\\' {
        match spec_parse_escape(s, i + 1) {
            None => None,
            Some((c, j)) => if i + 1 < j <= s.len() {
                match spec_parse_string_body(s, j) {
                    None => None,
                    Some((rest, e)) => Some((seq![c] + rest, e)),
                }
            } else {
                None
            },
        }
    } else if (s[i] as u32) < 0x20 {
        None
    } else {
        match spec_parse_string_body(s, i + 1) {
            None => None,
            Some((rest, e)) => Some((seq![s[i]] + rest, e)),
        }
    }
}

/// Parses the body of a quoted string: exactly [`spec_parse_string_body`].
fn parse_string_body(s: &Vec<char>, pos: usize) -> (r: Option<(Vec<char>, usize)>)
    requires
        pos <= s@.len(),
    ensures
        r is None ==> spec_parse_string_body(s@, pos as int) is None,
        r matches Some((w, e)) ==> spec_parse_string_body(s@, pos as int) == Some((w@, e as int))
            && pos < e <= s@.len(),
{
    let mut i = pos;
    let mut out: Vec<char> = Vec::new();
    loop
        invariant
            pos <= i <= s@.len(),
            match spec_parse_string_body(s@, i as int) {
                None => spec_parse_string_body(s@, pos as int) is None,
                Some((rest, e)) => spec_parse_string_body(s@, pos as int) == Some(
                    (out@ + rest, e),
                ),
            },
        decreases s@.len() - i,
    {
        if i >= s.len() {
            return None;
        }
        let c = s[i];
        if c == '"' {
            proof {
                assert(out@ + Seq::<char>::empty() =~= out@);
            }
            return Some((out, i + 1));
        }
        if c == '\\' {
            match parse_escape(s, i + 1) {
                None => {
                    return None;
                },
                Some((ch, j)) => {
                    let ghost rest0 = spec_parse_string_body(s@, j as int);
                    proof {
                        match rest0 {
                            None => {},
                            Some((rest, e)) => {
                                assert(out@ + (seq![ch] + rest) =~= out@.push(ch) + rest);
                            },
                        }
                    }
                    out.push(ch);
                    i = j;
                },
            }
        } else if (c as u32) < 0x20 {
            return None;
        } else {
            let ghost rest0 = spec_parse_string_body(s@, i as int + 1);
            proof {
                match rest0 {
                    None => {},
                    Some((rest, e)) => {
                        assert(out@ + (seq![c] + rest) =~= out@.push(c) + rest);
                    },
                }
            }
            out.push(c);
            i = i + 1;
        }
    }
}

/// Parses a quoted string at `i`: the opening quote, the body, the closing
/// quote.
pub open spec fn spec_parse_string(s: Seq<char>, i: int) -> Option<(Seq<char>, int)> {
    if 0 <= i < s.len() && s[i] == '"' {
        spec_parse_string_body(s, i + 1)
    } else {
        None
    }
}

/// Parses a quoted string: exactly [`spec_parse_string`].
fn parse_string(s: &Vec<char>, pos: usize) -> (r: Option<(Vec<char>, usize)>)
    requires
        pos <= s@.len(),
    ensures
        r is None ==> spec_parse_string(s@, pos as int) is None,
        r matches Some((w, e)) ==> spec_parse_string(s@, pos as int) == Some((w@, e as int)) && pos
            < e <= s@.len(),
{
    if pos < s.len() && s[pos] == '"' {
        parse_string_body(s, pos + 1)
    } else {
        None
    }
}

// ---------------------------------------------------------------------------
// skipping unknown values
// ---------------------------------------------------------------------------
/// Skips one JSON value at `i`, yielding the position after it.  `fuel`
/// bounds the recursion; every caller supplies more fuel than any document
/// of the given length can consume.
pub open spec fn spec_skip_value(s: Seq<char>, i: int, fuel: nat) -> Option<int>
    decreases fuel, 2int,
{
    if fuel == 0 {
        None
    } else if !(0 <= i < s.len()) {
        None
    } else {
        let c = s[i];
        if c == '"' {
            match spec_parse_string(s, i) {
                None => None,
                Some((_, e)) => Some(e),
            }
        } else if c == 't' {
            if spec_has_text(s, i, "true"@) {
                Some(i + 4)
            } else {
                None
            }
        } else if c == 'f' {
            if spec_has_text(s, i, "false"@) {
                Some(i + 5)
            } else {
                None
            }
        } else if c == 'n' {
            if spec_has_text(s, i, "null"@) {
                Some(i + 4)
            } else {
                None
            }
        } else if c == '{' {
            spec_skip_object(s, spec_skip_ws(s, i + 1), (fuel - 1) as nat)
        } else if c == '[' {
            spec_skip_array(s, spec_skip_ws(s, i + 1), (fuel - 1) as nat)
        } else {
            match spec_parse_number(s, i) {
                None => None,
                Some((_, e)) => Some(e),
            }
        }
    }
}

/// Skips the remainder of an object whose `{` is consumed: either `}` at
/// once, or its members.
pub open spec fn spec_skip_object(s: Seq<char>, i: int, fuel: nat) -> Option<int>
    decreases fuel, 1int,
{
    if !(0 <= i < s.len()) {
        None
    } else if s[i] == '}' {
        Some(i + 1)
    } else {
        spec_skip_members(s, i, fuel)
    }
}

/// Skips one or more `key: value` members and the closing `}`.
pub open spec fn spec_skip_members(s: Seq<char>, i: int, fuel: nat) -> Option<int>
    decreases fuel, 0int,
{
    if fuel == 0 {
        None
    } else {
        match spec_parse_string(s, i) {
            None => None,
            Some((_, k)) => if !(0 <= k <= s.len()) {
                None
            } else {
                let c = spec_skip_ws(s, k);
                if !(c < s.len() && s[c] == ':') {
                    None
                } else {
                    match spec_skip_value(s, spec_skip_ws(s, c + 1), (fuel - 1) as nat) {
                        None => None,
                        Some(e) => if !(0 <= e <= s.len()) {
                            None
                        } else {
                            let t = spec_skip_ws(s, e);
                            if t < s.len() && s[t] == ',' {
                                spec_skip_members(s, spec_skip_ws(s, t + 1), (fuel - 1) as nat)
                            } else if t < s.len() && s[t] == '}' {
                                Some(t + 1)
                            } else {
                                None
                            }
                        },
                    }
                }
            },
        }
    }
}

/// Skips the remainder of an array whose `[` is consumed: either `]` at
/// once, or its elements.
pub open spec fn spec_skip_array(s: Seq<char>, i: int, fuel: nat) -> Option<int>
    decreases fuel, 1int,
{
    if !(0 <= i < s.len()) {
        None
    } else if s[i] == ']' {
        Some(i + 1)
    } else {
        spec_skip_elements(s, i, fuel)
    }
}

/// Skips one or more array elements and the closing `]`.
pub open spec fn spec_skip_elements(s: Seq<char>, i: int, fuel: nat) -> Option<int>
    decreases fuel, 0int,
{
    if fuel == 0 {
        None
    } else {
        match spec_skip_value(s, i, (fuel - 1) as nat) {
            None => None,
            Some(e) => if !(0 <= e <= s.len()) {
                None
            } else {
                let t = spec_skip_ws(s, e);
                if t < s.len() && s[t] == ',' {
                    spec_skip_elements(s, spec_skip_ws(s, t + 1), (fuel - 1) as nat)
                } else if t < s.len() && s[t] == ']' {
                    Some(t + 1)
                } else {
                    None
                }
            },
        }
    }
}

/// Skips one JSON value: exactly [`spec_skip_value`].
fn skip_value(s: &Vec<char>, pos: usize, fuel: usize) -> (r: Option<usize>)
    requires
        pos <= s@.len(),
    ensures
        r is None ==> spec_skip_value(s@, pos as int, fuel as nat) is None,
        r matches Some(e) ==> spec_skip_value(s@, pos as int, fuel as nat) == Some(e as int) && e
            <= s@.len(),
    decreases fuel, 2int,
{
    if fuel == 0 {
        return None;
    }
    if pos >= s.len() {
        return None;
    }
    let c = s[pos];
    if c == '"' {
        match parse_string(s, pos) {
            None => None,
            Some((_, e)) => Some(e),
        }
    } else if c == 't' {
        if has_text(s, pos, "true") {
            proof {
                reveal_strlit("true");
            }
            Some(pos + 4)
        } else {
            None
        }
    } else if c == 'f' {
        if has_text(s, pos, "false") {
            proof {
                reveal_strlit("false");
            }
            Some(pos + 5)
        } else {
            None
        }
    } else if c == 'n' {
        if has_text(s, pos, "null") {
            proof {
                reveal_strlit("null");
            }
            Some(pos + 4)
        } else {
            None
        }
    } else if c == '{' {
        skip_object(s, skip_ws(s, pos + 1), fuel - 1)
    } else if c == '[' {
        skip_array(s, skip_ws(s, pos + 1), fuel - 1)
    } else {
        match parse_number(s, pos) {
            None => None,
            Some((_, e)) => Some(e),
        }
    }
}

/// Skips the remainder of an object: exactly [`spec_skip_object`].
fn skip_object(s: &Vec<char>, pos: usize, fuel: usize) -> (r: Option<usize>)
    requires
        pos <= s@.len(),
    ensures
        r is None ==> spec_skip_object(s@, pos as int, fuel as nat) is None,
        r matches Some(e) ==> spec_skip_object(s@, pos as int, fuel as nat) == Some(e as int) && e
            <= s@.len(),
    decreases fuel, 1int,
{
    if pos >= s.len() {
        return None;
    }
    if s[pos] == '}' {
        Some(pos + 1)
    } else {
        skip_members(s, pos, fuel)
    }
}

/// Skips object members: exactly [`spec_skip_members`].
fn skip_members(s: &Vec<char>, pos: usize, fuel: usize) -> (r: Option<usize>)
    requires
        pos <= s@.len(),
    ensures
        r is None ==> spec_skip_members(s@, pos as int, fuel as nat) is None,
        r matches Some(e) ==> spec_skip_members(s@, pos as int, fuel as nat) == Some(e as int) && e
            <= s@.len(),
    decreases fuel, 0int,
{
    if fuel == 0 {
        return None;
    }
    match parse_string(s, pos) {
        None => None,
        Some((_, k)) => {
            let c = skip_ws(s, k);
            if !(c < s.len() && s[c] == ':') {
                return None;
            }
            match skip_value(s, skip_ws(s, c + 1), fuel - 1) {
                None => None,
                Some(e) => {
                    let t = skip_ws(s, e);
                    if t < s.len() && s[t] == ',' {
                        skip_members(s, skip_ws(s, t + 1), fuel - 1)
                    } else if t < s.len() && s[t] == '}' {
                        Some(t + 1)
                    } else {
                        None
                    }
                },
            }
        },
    }
}

/// Skips the remainder of an array: exactly [`spec_skip_array`].
fn skip_array(s: &Vec<char>, pos: usize, fuel: usize) -> (r: Option<usize>)
    requires
        pos <= s@.len(),
    ensures
        r is None ==> spec_skip_array(s@, pos as int, fuel as nat) is None,
        r matches Some(e) ==> spec_skip_array(s@, pos as int, fuel as nat) == Some(e as int) && e
            <= s@.len(),
    decreases fuel, 1int,
{
    if pos >= s.len() {
        return None;
    }
    if s[pos] == ']' {
        Some(pos + 1)
    } else {
        skip_elements(s, pos, fuel)
    }
}

/// Skips array elements: exactly [`spec_skip_elements`].
fn skip_elements(s: &Vec<char>, pos: usize, fuel: usize) -> (r: Option<usize>)
    requires
        pos <= s@.len(),
    ensures
        r is None ==> spec_skip_elements(s@, pos as int, fuel as nat) is None,
        r matches Some(e) ==> spec_skip_elements(s@, pos as int, fuel as nat) == Some(e as int)
            && e <= s@.len(),
    decreases fuel, 0int,
{
    if fuel == 0 {
        return None;
    }
    match skip_value(s, pos, fuel - 1) {
        None => None,
        Some(e) => {
            let t = skip_ws(s, e);
            if t < s.len() && s[t] == ',' {
                skip_elements(s, skip_ws(s, t + 1), fuel - 1)
            } else if t < s.len() && s[t] == ']' {
                Some(t + 1)
            } else {
                None
            }
        },
    }
}

// ---------------------------------------------------------------------------
// the document's members
// ---------------------------------------------------------------------------
/// The fields collected so far while walking the document's members:
/// `None` marks a field not seen yet.  For the pane ratio, the outer
/// `Option` marks whether the member was seen, the inner one its value
/// (`null` and an absent member both leave the ratio unset).
pub ghost struct PartialView {
    pub font_size: Option<u32>,
    pub word_wrap_column: Option<u32>,
    pub background_color: Option<Seq<char>>,
    pub text_color: Option<Seq<char>>,
    pub font_family: Option<Seq<char>>,
    pub auto_save: Option<AutoSaveSettingsView>,
    pub resizer_ratio: Option<Option<u32>>,
}

/// The auto-save fields collected so far.
pub struct AutoPartial {
    pub enabled: Option<bool>,
    pub interval: Option<u32>,
}

pub struct Partial {
    pub font_size: Option<u32>,
    pub word_wrap_column: Option<u32>,
    pub background_color: Option<Vec<char>>,
    pub text_color: Option<Vec<char>>,
    pub font_family: Option<Vec<char>>,
    pub auto_save: Option<AutoSaveSettings>,
    pub resizer_ratio: Option<Option<u32>>,
}

impl View for Partial {
    type V = PartialView;

    open spec fn view(&self) -> PartialView {
        PartialView {
            font_size: self.font_size,
            word_wrap_column: self.word_wrap_column,
            background_color: match self.background_color {
                Some(v) => Some(v@),
                None => None,
            },
            text_color: match self.text_color {
                Some(v) => Some(v@),
                None => None,
            },
            font_family: match self.font_family {
                Some(v) => Some(v@),
                None => None,
            },
            auto_save: match self.auto_save {
                Some(a) => Some(a@),
                None => None,
            },
            resizer_ratio: self.resizer_ratio,
        }
    }
}

/// The state before any member has been seen.
pub open spec fn spec_empty_partial() -> PartialView {
    PartialView {
        font_size: None,
        word_wrap_column: None,
        background_color: None,
        text_color: None,
        font_family: None,
        auto_save: None,
        resizer_ratio: None,
    }
}

/// Parses the members of the `autoSave` object, starting at a member key
/// (never at `}`): each known member must carry a value of its type and may
/// appear only once, unknown members are skipped.
pub open spec fn spec_parse_autosave(s: Seq<char>, i: int, acc: AutoPartial, fuel: nat) -> Option<
    (AutoPartial, int),
>
    decreases fuel,
{
    if fuel == 0 {
        None
    } else {
        match spec_parse_string(s, i) {
            None => None,
            Some((key, k)) => if !(0 <= k <= s.len()) {
                None
            } else {
                let c = spec_skip_ws(s, k);
                if !(c < s.len() && s[c] == ':') {
                    None
                } else {
                    let v = spec_skip_ws(s, c + 1);
                    let stepped: Option<(AutoPartial, int)> = if key == "enabled"@ {
                        if acc.enabled is Some {
                            None
                        } else if spec_has_text(s, v, "true"@) {
                            Some((AutoPartial { enabled: Some(true), interval: acc.interval }, v + 4))
                        } else if spec_has_text(s, v, "false"@) {
                            Some(
                                (AutoPartial { enabled: Some(false), interval: acc.interval }, v + 5),
                            )
                        } else {
                            None
                        }
                    } else if key == "interval"@ {
                        if acc.interval is Some {
                            None
                        } else {
                            match spec_parse_number(s, v) {
                                Some((NumToken::U32(n), e)) => Some(
                                    (AutoPartial { enabled: acc.enabled, interval: Some(n) }, e),
                                ),
                                _ => None,
                            }
                        }
                    } else {
                        match spec_skip_value(s, v, fuel) {
                            Some(e) => Some((acc, e)),
                            None => None,
                        }
                    };
                    match stepped {
                        None => None,
                        Some((acc2, e)) => if !(0 <= e <= s.len()) {
                            None
                        } else {
                            let t = spec_skip_ws(s, e);
                            if t < s.len() && s[t] == ',' {
                                spec_parse_autosave(s, spec_skip_ws(s, t + 1), acc2, (fuel - 1) as nat)
                            } else if t < s.len() && s[t] == '}' {
                                Some((acc2, t + 1))
                            } else {
                                None
                            }
                        },
                    }
                }
            },
        }
    }
}

/// Parses the `autoSave` object's members: exactly [`spec_parse_autosave`].
fn parse_autosave(s: &Vec<char>, pos: usize, acc: AutoPartial, fuel: usize) -> (r: Option<
    (AutoPartial, usize),
>)
    requires
        pos <= s@.len(),
    ensures
        r is None ==> spec_parse_autosave(s@, pos as int, acc, fuel as nat) is None,
        r matches Some((a, e)) ==> spec_parse_autosave(s@, pos as int, acc, fuel as nat) == Some(
            (a, e as int),
        ) && e <= s@.len(),
    decreases fuel,
{
    if fuel == 0 {
        return None;
    }
    match parse_string(s, pos) {
        None => None,
        Some((key, k)) => {
            let c = skip_ws(s, k);
            if !(c < s.len() && s[c] == ':') {
                return None;
            }
            let v = skip_ws(s, c + 1);
            let stepped: Option<(AutoPartial, usize)> = if vec_eq_str(&key, "enabled") {
                if acc.enabled.is_some() {
                    None
                } else if has_text(s, v, "true") {
                    proof {
                        reveal_strlit("true");
                    }
                    Some((AutoPartial { enabled: Some(true), interval: acc.interval }, v + 4))
                } else if has_text(s, v, "false") {
                    proof {
                        reveal_strlit("false");
                    }
                    Some((AutoPartial { enabled: Some(false), interval: acc.interval }, v + 5))
                } else {
                    None
                }
            } else if vec_eq_str(&key, "interval") {
                if acc.interval.is_some() {
                    None
                } else {
                    match parse_number(s, v) {
                        Some((NumToken::U32(n), e)) => Some(
                            (AutoPartial { enabled: acc.enabled, interval: Some(n) }, e),
                        ),
                        _ => None,
                    }
                }
            } else {
                match skip_value(s, v, fuel) {
                    Some(e) => Some((acc, e)),
                    None => None,
                }
            };
            match stepped {
                None => None,
                Some((acc2, e)) => {
                    let t = skip_ws(s, e);
                    if t < s.len() && s[t] == ',' {
                        parse_autosave(s, skip_ws(s, t + 1), acc2, fuel - 1)
                    } else if t < s.len() && s[t] == '}' {
                        Some((acc2, t + 1))
                    } else {
                        None
                    }
                },
            }
        },
    }
}

/// The effect of one known or unknown member value on the collected state.
pub open spec fn spec_root_member_value(
    s: Seq<char>,
    v: int,
    acc: PartialView,
    key: Seq<char>,
    fuel: nat,
) -> Option<(PartialView, int)> {
    if key == "fontSize"@ {
        if acc.font_size is Some {
            None
        } else {
            match spec_parse_number(s, v) {
                Some((NumToken::U32(n), e)) => Some(
                    (PartialView { font_size: Some(n), ..acc }, e),
                ),
                _ => None,
            }
        }
    } else if key == "wordWrapColumn"@ {
        if acc.word_wrap_column is Some {
            None
        } else {
            match spec_parse_number(s, v) {
                Some((NumToken::U32(n), e)) => Some(
                    (PartialView { word_wrap_column: Some(n), ..acc }, e),
                ),
                _ => None,
            }
        }
    } else if key == "backgroundColor"@ {
        if acc.background_color is Some {
            None
        } else {
            match spec_parse_string(s, v) {
                Some((w, e)) => Some((PartialView { background_color: Some(w), ..acc }, e)),
                None => None,
            }
        }
    } else if key == "textColor"@ {
        if acc.text_color is Some {
            None
        } else {
            match spec_parse_string(s, v) {
                Some((w, e)) => Some((PartialView { text_color: Some(w), ..acc }, e)),
                None => None,
            }
        }
    } else if key == "fontFamily"@ {
        if acc.font_family is Some {
            None
        } else {
            match spec_parse_string(s, v) {
                Some((w, e)) => Some((PartialView { font_family: Some(w), ..acc }, e)),
                None => None,
            }
        }
    } else if key == "autoSave"@ {
        if acc.auto_save is Some {
            None
        } else if !(0 <= v < s.len() && s[v] == '{') {
            None
        } else {
            let j = spec_skip_ws(s, v + 1);
            let parsed: Option<(AutoPartial, int)> = if j < s.len() && s[j] == '}' {
                Some((AutoPartial { enabled: None, interval: None }, j + 1))
            } else {
                spec_parse_autosave(s, j, AutoPartial { enabled: None, interval: None }, fuel)
            };
            match parsed {
                Some((a, e)) => match (a.enabled, a.interval) {
                    (Some(en), Some(iv)) => Some(
                        (
                            PartialView {
                                auto_save: Some(AutoSaveSettingsView { enabled: en, interval: iv }),
                                ..acc
                            },
                            e,
                        ),
                    ),
                    _ => None,
                },
                None => None,
            }
        }
    } else if key == "resizerRatio"@ {
        if acc.resizer_ratio is Some {
            None
        } else if spec_has_text(s, v, "null"@) {
            Some((PartialView { resizer_ratio: Some(None), ..acc }, v + 4))
        } else {
            match spec_parse_number(s, v) {
                Some((NumToken::U32(n), e)) => Some(
                    (PartialView { resizer_ratio: Some(Some(n)), ..acc }, e),
                ),
                _ => None,
            }
        }
    } else {
        match spec_skip_value(s, v, fuel) {
            Some(e) => Some((acc, e)),
            None => None,
        }
    }
}

/// Parses the document's members, starting at a member key (never at `}`):
/// each known member must carry a value of its type and may appear only
/// once, unknown members are skipped.
pub open spec fn spec_parse_root_members(
    s: Seq<char>,
    i: int,
    acc: PartialView,
    fuel: nat,
) -> Option<(PartialView, int)>
    decreases fuel,
{
    if fuel == 0 {
        None
    } else {
        match spec_parse_string(s, i) {
            None => None,
            Some((key, k)) => if !(0 <= k <= s.len()) {
                None
            } else {
                let c = spec_skip_ws(s, k);
                if !(c < s.len() && s[c] == ':') {
                    None
                } else {
                    let v = spec_skip_ws(s, c + 1);
                    match spec_root_member_value(s, v, acc, key, (fuel - 1) as nat) {
                        None => None,
                        Some((acc2, e)) => if !(0 <= e <= s.len()) {
                            None
                        } else {
                            let t = spec_skip_ws(s, e);
                            if t < s.len() && s[t] == ',' {
                                spec_parse_root_members(
                                    s,
                                    spec_skip_ws(s, t + 1),
                                    acc2,
                                    (fuel - 1) as nat,
                                )
                            } else if t < s.len() && s[t] == '}' {
                                Some((acc2, t + 1))
                            } else {
                                None
                            }
                        },
                    }
                }
            },
        }
    }
}

/// Whether a decoded key holds the same characters as `t`.
fn vec_eq_str(v: &Vec<char>, t: &str) -> (r: bool)
    ensures
        r == (v@ == t@),
{
    let n = t.unicode_len();
    if v.len() != n {
        proof {
            assert(v@ != t@) by {
                if v@ == t@ {
                    assert(v@.len() == t@.len());
                }
            }
        }
        return false;
    }
    let mut j: usize = 0;
    while j < n
        invariant
            j <= n,
            n == t@.len(),
            n == v@.len(),
            forall|k: int| 0 <= k < j ==> v@[k] == t@[k],
        decreases n - j,
    {
        if v[j] != t.get_char(j) {
            return false;
        }
        j = j + 1;
    }
    proof {
        assert(v@ =~= t@);
    }
    true
}

/// One known or unknown member value: exactly [`spec_root_member_value`].
fn root_member_value(s: &Vec<char>, v: usize, acc: Partial, key: &Vec<char>, fuel: usize) -> (r:
    Option<(Partial, usize)>)
    requires
        v <= s@.len(),
    ensures
        r is None ==> spec_root_member_value(s@, v as int, acc@, key@, fuel as nat) is None,
        r matches Some((a, e)) ==> spec_root_member_value(s@, v as int, acc@, key@, fuel as nat)
            == Some((a@, e as int)) && e <= s@.len(),
{
    if vec_eq_str(key, "fontSize") {
        if acc.font_size.is_some() {
            None
        } else {
            match parse_number(s, v) {
                Some((NumToken::U32(n), e)) => {
                    let mut acc2 = acc;
                    acc2.font_size = Some(n);
                    Some((acc2, e))
                },
                _ => None,
            }
        }
    } else if vec_eq_str(key, "wordWrapColumn") {
        if acc.word_wrap_column.is_some() {
            None
        } else {
            match parse_number(s, v) {
                Some((NumToken::U32(n), e)) => {
                    let mut acc2 = acc;
                    acc2.word_wrap_column = Some(n);
                    Some((acc2, e))
                },
                _ => None,
            }
        }
    } else if vec_eq_str(key, "backgroundColor") {
        if acc.background_color.is_some() {
            None
        } else {
            match parse_string(s, v) {
                Some((w, e)) => {
                    let mut acc2 = acc;
                    acc2.background_color = Some(w);
                    Some((acc2, e))
                },
                None => None,
            }
        }
    } else if vec_eq_str(key, "textColor") {
        if acc.text_color.is_some() {
            None
        } else {
            match parse_string(s, v) {
                Some((w, e)) => {
                    let mut acc2 = acc;
                    acc2.text_color = Some(w);
                    Some((acc2, e))
                },
                None => None,
            }
        }
    } else if vec_eq_str(key, "fontFamily") {
        if acc.font_family.is_some() {
            None
        } else {
            match parse_string(s, v) {
                Some((w, e)) => {
                    let mut acc2 = acc;
                    acc2.font_family = Some(w);
                    Some((acc2, e))
                },
                None => None,
            }
        }
    } else if vec_eq_str(key, "autoSave") {
        if acc.auto_save.is_some() {
            None
        } else if !(v < s.len() && s[v] == '{') {
            None
        } else {
            let j = skip_ws(s, v + 1);
            let parsed: Option<(AutoPartial, usize)> = if j < s.len() && s[j] == '}' {
                Some((AutoPartial { enabled: None, interval: None }, j + 1))
            } else {
                parse_autosave(s, j, AutoPartial { enabled: None, interval: None }, fuel)
            };
            match parsed {
                Some((a, e)) => match (a.enabled, a.interval) {
                    (Some(en), Some(iv)) => {
                        let mut acc2 = acc;
                        acc2.auto_save = Some(AutoSaveSettings { enabled: en, interval: iv });
                        Some((acc2, e))
                    },
                    _ => None,
                },
                None => None,
            }
        }
    } else if vec_eq_str(key, "resizerRatio") {
        if acc.resizer_ratio.is_some() {
            None
        } else if has_text(s, v, "null") {
            proof {
                reveal_strlit("null");
            }
            let mut acc2 = acc;
            acc2.resizer_ratio = Some(None);
            Some((acc2, v + 4))
        } else {
            match parse_number(s, v) {
                Some((NumToken::U32(n), e)) => {
                    let mut acc2 = acc;
                    acc2.resizer_ratio = Some(Some(n));
                    Some((acc2, e))
                },
                _ => None,
            }
        }
    } else {
        match skip_value(s, v, fuel) {
            Some(e) => Some((acc, e)),
            None => None,
        }
    }
}

/// The document's members: exactly [`spec_parse_root_members`].
fn parse_root_members(s: &Vec<char>, pos: usize, acc: Partial, fuel: usize) -> (r: Option<
    (Partial, usize),
>)
    requires
        pos <= s@.len(),
    ensures
        r is None ==> spec_parse_root_members(s@, pos as int, acc@, fuel as nat) is None,
        r matches Some((a, e)) ==> spec_parse_root_members(s@, pos as int, acc@, fuel as nat)
            == Some((a@, e as int)) && e <= s@.len(),
    decreases fuel,
{
    if fuel == 0 {
        return None;
    }
    match parse_string(s, pos) {
        None => None,
        Some((key, k)) => {
            let c = skip_ws(s, k);
            if !(c < s.len() && s[c] == ':') {
                return None;
            }
            let v = skip_ws(s, c + 1);
            match root_member_value(s, v, acc, &key, fuel - 1) {
                None => None,
                Some((acc2, e)) => {
                    let t = skip_ws(s, e);
                    if t < s.len() && s[t] == ',' {
                        parse_root_members(s, skip_ws(s, t + 1), acc2, fuel - 1)
                    } else if t < s.len() && s[t] == '}' {
                        Some((acc2, t + 1))
                    } else {
                        None
                    }
                },
            }
        },
    }
}

/// A complete document from collected members: every member but the pane
/// ratio is required; an unseen or `null` ratio leaves the ratio unset.
pub open spec fn spec_assemble(acc: PartialView) -> Option<EditorSettingsView> {
    match (acc.font_size, acc.word_wrap_column, acc.background_color, acc.text_color, acc.font_family, acc.auto_save) {
        (Some(fs), Some(ww), Some(bg), Some(tc), Some(ff), Some(a)) => Some(
            EditorSettingsView {
                font_size: fs,
                word_wrap_column: ww,
                background_color: bg,
                text_color: tc,
                font_family: ff,
                auto_save: a,
                resizer_ratio: match acc.resizer_ratio {
                    Some(ratio) => ratio,
                    None => None,
                },
            },
        ),
        _ => None,
    }
}

/// A complete document from collected members: exactly [`spec_assemble`].
fn assemble(acc: Partial) -> (r: Option<EditorSettings>)
    ensures
        r is None ==> spec_assemble(acc@) is None,
        r matches Some(v) ==> spec_assemble(acc@) == Some(v@),
{
    match (acc.font_size, acc.word_wrap_column, acc.background_color, acc.text_color, acc.font_family, acc.auto_save) {
        (Some(fs), Some(ww), Some(bg), Some(tc), Some(ff), Some(a)) => {
            let r = EditorSettings {
                font_size: fs,
                word_wrap_column: ww,
                background_color: string_of_chars(&bg),
                text_color: string_of_chars(&tc),
                font_family: string_of_chars(&ff),
                auto_save: a,
                resizer_ratio: match acc.resizer_ratio {
                    Some(ratio) => ratio,
                    None => None,
                },
            };
            proof {
                assert(spec_assemble(acc@) == Some(r@));
            }
            Some(r)
        },
        _ => None,
    }
}

/// The document a stored text denotes: `Some` exactly when the text is a
/// well-formed JSON object whose known members carry values of the right
/// types, each at most once, with every member but the pane ratio present,
/// and nothing but whitespace around the object.  Unknown members are
/// ignored.
pub open spec fn spec_parse_settings(t: Seq<char>) -> Option<EditorSettingsView> {
    let i = spec_skip_ws(t, 0);
    if !(i < t.len() && t[i] == '{') {
        None
    } else {
        let j = spec_skip_ws(t, i + 1);
        if j < t.len() && t[j] == '}' {
            None  // an empty document lacks every required member
        } else {
            match spec_parse_root_members(t, j, spec_empty_partial(), t.len() as nat) {
                None => None,
                Some((acc, e)) => if !(0 <= e <= t.len()) {
                    None
                } else {
                    if spec_skip_ws(t, e) == t.len() {
                        spec_assemble(acc)
                    } else {
                        None
                    }
                },
            }
        }
    }
}

/// Parses a stored document: `Ok` exactly when [`spec_parse_settings`]
/// denotes a document, and then that document; otherwise a reason, and the
/// stored text is left for the caller to deal with.
pub fn parse_settings(data: &str) -> (r: Result<EditorSettings, String>)
    ensures
        r is Ok <==> spec_parse_settings(data@) is Some,
        r matches Ok(v) ==> Some(v@) == spec_parse_settings(data@),
{
    let s = chars_of(data);
    let i = skip_ws(&s, 0);
    if !(i < s.len() && s[i] == '{') {
        return Err(String::from_str("the stored settings are not a JSON object"));
    }
    let j = skip_ws(&s, i + 1);
    if j < s.len() && s[j] == '}' {
        return Err(String::from_str("the stored settings lack the required fields"));
    }
    let acc = Partial {
        font_size: None,
        word_wrap_column: None,
        background_color: None,
        text_color: None,
        font_family: None,
        auto_save: None,
        resizer_ratio: None,
    };
    match parse_root_members(&s, j, acc, s.len()) {
        None => Err(String::from_str("the stored settings are not a valid settings document")),
        Some((acc2, e)) => {
            if skip_ws(&s, e) == s.len() {
                match assemble(acc2) {
                    Some(v) => Ok(v),
                    None => Err(
                        String::from_str("the stored settings lack the required fields"),
                    ),
                }
            } else {
                Err(String::from_str("unexpected text after the settings document"))
            }
        },
    }
}


// ---------------------------------------------------------------------------
// round-trip laws
// ---------------------------------------------------------------------------
/// A decimal digit character carries its digit back.
proof fn lemma_digit_char_val(d: nat)
    requires
        d < 10,
    ensures
        spec_is_digit(spec_digit_char(d)),
        spec_digit_val(spec_digit_char(d)) == d,
{
}

/// The decimal notation of `n` is a non-empty digit string whose value is
/// `n` again, starting with `0` only for `n == 0`.
proof fn lemma_dec_digits(n: nat)
    ensures
        spec_dec(n).len() >= 1,
        forall|j: int| 0 <= j < spec_dec(n).len() ==> spec_is_digit(#[trigger] spec_dec(n)[j]),
        spec_digits_val(spec_dec(n)) == n,
        spec_dec(n)[0] == '0' ==> n == 0,
    decreases n,
{
    if n < 10 {
        lemma_digit_char_val(n);
        let d = spec_dec(n);
        assert(d == seq![spec_digit_char(n)]);
        assert(d.drop_last() =~= Seq::<char>::empty());
        assert(spec_digits_val(d) == spec_digits_val(d.drop_last()) * 10 + spec_digit_val(
            d.last(),
        ));
    } else {
        lemma_dec_digits(n / 10);
        lemma_digit_char_val(n % 10);
        let p = spec_dec(n / 10);
        let d = spec_dec(n);
        assert(d == p.push(spec_digit_char(n % 10)));
        assert(d.drop_last() =~= p);
        assert(spec_digits_val(d) == spec_digits_val(p) * 10 + spec_digit_val(d.last()));
        assert(spec_digits_val(d) == (n / 10) * 10 + n % 10);
        assert(d[0] == p[0]);
    }
}

/// Scanning digits over a known digit run ends exactly at its end.
proof fn lemma_scan_digits_range(t: Seq<char>, i: int, j: int)
    requires
        0 <= i <= j <= t.len(),
        forall|k: int| i <= k < j ==> spec_is_digit(t[k]),
        j == t.len() || !spec_is_digit(t[j]),
    ensures
        spec_scan_digits(t, i) == j,
    decreases j - i,
{
    if i < j {
        lemma_scan_digits_range(t, i + 1, j);
    }
}


/// The number round trip: where the decimal notation of `n` stands in a
/// text, not followed by a digit or a fraction or exponent mark, the number
/// parser reads back exactly `n`.
pub proof fn lemma_number_round_trip(t: Seq<char>, i: int, n: u32)
    requires
        0 <= i,
        i + spec_dec(n as nat).len() <= t.len(),
        t.subrange(i, i + spec_dec(n as nat).len()) == spec_dec(n as nat),
        i + spec_dec(n as nat).len() == t.len() || !(spec_is_digit(
            t[i + spec_dec(n as nat).len()],
        ) || t[i + spec_dec(n as nat).len()] == '.' || t[i + spec_dec(n as nat).len()] == 'e'
            || t[i + spec_dec(n as nat).len()] == 'E'),
    ensures
        spec_parse_number(t, i) == Some((NumToken::U32(n), i + spec_dec(n as nat).len())),
{
    lemma_dec_digits(n as nat);
    let d = spec_dec(n as nat);
    let e = i + d.len();
    assert forall|j: int| i <= j < e implies spec_is_digit(t[j]) && t[j] == d[j - i] by {
        assert(t.subrange(i, e)[j - i] == t[j]);
    }
    lemma_scan_digits_range(t, i, e);
    assert(t[i] == d[0]);
    assert(spec_is_digit(t[i]));
    assert(t[i] != '-');
    if t[i] == '0' {
        assert(n == 0);
        assert(d.len() == 1);
    }
    assert(t.subrange(i, e) == d);
    assert(spec_digits_val(t.subrange(i, e)) == n);
}

/// A hexadecimal digit character carries its value back.
proof fn lemma_hex_char_val(d: nat)
    requires
        d < 16,
    ensures
        spec_hex_val(spec_hex_char(d)) == Some(d),
{
}

/// The string-body round trip: where the escape of `x` stands in a text,
/// followed by a closing quote, the string parser decodes back exactly `x`.
/// Reading back one escaped character: where the escape of `c` stands at
/// `i` with a `\u00XX` form, the escape parser decodes `c` again.
proof fn lemma_escape_unit_hex(t: Seq<char>, i: int, c: char)
    requires
        0 <= i,
        (c as u32) < 0x20,
        c != '\u{8}' && c != '\t' && c != '\n' && c != '\u{c}' && c != '\r',
        i + 6 <= t.len(),
        forall|j: int| 0 <= j < 6 ==> t[i + j] == spec_escape_char(c)[j],
    ensures
        spec_parse_escape(t, i + 1) == Some((c, i + 6)),
{
    let u = c as u32;
    lemma_hex_char_val((u / 16) as nat);
    lemma_hex_char_val((u % 16) as nat);
    assert(spec_escape_char(c) == seq![
        '\\',
        'u',
        '0',
        '0',
        spec_hex_char((u / 16) as nat),
        spec_hex_char((u % 16) as nat),
    ]);
    assert(t[i + 1] == 'u');
    assert(t[i + 2] == '0' && t[i + 3] == '0');
    assert(spec_hex_val('0') == Some(0nat));
    assert(t[i + 4] == spec_hex_char((u / 16) as nat));
    assert(t[i + 5] == spec_hex_char((u % 16) as nat));
    assert(spec_hex4(t, i + 2) == Some((u / 16) as nat * 16 + (u % 16) as nat));
    assert((u / 16) * 16 + u % 16 == u);
    assert(spec_hex4(t, i + 2) == Some(u as nat));
    assert(((u as u8) as char) == c);
}

/// Reading back one escaped character: where the escape of `c` stands at
/// `i`, either it is `c` itself (one character, unescaped), or it starts
/// with a backslash and the escape parser decodes `c` again.
proof fn lemma_escape_unit(t: Seq<char>, i: int, c: char)
    requires
        0 <= i,
        i + spec_escape_char(c).len() <= t.len(),
        forall|j: int| 0 <= j < spec_escape_char(c).len() ==> t[i + j] == spec_escape_char(c)[j],
    ensures
        spec_escape_char(c).len() == 1 ==> t[i] == c && c != '"' && c != '\\' && (c as u32)
            >= 0x20,
        spec_escape_char(c).len() != 1 ==> t[i] == '\\' && spec_parse_escape(t, i + 1) == Some(
            (c, i + spec_escape_char(c).len() as int),
        ),
{
    let ec = spec_escape_char(c);
    if c == '"' {
        assert(ec == seq!['\\', '"']);
        assert(t[i + 0] == ec[0] && t[i + 1] == ec[1]);
        assert(t[i] == '\\' && t[i + 1] == '"');
    } else if c == '\\' {
        assert(ec == seq!['\\', '\\']);
        assert(t[i + 0] == ec[0] && t[i + 1] == ec[1]);
        assert(t[i] == '\\' && t[i + 1] == '\\');
    } else if c == '\u{8}' {
        assert(ec == seq!['\\', 'b']);
        assert(t[i + 0] == ec[0] && t[i + 1] == ec[1]);
        assert(t[i] == '\\' && t[i + 1] == 'b');
    } else if c == '\t' {
        assert(ec == seq!['\\', 't']);
        assert(t[i + 0] == ec[0] && t[i + 1] == ec[1]);
        assert(t[i] == '\\' && t[i + 1] == 't');
    } else if c == '\n' {
        assert(ec == seq!['\\', 'n']);
        assert(t[i + 0] == ec[0] && t[i + 1] == ec[1]);
        assert(t[i] == '\\' && t[i + 1] == 'n');
    } else if c == '\u{c}' {
        assert(ec == seq!['\\', 'f']);
        assert(t[i + 0] == ec[0] && t[i + 1] == ec[1]);
        assert(t[i] == '\\' && t[i + 1] == 'f');
    } else if c == '\r' {
        assert(ec == seq!['\\', 'r']);
        assert(t[i + 0] == ec[0] && t[i + 1] == ec[1]);
        assert(t[i] == '\\' && t[i + 1] == 'r');
    } else if (c as u32) < 0x20 {
        assert(ec.len() == 6);
        assert(t[i + 0] == ec[0] && ec[0] == '\\');
        assert(t[i] == '\\');
        lemma_escape_unit_hex(t, i, c);
    } else {
        assert(ec == seq![c]);
        assert(t[i + 0] == ec[0]);
        assert(t[i] == c);
    }
}

/// The string-body round trip: where the escape of `x` stands in a text,
/// followed by a closing quote, the string parser decodes back exactly `x`.
proof fn lemma_parse_escaped_at(t: Seq<char>, i: int, x: Seq<char>)
    requires
        0 <= i,
        i + spec_escape(x).len() + 1 <= t.len(),
        t.subrange(i, i + spec_escape(x).len()) == spec_escape(x),
        t[i + spec_escape(x).len()] == '"',
    ensures
        spec_parse_string_body(t, i) == Some((x, i + spec_escape(x).len() + 1)),
    decreases x.len(),
{
    let w = spec_escape(x);
    assert forall|j: int| 0 <= j < w.len() implies t[i + j] == w[j] by {
        assert(t.subrange(i, i + w.len())[j] == t[i + j]);
    }
    if x.len() == 0 {
        assert(w =~= Seq::<char>::empty());
        assert(t[i] == '"');
        assert(x =~= Seq::<char>::empty());
    } else {
        let c = x[0];
        let x1 = x.drop_first();
        let ec = spec_escape_char(c);
        let w1 = spec_escape(x1);
        assert(w == ec + w1);
        let k = ec.len() as int;
        assert(k >= 1) by {
            if (c as u32) < 0x20 {
            }
        }
        assert forall|j: int| 0 <= j < k implies t[i + j] == ec[j] by {
            assert(w[j] == ec[j]);
        }
        assert forall|j: int| 0 <= j < w1.len() implies t[i + k + j] == w1[j] by {
            assert(w[k + j] == w1[j]);
        }
        assert(t.subrange(i + k, i + k + w1.len()) =~= w1);
        assert(t[i + k + w1.len()] == '"');
        lemma_parse_escaped_at(t, i + k, x1);
        assert(spec_parse_string_body(t, i + k) == Some((x1, i + k + w1.len() + 1)));
        lemma_escape_unit(t, i, c);
        assert(seq![c] + x1 =~= x);
        if k == 1 {
            assert(spec_parse_string_body(t, i) == Some((seq![c] + x1, i + k + w1.len() + 1)));
        } else {
            assert(spec_parse_escape(t, i + 1) == Some((c, i + k)));
            assert(spec_parse_string_body(t, i) == Some((seq![c] + x1, i + k + w1.len() + 1)));
        }
    }
}

/// The string round trip: any text, escaped and quoted by the encoder, is
/// decoded back to itself by the string parser.
pub proof fn lemma_string_round_trip(x: Seq<char>)
    ensures
        spec_parse_string(seq!['"'] + spec_escape(x) + seq!['"'], 0) == Some(
            (x, spec_escape(x).len() + 2int),
        ),
{
    let t = seq!['"'] + spec_escape(x) + seq!['"'];
    let w: int = spec_escape(x).len() as int;
    assert(t[0] == '"');
    assert(t.subrange(1, 1 + w) =~= spec_escape(x));
    assert(t[1 + w] == '"');
    lemma_parse_escaped_at(t, 1, x);
}

} // verus!
