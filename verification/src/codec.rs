//! Canonical text encoding of the configuration document.
//!
//! The store persists an [`EditorSettings`] document as pretty-printed JSON
//! with a fixed field order and two-space indentation.  [`spec_encode`] is the
//! mathematical definition of that encoding; [`encode_settings`] produces
//! exactly it.

use crate::settings::EditorSettings;
use crate::settings::EditorSettingsView;
use vstd::prelude::*;

verus! {

/// The decimal digit character for `d` (`d < 10`).
pub open spec fn spec_digit_char(d: nat) -> char
    recommends
        d < 10,
{
    if d == 0 {
        '0'
    } else if d == 1 {
        '1'
    } else if d == 2 {
        '2'
    } else if d == 3 {
        '3'
    } else if d == 4 {
        '4'
    } else if d == 5 {
        '5'
    } else if d == 6 {
        '6'
    } else if d == 7 {
        '7'
    } else if d == 8 {
        '8'
    } else {
        '9'
    }
}

/// Decimal notation of `n`: no sign, no leading zeros.
pub open spec fn spec_dec(n: nat) -> Seq<char>
    decreases n,
{
    if n < 10 {
        seq![spec_digit_char(n)]
    } else {
        spec_dec(n / 10).push(spec_digit_char(n % 10))
    }
}

/// The lower-case hexadecimal digit character for `d` (`d < 16`).
pub open spec fn spec_hex_char(d: nat) -> char
    recommends
        d < 16,
{
    if d == 0 {
        '0'
    } else if d == 1 {
        '1'
    } else if d == 2 {
        '2'
    } else if d == 3 {
        '3'
    } else if d == 4 {
        '4'
    } else if d == 5 {
        '5'
    } else if d == 6 {
        '6'
    } else if d == 7 {
        '7'
    } else if d == 8 {
        '8'
    } else if d == 9 {
        '9'
    } else if d == 10 {
        'a'
    } else if d == 11 {
        'b'
    } else if d == 12 {
        'c'
    } else if d == 13 {
        'd'
    } else if d == 14 {
        'e'
    } else {
        'f'
    }
}

/// JSON escape of one character inside a quoted string: the quote and the
/// backslash and the five named control characters get their two-character
/// short form, every other control character a `\u00XX` form, and everything
/// else stands as itself.
pub open spec fn spec_escape_char(c: char) -> Seq<char> {
    if c == '"' {
        seq!['\\', '"']
    } else if c == '\\' {
        seq!['\\', '\\']
    } else if c == '\u{8}' {
        seq!['\\', 'b']
    } else if c == '\t' {
        seq!['\\', 't']
    } else if c == '\n' {
        seq!['\\', 'n']
    } else if c == '\u{c}' {
        seq!['\\', 'f']
    } else if c == '\r' {
        seq!['\\', 'r']
    } else if (c as u32) < 0x20 {
        seq![
            '\\',
            'u',
            '0',
            '0',
            spec_hex_char(((c as u32) / 16) as nat),
            spec_hex_char(((c as u32) % 16) as nat),
        ]
    } else {
        seq![c]
    }
}

/// JSON escape of a whole character sequence.
pub open spec fn spec_escape(s: Seq<char>) -> Seq<char>
    decreases s.len(),
{
    if s.len() == 0 {
        Seq::empty()
    } else {
        spec_escape_char(s[0]) + spec_escape(s.drop_first())
    }
}

/// The literal notation of a boolean.
pub open spec fn spec_bool_text(b: bool) -> Seq<char> {
    if b {
        "true"@
    } else {
        "false"@
    }
}

/// The notation of the optional pane ratio: its decimal value, or `null`
/// when unset.
pub open spec fn spec_opt_u32_text(o: Option<u32>) -> Seq<char> {
    match o {
        Some(n) => spec_dec(n as nat),
        None => "null"@,
    }
}

/// The canonical stored form of a configuration document: pretty-printed
/// JSON, two-space indentation, fields in declaration order, string fields
/// escaped by [`spec_escape`].
pub open spec fn spec_encode(v: EditorSettingsView) -> Seq<char> {
    "{\n  \""@ + "fontSize"@ + "\": "@ + spec_dec(v.font_size as nat) + ",\n  \""@
        + "wordWrapColumn"@ + "\": "@ + spec_dec(v.word_wrap_column as nat) + ",\n  \""@
        + "backgroundColor"@ + "\": \""@ + spec_escape(v.background_color) + "\""@ + ",\n  \""@
        + "textColor"@ + "\": \""@ + spec_escape(v.text_color) + "\""@ + ",\n  \""@
        + "fontFamily"@ + "\": \""@ + spec_escape(v.font_family) + "\""@ + ",\n  \""@
        + "autoSave"@ + "\": {\n    \""@ + "enabled"@ + "\": "@ + spec_bool_text(
        v.auto_save.enabled,
    ) + ",\n    \""@ + "interval"@ + "\": "@ + spec_dec(v.auto_save.interval as nat)
        + "\n  }"@ + ",\n  \""@ + "resizerRatio"@ + "\": "@ + spec_opt_u32_text(
        v.resizer_ratio,
    ) + "\n}"@
}

/// Relies on `String::push`: appends exactly the one given character.
#[verifier::external_body]
pub(crate) fn push_char(out: &mut String, c: char)
    ensures
        final (out)@ == old(out)@.push(c),
{
    out.push(c);
}

/// The decimal digit character for `d < 10`.
fn digit_char(d: u32) -> (c: char)
    requires
        d < 10,
    ensures
        c == spec_digit_char(d as nat),
{
    if d == 0 {
        '0'
    } else if d == 1 {
        '1'
    } else if d == 2 {
        '2'
    } else if d == 3 {
        '3'
    } else if d == 4 {
        '4'
    } else if d == 5 {
        '5'
    } else if d == 6 {
        '6'
    } else if d == 7 {
        '7'
    } else if d == 8 {
        '8'
    } else {
        '9'
    }
}

/// The lower-case hexadecimal digit character for `d < 16`.
fn hex_char(d: u32) -> (c: char)
    requires
        d < 16,
    ensures
        c == spec_hex_char(d as nat),
{
    if d < 10 {
        digit_char(d)
    } else if d == 10 {
        'a'
    } else if d == 11 {
        'b'
    } else if d == 12 {
        'c'
    } else if d == 13 {
        'd'
    } else if d == 14 {
        'e'
    } else {
        'f'
    }
}

/// Appends the decimal notation of `n`.
fn push_u32(out: &mut String, n: u32)
    ensures
        final (out)@ == old(out)@ + spec_dec(n as nat),
{
    let mut digits: Vec<char> = Vec::new();
    let mut m: u32 = n;
    loop
        invariant_except_break
            digits@.len() == 0 ==> m == n,
            digits@.len() > 0 ==> m > 0 && spec_dec(n as nat) == spec_dec(m as nat) + digits@,
        ensures
            digits@ == spec_dec(n as nat),
        decreases m,
    {
        let ghost digits0 = digits@;
        let ghost m0 = m;
        let d = m % 10;
        digits.insert(0, digit_char(d));
        proof {
            assert(digits@ =~= seq![spec_digit_char((m0 % 10) as nat)] + digits0);
        }
        m = m / 10;
        if m == 0 {
            proof {
                if digits0.len() == 0 {
                    assert(m0 == n && n < 10);
                    assert(spec_dec(n as nat) =~= digits@);
                } else {
                    assert(m0 < 10);
                    assert(spec_dec(m0 as nat) == seq![spec_digit_char(m0 as nat)]);
                    assert(m0 % 10 == m0);
                    assert(digits@ =~= spec_dec(m0 as nat) + digits0);
                    assert(digits@ =~= spec_dec(n as nat));
                }
            }
            break ;
        }
        proof {
            if digits0.len() == 0 {
                assert(m0 == n && n >= 10);
                assert(spec_dec(n as nat) == spec_dec((n / 10) as nat).push(
                    spec_digit_char((n % 10) as nat),
                ));
                assert(spec_dec(n as nat) =~= spec_dec(m as nat) + digits@);
            } else {
                assert(m0 >= 10);
                assert(spec_dec(m0 as nat) == spec_dec((m0 / 10) as nat).push(
                    spec_digit_char((m0 % 10) as nat),
                ));
                assert(spec_dec(m0 as nat) + digits0 =~= spec_dec(m as nat) + digits@);
                assert(spec_dec(n as nat) =~= spec_dec(m as nat) + digits@);
            }
        }
    }
    let mut i: usize = 0;
    while i < digits.len()
        invariant
            i <= digits@.len(),
            digits@ == spec_dec(n as nat),
            out@ == old(out)@ + spec_dec(n as nat).take(i as int),
        decreases digits@.len() - i,
    {
        push_char(out, digits[i]);
        proof {
            assert(old(out)@ + spec_dec(n as nat).take(i as int + 1) =~= (old(out)@ + spec_dec(
                n as nat,
            ).take(i as int)).push(spec_dec(n as nat)[i as int]));
        }
        i = i + 1;
    }
    proof {
        assert(spec_dec(n as nat).take(digits@.len() as int) =~= spec_dec(n as nat));
    }
}

/// Appending one character to the text being escaped appends exactly that
/// character's escape to the result.
proof fn lemma_escape_push(s: Seq<char>, c: char)
    ensures
        spec_escape(s.push(c)) == spec_escape(s) + spec_escape_char(c),
    decreases s.len(),
{
    if s.len() == 0 {
        assert(s.push(c)[0] == c);
        assert(s.push(c).drop_first() =~= Seq::<char>::empty());
        assert(spec_escape(Seq::<char>::empty()) == Seq::<char>::empty());
        assert(spec_escape(s.push(c)) == spec_escape_char(c) + spec_escape(
            Seq::<char>::empty(),
        ));
        assert(spec_escape(s) == Seq::<char>::empty());
        assert(spec_escape(s.push(c)) =~= spec_escape(s) + spec_escape_char(c));
    } else {
        assert(s.push(c)[0] == s[0]);
        assert(s.push(c).drop_first() =~= s.drop_first().push(c));
        lemma_escape_push(s.drop_first(), c);
        assert(spec_escape(s.push(c)) == spec_escape_char(s[0]) + spec_escape(
            s.drop_first().push(c),
        ));
        assert(spec_escape(s) == spec_escape_char(s[0]) + spec_escape(s.drop_first()));
        assert(spec_escape(s.push(c)) =~= spec_escape(s) + spec_escape_char(c));
    }
}

/// Appends the escape of one character.
fn push_escape_char(out: &mut String, c: char)
    ensures
        final (out)@ == old(out)@ + spec_escape_char(c),
{
    if c == '"' {
        push_char(out, '\\');
        push_char(out, '"');
        proof {
            assert(out@ =~= old(out)@ + spec_escape_char(c));
        }
    } else if c == '\\' {
        push_char(out, '\\');
        push_char(out, '\\');
        proof {
            assert(out@ =~= old(out)@ + spec_escape_char(c));
        }
    } else if c == '\u{8}' {
        push_char(out, '\\');
        push_char(out, 'b');
        proof {
            assert(out@ =~= old(out)@ + spec_escape_char(c));
        }
    } else if c == '\t' {
        push_char(out, '\\');
        push_char(out, 't');
        proof {
            assert(out@ =~= old(out)@ + spec_escape_char(c));
        }
    } else if c == '\n' {
        push_char(out, '\\');
        push_char(out, 'n');
        proof {
            assert(out@ =~= old(out)@ + spec_escape_char(c));
        }
    } else if c == '\u{c}' {
        push_char(out, '\\');
        push_char(out, 'f');
        proof {
            assert(out@ =~= old(out)@ + spec_escape_char(c));
        }
    } else if c == '\r' {
        push_char(out, '\\');
        push_char(out, 'r');
        proof {
            assert(out@ =~= old(out)@ + spec_escape_char(c));
        }
    } else {
        let u = c as u32;
        if u < 0x20 {
            push_char(out, '\\');
            push_char(out, 'u');
            push_char(out, '0');
            push_char(out, '0');
            push_char(out, hex_char(u / 16));
            push_char(out, hex_char(u % 16));
            proof {
                assert(out@ =~= old(out)@ + spec_escape_char(c));
            }
        } else {
            push_char(out, c);
            proof {
                assert(out@ =~= old(out)@ + spec_escape_char(c));
            }
        }
    }
}

/// Appends the JSON escape of the whole text.
fn push_escaped(out: &mut String, s: &str)
    ensures
        final (out)@ == old(out)@ + spec_escape(s@),
{
    let n = s.unicode_len();
    let mut i: usize = 0;
    while i < n
        invariant
            i <= n,
            n == s@.len(),
            out@ == old(out)@ + spec_escape(s@.take(i as int)),
        decreases n - i,
    {
        let c = s.get_char(i);
        push_escape_char(out, c);
        proof {
            assert(s@.take(i as int + 1) =~= s@.take(i as int).push(s@[i as int]));
            lemma_escape_push(s@.take(i as int), s@[i as int]);
        }
        i = i + 1;
    }
    proof {
        assert(s@.take(n as int) =~= s@);
    }
}

/// Produces the canonical stored form of `s`: exactly [`spec_encode`] of its
/// model.  This is the single serialization used by the settings store.
pub fn encode_settings(s: &EditorSettings) -> (r: String)
    ensures
        r@ == spec_encode(s@),
{
    let mut out = String::new();
    out.append("{\n  \"");
    out.append("fontSize");
    out.append("\": ");
    push_u32(&mut out, s.font_size);
    out.append(",\n  \"");
    out.append("wordWrapColumn");
    out.append("\": ");
    push_u32(&mut out, s.word_wrap_column);
    out.append(",\n  \"");
    out.append("backgroundColor");
    out.append("\": \"");
    push_escaped(&mut out, s.background_color.as_str());
    out.append("\"");
    out.append(",\n  \"");
    out.append("textColor");
    out.append("\": \"");
    push_escaped(&mut out, s.text_color.as_str());
    out.append("\"");
    out.append(",\n  \"");
    out.append("fontFamily");
    out.append("\": \"");
    push_escaped(&mut out, s.font_family.as_str());
    out.append("\"");
    out.append(",\n  \"");
    out.append("autoSave");
    out.append("\": {\n    \"");
    out.append("enabled");
    out.append("\": ");
    if s.auto_save.enabled {
        out.append("true");
    } else {
        out.append("false");
    }
    out.append(",\n    \"");
    out.append("interval");
    out.append("\": ");
    push_u32(&mut out, s.auto_save.interval);
    out.append("\n  }");
    out.append(",\n  \"");
    out.append("resizerRatio");
    out.append("\": ");
    match s.resizer_ratio {
        Some(ratio) => push_u32(&mut out, ratio),
        None => out.append("null"),
    }
    out.append("\n}");
    proof {
        assert(out@ =~= spec_encode(s@));
    }
    out
}

} // verus!
