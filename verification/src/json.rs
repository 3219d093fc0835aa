//! The textual exchange format of the picker boundary.
//!
//! Capture-source lists travel to the picker subprocess, and the chosen
//! source travels back, as compact JSON: a monitor is encoded as
//! `{"Monitor":{"monitor_name":"..."}}`, a window as
//! `{"Window":{"window_id":1,"window_name":"...","icon_path":...}}` with
//! `icon_path` either a string or `null`, and a list as a `[...]` array of
//! such objects.  The encoder and the decoder below are both verified
//! against the specification functions of this module, and decoding is
//! proved to invert encoding.

use vstd::prelude::*;

verus! {

use crate::source::SourceView;
use crate::strutil::push_char;
use vstd::string::StrSliceExecFns;

// ---------------------------------------------------------------------------
// Characters
// ---------------------------------------------------------------------------

/// The decimal digit character for `d` (meaningful for `0 <= d <= 9`).
pub open spec fn digit_char(d: int) -> char {
    (48 + d) as char
}

/// The lower-case hexadecimal digit character for `d` (for `0 <= d <= 15`).
pub open spec fn hex_char(d: int) -> char {
    if d < 10 {
        (48 + d) as char
    } else {
        (87 + d) as char
    }
}

pub open spec fn is_digit(c: char) -> bool {
    48 <= c as u32 <= 57
}

pub open spec fn digit_val(c: char) -> int {
    c as u32 - 48
}

pub open spec fn is_hex_digit(c: char) -> bool {
    is_digit(c) || (97 <= c as u32 <= 102)
}

pub open spec fn hex_val(c: char) -> int {
    if is_digit(c) {
        digit_val(c)
    } else {
        c as u32 - 87
    }
}

/// JSON whitespace.
pub open spec fn is_ws(c: char) -> bool {
    c == ' ' || c == '\t' || c == '\n' || c == '\r'
}

/// `c` is a Unicode scalar value.  Every character a program can hold
/// satisfies this; a `Seq<char>` taken in the abstract does not carry the
/// bound, so specifications over raw sequences state it explicitly.
pub open spec fn valid_char(c: char) -> bool {
    0 <= c as int && (c as int <= 0xD7FF || (0xE000 <= c as int && c as int <= 0x10FFFF))
}

/// Every character of `s` is a Unicode scalar value.
pub open spec fn wf_string(s: Seq<char>) -> bool {
    forall|k: int| 0 <= k < s.len() ==> valid_char(#[trigger] s[k])
}

/// Every character sequence of `v` is made of Unicode scalar values.
pub open spec fn wf_source_view(v: SourceView) -> bool {
    match v {
        SourceView::Monitor { monitor_name } => wf_string(monitor_name),
        SourceView::Window { window_id, window_name, icon_path } => wf_string(window_name)
            && match icon_path {
            Some(p) => wf_string(p),
            None => true,
        },
    }
}

// ---------------------------------------------------------------------------
// Encoding
// ---------------------------------------------------------------------------

/// How one character appears inside a JSON string literal: quote and
/// backslash get a backslash escape, the control characters with short
/// escapes use them, the remaining control characters use `\u00xx`, and
/// everything else stands for itself.
pub open spec fn escape_char(c: char) -> Seq<char> {
    if c == '"' {
        seq!['\\', '"']
    } else if c == '\\' {
        seq!['\\', '\\']
    } else if c == '\u{08}' {
        seq!['\\', 'b']
    } else if c == '\u{09}' {
        seq!['\\', 't']
    } else if c == '\u{0A}' {
        seq!['\\', 'n']
    } else if c == '\u{0C}' {
        seq!['\\', 'f']
    } else if c == '\u{0D}' {
        seq!['\\', 'r']
    } else if (c as u32) < 0x20 {
        seq!['\\', 'u', '0', '0', hex_char(c as int / 16), hex_char(c as int % 16)]
    } else {
        seq![c]
    }
}

pub open spec fn escape_string(s: Seq<char>) -> Seq<char>
    decreases s.len(),
{
    if s.len() == 0 {
        Seq::empty()
    } else {
        escape_char(s[0]) + escape_string(s.drop_first())
    }
}

/// A JSON string literal: the escaped characters between quotes.
pub open spec fn encode_string(s: Seq<char>) -> Seq<char> {
    seq!['"'] + escape_string(s) + seq!['"']
}

/// The canonical decimal numeral of `n` (meaningful for `n >= 0`).
pub open spec fn dec_digits(n: int) -> Seq<char>
    decreases n,
{
    if n < 10 {
        seq![digit_char(n)]
    } else {
        dec_digits(n / 10).push(digit_char(n % 10))
    }
}

/// The JSON object for one capture source.
pub open spec fn encode_source_view(v: SourceView) -> Seq<char> {
    match v {
        SourceView::Monitor { monitor_name } => ("{\"Monitor\":{\"monitor_name\":")@
            + encode_string(monitor_name) + ("}}")@,
        SourceView::Window { window_id, window_name, icon_path } => ("{\"Window\":{\"window_id\":")@
            + dec_digits(window_id as int) + (",\"window_name\":")@ + encode_string(window_name)
            + (",\"icon_path\":")@ + match icon_path {
            Some(p) => encode_string(p),
            None => ("null")@,
        } + ("}}")@,
    }
}

pub open spec fn encode_source_list(vs: Seq<SourceView>) -> Seq<char>
    decreases vs.len(),
{
    if vs.len() == 0 {
        Seq::empty()
    } else if vs.len() == 1 {
        encode_source_view(vs[0])
    } else {
        encode_source_view(vs[0]) + seq![','] + encode_source_list(vs.drop_first())
    }
}

/// The JSON array for a list of capture sources.
pub open spec fn encode_sources_view(vs: Seq<SourceView>) -> Seq<char> {
    seq!['['] + encode_source_list(vs) + seq![']']
}

// ---------------------------------------------------------------------------
// Decoding
// ---------------------------------------------------------------------------

/// The literal `lit` stands in `s` at position `i`.
pub open spec fn lit_at(s: Seq<char>, i: int, lit: Seq<char>) -> bool {
    0 <= i && i + lit.len() <= s.len() && s.subrange(i, i + lit.len()) == lit
}

/// The character a short backslash escape stands for.
pub open spec fn short_unescape(e: char) -> Option<char> {
    if e == '"' {
        Some('"')
    } else if e == '\\' {
        Some('\\')
    } else if e == '/' {
        Some('/')
    } else if e == 'b' {
        Some('\u{08}')
    } else if e == 't' {
        Some('\u{09}')
    } else if e == 'n' {
        Some('\u{0A}')
    } else if e == 'f' {
        Some('\u{0C}')
    } else if e == 'r' {
        Some('\u{0D}')
    } else {
        None
    }
}

/// Parse the interior of a JSON string literal starting after the opening
/// quote; yields the decoded content and the position after the closing
/// quote.
pub open spec fn parse_string_body(s: Seq<char>, i: int) -> Option<(Seq<char>, int)>
    decreases s.len() - i,
{
    if i < 0 || i >= s.len() {
        None
    } else if s[i] == '"' {
        Some((Seq::empty(), i + 1))
    } else if s[i] == '\\' {
        if i + 1 >= s.len() {
            None
        } else if s[i + 1] == 'u' {
            if i + 6 <= s.len() && is_hex_digit(s[i + 2]) && is_hex_digit(s[i + 3]) && is_hex_digit(
                s[i + 4],
            ) && is_hex_digit(s[i + 5]) {
                let v = ((hex_val(s[i + 2]) * 16 + hex_val(s[i + 3])) * 16 + hex_val(s[i + 4])) * 16
                    + hex_val(s[i + 5]);
                if v < 0xD800 || v >= 0xE000 {
                    match parse_string_body(s, i + 6) {
                        Some((t, j)) => Some((seq![v as char] + t, j)),
                        None => None,
                    }
                } else {
                    None
                }
            } else {
                None
            }
        } else {
            match short_unescape(s[i + 1]) {
                Some(c) => match parse_string_body(s, i + 2) {
                    Some((t, j)) => Some((seq![c] + t, j)),
                    None => None,
                },
                None => None,
            }
        }
    } else if (s[i] as u32) < 0x20 {
        None
    } else {
        match parse_string_body(s, i + 1) {
            Some((t, j)) => Some((seq![s[i]] + t, j)),
            None => None,
        }
    }
}

/// Parse a complete JSON string literal at position `i`.
pub open spec fn parse_string(s: Seq<char>, i: int) -> Option<(Seq<char>, int)> {
    if 0 <= i && i < s.len() && s[i] == '"' {
        parse_string_body(s, i + 1)
    } else {
        None
    }
}

/// The first position at or after `i` that does not hold a decimal digit.
pub open spec fn digit_end(s: Seq<char>, i: int) -> int
    decreases s.len() - i,
{
    if 0 <= i && i < s.len() && is_digit(s[i]) {
        digit_end(s, i + 1)
    } else {
        i
    }
}

/// The value of the digits of `s` in positions `i ..= j-1`.
pub open spec fn digits_value(s: Seq<char>, i: int, j: int) -> int
    decreases j - i,
{
    if i >= j {
        0
    } else {
        digits_value(s, i, j - 1) * 10 + digit_val(s[j - 1])
    }
}

/// Parse a decimal numeral at position `i` into a `u64`.
pub open spec fn parse_u64(s: Seq<char>, i: int) -> Option<(u64, int)> {
    let j = digit_end(s, i);
    if j == i || digits_value(s, i, j) > u64::MAX {
        None
    } else {
        Some((digits_value(s, i, j) as u64, j))
    }
}

/// Parse one capture-source object at position `i`.
pub open spec fn parse_source(s: Seq<char>, i: int) -> Option<(SourceView, int)> {
    if lit_at(s, i, ("{\"Monitor\":{\"monitor_name\":")@) {
        match parse_string(s, i + ("{\"Monitor\":{\"monitor_name\":")@.len()) {
            Some((name, j)) => if lit_at(s, j, ("}}")@) {
                Some((SourceView::Monitor { monitor_name: name }, j + 2))
            } else {
                None
            },
            None => None,
        }
    } else if lit_at(s, i, ("{\"Window\":{\"window_id\":")@) {
        match parse_u64(s, i + ("{\"Window\":{\"window_id\":")@.len()) {
            Some((id, j)) => if lit_at(s, j, (",\"window_name\":")@) {
                match parse_string(s, j + (",\"window_name\":")@.len()) {
                    Some((name, k)) => if lit_at(s, k, (",\"icon_path\":")@) {
                        let m = k + (",\"icon_path\":")@.len();
                        if lit_at(s, m, ("null")@) {
                            if lit_at(s, m + 4, ("}}")@) {
                                Some(
                                    (
                                        SourceView::Window {
                                            window_id: id,
                                            window_name: name,
                                            icon_path: None,
                                        },
                                        m + 6,
                                    ),
                                )
                            } else {
                                None
                            }
                        } else {
                            match parse_string(s, m) {
                                Some((icon, p)) => if lit_at(s, p, ("}}")@) {
                                    Some(
                                        (
                                            SourceView::Window {
                                                window_id: id,
                                                window_name: name,
                                                icon_path: Some(icon),
                                            },
                                            p + 2,
                                        ),
                                    )
                                } else {
                                    None
                                },
                                None => None,
                            }
                        }
                    } else {
                        None
                    },
                    None => None,
                }
            } else {
                None
            },
            None => None,
        }
    } else {
        None
    }
}

/// Parse one or more comma-separated capture sources followed by `]`,
/// starting at position `i` (just after `[` or a `,`).
pub open spec fn parse_source_list(s: Seq<char>, i: int) -> Option<(Seq<SourceView>, int)>
    decreases s.len() - i,
{
    match parse_source(s, i) {
        Some((v, j)) =>
        // A parsed source always stands on at least one character; the
        // `j > i` guard makes that visible to the termination check.
        if j > i && j < s.len() && s[j] == ',' {
            match parse_source_list(s, j + 1) {
                Some((vs, k)) => Some((seq![v] + vs, k)),
                None => None,
            }
        } else if j < s.len() && s[j] == ']' {
            Some((seq![v], j + 1))
        } else {
            None
        },
        None => None,
    }
}

/// Parse a capture-source array at position `i`.
pub open spec fn parse_sources(s: Seq<char>, i: int) -> Option<(Seq<SourceView>, int)> {
    if 0 <= i && i < s.len() && s[i] == '[' {
        if i + 1 < s.len() && s[i + 1] == ']' {
            Some((Seq::empty(), i + 2))
        } else {
            parse_source_list(s, i + 1)
        }
    } else {
        None
    }
}

/// The first position at or after `i` that holds no whitespace.
pub open spec fn skip_ws(s: Seq<char>, i: int) -> int
    decreases s.len() - i,
{
    if 0 <= i && i < s.len() && is_ws(s[i]) {
        skip_ws(s, i + 1)
    } else {
        i
    }
}

/// The capture source denoted by `s`: one source object, possibly
/// surrounded by whitespace, and nothing else.
pub open spec fn decode_source_spec(s: Seq<char>) -> Option<SourceView> {
    match parse_source(s, skip_ws(s, 0)) {
        Some((v, j)) => if skip_ws(s, j) == s.len() {
            Some(v)
        } else {
            None
        },
        None => None,
    }
}

/// The capture-source list denoted by `s`: one array, possibly surrounded
/// by whitespace, and nothing else.
pub open spec fn decode_sources_spec(s: Seq<char>) -> Option<Seq<SourceView>> {
    match parse_sources(s, skip_ws(s, 0)) {
        Some((vs, j)) => if skip_ws(s, j) == s.len() {
            Some(vs)
        } else {
            None
        },
        None => None,
    }
}

// ---------------------------------------------------------------------------
// Decoding inverts encoding
// ---------------------------------------------------------------------------

/// A subrange equal to a concatenation splits into two subranges.
proof fn lemma_split_at(s: Seq<char>, i: int, a: Seq<char>, b: Seq<char>)
    requires
        0 <= i,
        i + a.len() + b.len() <= s.len(),
        s.subrange(i, i + a.len() + b.len()) == a + b,
    ensures
        s.subrange(i, i + a.len()) == a,
        s.subrange(i + a.len(), i + a.len() + b.len()) == b,
{
    let w = s.subrange(i, i + a.len() + b.len());
    assert forall|k: int| 0 <= k < a.len() implies s.subrange(i, i + a.len())[k] == a[k] by {
        assert(w[k] == (a + b)[k]);
    }
    assert(s.subrange(i, i + a.len()) =~= a);
    assert forall|k: int| 0 <= k < b.len() implies s.subrange(
        i + a.len(),
        i + a.len() + b.len(),
    )[k] == b[k] by {
        assert(w[a.len() + k] == (a + b)[a.len() + k]);
    }
    assert(s.subrange(i + a.len(), i + a.len() + b.len()) =~= b);
}

proof fn lemma_escape_string_concat(a: Seq<char>, b: Seq<char>)
    ensures
        escape_string(a + b) == escape_string(a) + escape_string(b),
    decreases a.len(),
{
    if a.len() == 0 {
        assert(a + b =~= b);
        assert(escape_string(a) + escape_string(b) =~= escape_string(b));
    } else {
        assert((a + b)[0] == a[0]);
        assert((a + b).drop_first() =~= a.drop_first() + b);
        lemma_escape_string_concat(a.drop_first(), b);
        assert(escape_char(a[0]) + (escape_string(a.drop_first()) + escape_string(b)) =~= (
        escape_char(a[0]) + escape_string(a.drop_first())) + escape_string(b));
    }
}

/// Every character of a decimal numeral is a digit.
proof fn lemma_dec_digits_are_digits(n: int)
    requires
        0 <= n,
    ensures
        dec_digits(n).len() >= 1,
        forall|k: int| 0 <= k < dec_digits(n).len() ==> is_digit(#[trigger] dec_digits(n)[k]),
    decreases n,
{
    if n < 10 {
        assert(is_digit(digit_char(n)));
    } else {
        lemma_dec_digits_are_digits(n / 10);
        assert(is_digit(digit_char(n % 10)));
    }
}

/// Where a run of digits ends is determined by the characters alone.
proof fn lemma_digit_end(s: Seq<char>, i: int, j: int)
    requires
        0 <= i <= j <= s.len(),
        forall|k: int| i <= k < j ==> is_digit(#[trigger] s[k]),
        j == s.len() || !is_digit(s[j]),
    ensures
        digit_end(s, i) == j,
    decreases j - i,
{
    if i < j {
        lemma_digit_end(s, i + 1, j);
    }
}

/// The digits of the canonical numeral of `n` evaluate back to `n`.
proof fn lemma_digits_value_of_dec(s: Seq<char>, i: int, n: int)
    requires
        0 <= i,
        0 <= n,
        i + dec_digits(n).len() <= s.len(),
        s.subrange(i, i + dec_digits(n).len()) == dec_digits(n),
    ensures
        digits_value(s, i, i + dec_digits(n).len()) == n,
    decreases n,
{
    let d = dec_digits(n);
    if n < 10 {
        assert(s[i] == s.subrange(i, i + 1)[0]);
        assert(digits_value(s, i, i) == 0);
        assert(digits_value(s, i, i + 1) == digit_val(digit_char(n)));
    } else {
        let dq = dec_digits(n / 10);
        assert(d == dq.push(digit_char(n % 10)));
        assert(dq.push(digit_char(n % 10)) =~= dq + seq![digit_char(n % 10)]);
        lemma_split_at(s, i, dq, seq![digit_char(n % 10)]);
        lemma_digits_value_of_dec(s, i, n / 10);
        assert(s[i + dq.len()] == s.subrange(i + dq.len(), i + dq.len() + 1)[0]);
        assert(digits_value(s, i, i + d.len()) == digits_value(s, i, i + dq.len()) * 10
            + digit_val(s[i + d.len() - 1]));
    }
}

/// Parsing a number inverts writing one, when no digit follows it.
proof fn lemma_parse_u64(s: Seq<char>, i: int, n: u64)
    requires
        0 <= i,
        i + dec_digits(n as int).len() <= s.len(),
        s.subrange(i, i + dec_digits(n as int).len()) == dec_digits(n as int),
        i + dec_digits(n as int).len() == s.len() || !is_digit(s[i + dec_digits(n as int).len()]),
    ensures
        parse_u64(s, i) == Some((n, i + dec_digits(n as int).len())),
{
    let d = dec_digits(n as int);
    lemma_dec_digits_are_digits(n as int);
    assert forall|k: int| i <= k < i + d.len() implies is_digit(#[trigger] s[k]) by {
        assert(s[k] == s.subrange(i, i + d.len())[k - i]);
    }
    lemma_digit_end(s, i, i + d.len());
    lemma_digits_value_of_dec(s, i, n as int);
}

/// Parsing a string body inverts escaping, up to the closing quote.
proof fn lemma_parse_string_body(s: Seq<char>, i: int, name: Seq<char>)
    requires
        wf_string(name),
        0 <= i,
        i + escape_string(name).len() + 1 <= s.len(),
        s.subrange(i, i + escape_string(name).len() + 1) == escape_string(name).push('"'),
    ensures
        parse_string_body(s, i) == Some((name, i + escape_string(name).len() + 1)),
    decreases name.len(),
{
    let esc = escape_string(name);
    assert(esc.push('"') =~= esc + seq!['"']);
    if name.len() == 0 {
        assert(s[i] == s.subrange(i, i + 1)[0]);
        assert(s[i] == '"');
        assert(name =~= Seq::<char>::empty());
    } else {
        let c = name[0];
        let e = escape_char(c);
        let rest = name.drop_first();
        let resc = escape_string(rest);
        assert(esc == e + resc);
        assert(name =~= seq![c] + rest);
        assert(valid_char(c));
        assert forall|k: int| 0 <= k < rest.len() implies valid_char(#[trigger] rest[k]) by {
            assert(rest[k] == name[k + 1]);
        }
        let tail = resc + seq!['"'];
        assert(esc + seq!['"'] =~= e + tail);
        assert(s.subrange(i, i + e.len() + tail.len()) == e + tail);
        lemma_split_at(s, i, e, tail);
        assert forall|k: int| 0 <= k < e.len() implies s[i + k] == e[k] by {
            assert(s.subrange(i, i + e.len())[k] == s[i + k]);
        }
        assert(s.subrange(i + e.len(), i + e.len() + tail.len()) == tail);
        assert(tail =~= resc.push('"'));
        lemma_parse_string_body(s, i + e.len(), rest);
        let after = i + esc.len() + 1;
        assert(parse_string_body(s, i + e.len()) == Some((rest, after)));
        if c == '"' {
            assert(e == seq!['\\', '"']);
            assert(s[i] == '\\' && s[i + 1] == '"');
            assert(parse_string_body(s, i) == Some((seq![c] + rest, after)));
        } else if c == '\\' {
            assert(s[i] == '\\' && s[i + 1] == '\\');
            assert(parse_string_body(s, i) == Some((seq![c] + rest, after)));
        } else if c == '\u{08}' {
            assert(s[i] == '\\' && s[i + 1] == 'b');
            assert(parse_string_body(s, i) == Some((seq![c] + rest, after)));
        } else if c == '\u{09}' {
            assert(s[i] == '\\' && s[i + 1] == 't');
            assert(parse_string_body(s, i) == Some((seq![c] + rest, after)));
        } else if c == '\u{0A}' {
            assert(s[i] == '\\' && s[i + 1] == 'n');
            assert(parse_string_body(s, i) == Some((seq![c] + rest, after)));
        } else if c == '\u{0C}' {
            assert(s[i] == '\\' && s[i + 1] == 'f');
            assert(parse_string_body(s, i) == Some((seq![c] + rest, after)));
        } else if c == '\u{0D}' {
            assert(s[i] == '\\' && s[i + 1] == 'r');
            assert(parse_string_body(s, i) == Some((seq![c] + rest, after)));
        } else if (c as u32) < 0x20 {
            let hi = c as int / 16;
            let lo = c as int % 16;
            assert(e == seq!['\\', 'u', '0', '0', hex_char(hi), hex_char(lo)]);
            assert(s[i] == '\\' && s[i + 1] == 'u');
            assert(s[i + 2] == '0' && s[i + 3] == '0');
            assert(s[i + 4] == hex_char(hi) && s[i + 5] == hex_char(lo));
            assert((c as u32) as int == c as int);
            assert(0 <= (c as int) && (c as int) < 0x20);
            assert(0 <= hi < 2 && 0 <= lo < 16) by (nonlinear_arith)
                requires
                    hi == (c as int) / 16,
                    lo == (c as int) % 16,
                    0 <= (c as int) && (c as int) < 0x20,
            ;
            assert(is_hex_digit('0') && hex_val('0') == 0);
            assert(is_hex_digit(hex_char(hi)) && hex_val(hex_char(hi)) == hi);
            assert(is_hex_digit(hex_char(lo)) && hex_val(hex_char(lo)) == lo);
            let v = ((hex_val(s[i + 2]) * 16 + hex_val(s[i + 3])) * 16 + hex_val(s[i + 4])) * 16
                + hex_val(s[i + 5]);
            assert(v == hi * 16 + lo);
            assert(v == c as int);
            assert(v < 0xD800);
            assert((v as char) == c);
            assert(parse_string_body(s, i) == Some((seq![c] + rest, after)));
        } else {
            assert(e == seq![c]);
            assert(s[i] == c);
            assert(parse_string_body(s, i) == Some((seq![c] + rest, after)));
        }
        assert(seq![c] + rest == name);
    }
}

/// Parsing a string literal inverts encoding one.
proof fn lemma_parse_string(s: Seq<char>, i: int, name: Seq<char>)
    requires
        wf_string(name),
        0 <= i,
        i + encode_string(name).len() <= s.len(),
        s.subrange(i, i + encode_string(name).len()) == encode_string(name),
    ensures
        parse_string(s, i) == Some((name, i + encode_string(name).len())),
{
    let esc = escape_string(name);
    let enc = encode_string(name);
    assert(enc =~= seq!['"'] + esc.push('"'));
    lemma_split_at(s, i, seq!['"'], esc.push('"'));
    assert(s[i] == s.subrange(i, i + 1)[0]);
    assert(s[i] == '"');
    assert(s.subrange(i + 1, i + 1 + esc.len() + 1) == esc.push('"'));
    lemma_parse_string_body(s, i + 1, name);
}

/// Every source of `vs` is made of Unicode scalar values.
pub open spec fn wf_sources_view(vs: Seq<SourceView>) -> bool {
    forall|k: int| 0 <= k < vs.len() ==> wf_source_view(#[trigger] vs[k])
}

/// An encoded source is never empty and opens with a brace.
proof fn lemma_encode_source_starts_brace(v: SourceView)
    ensures
        encode_source_view(v).len() > 0,
        encode_source_view(v)[0] == '{',
{
    reveal_strlit("{\"Monitor\":{\"monitor_name\":");
    reveal_strlit("{\"Window\":{\"window_id\":");
    match v {
        SourceView::Monitor { monitor_name } => {
            assert(encode_source_view(v)[0] == ("{\"Monitor\":{\"monitor_name\":")@[0]);
        },
        SourceView::Window { window_id, window_name, icon_path } => {
            assert(encode_source_view(v)[0] == ("{\"Window\":{\"window_id\":")@[0]);
        },
    }
}

/// Parsing one source object inverts encoding one.
proof fn lemma_parse_source(s: Seq<char>, i: int, v: SourceView)
    requires
        wf_source_view(v),
        0 <= i,
        i + encode_source_view(v).len() <= s.len(),
        s.subrange(i, i + encode_source_view(v).len()) == encode_source_view(v),
    ensures
        parse_source(s, i) == Some((v, i + encode_source_view(v).len())),
{
    reveal_strlit("{\"Monitor\":{\"monitor_name\":");
    reveal_strlit("{\"Window\":{\"window_id\":");
    reveal_strlit(",\"window_name\":");
    reveal_strlit(",\"icon_path\":");
    reveal_strlit("null");
    reveal_strlit("}}");
    let enc = encode_source_view(v);
    let lm = ("{\"Monitor\":{\"monitor_name\":")@;
    let lw = ("{\"Window\":{\"window_id\":")@;
    let ln = (",\"window_name\":")@;
    let li = (",\"icon_path\":")@;
    let end = ("}}")@;
    match v {
        SourceView::Monitor { monitor_name } => {
            let es = encode_string(monitor_name);
            assert(enc =~= lm + (es + end));
            lemma_split_at(s, i, lm, es + end);
            assert(lit_at(s, i, lm));
            lemma_split_at(s, i + lm.len(), es, end);
            lemma_parse_string(s, i + lm.len(), monitor_name);
            let j = i + lm.len() + es.len();
            assert(lit_at(s, j, end));
            assert(j + 2 == i + enc.len());
        },
        SourceView::Window { window_id, window_name, icon_path } => {
            let dd = dec_digits(window_id as int);
            let en = encode_string(window_name);
            let ei = match icon_path {
                Some(p) => encode_string(p),
                None => ("null")@,
            };
            assert(enc =~= lw + (dd + (ln + (en + (li + (ei + end))))));
            lemma_split_at(s, i, lw, dd + (ln + (en + (li + (ei + end)))));
            assert(lit_at(s, i, lw));
            // The monitor literal does not stand here: the two literals
            // differ at their third character.
            assert(s[i + 2] == s.subrange(i, i + lw.len())[2]);
            assert(s[i + 2] == 'W');
            if lit_at(s, i, lm) {
                assert(s[i + 2] == s.subrange(i, i + lm.len())[2]);
                assert(s[i + 2] == 'M');
            }
            assert(!lit_at(s, i, lm));
            let i1 = i + lw.len();
            lemma_split_at(s, i1, dd, ln + (en + (li + (ei + end))));
            let j = i1 + dd.len();
            assert(s[j] == s.subrange(j, j + ln.len() + (en + (li + (ei + end))).len())[0]);
            assert(s[j] == ',');
            assert(!is_digit(','));
            lemma_parse_u64(s, i1, window_id);
            lemma_split_at(s, j, ln, en + (li + (ei + end)));
            assert(lit_at(s, j, ln));
            let j1 = j + ln.len();
            lemma_split_at(s, j1, en, li + (ei + end));
            lemma_parse_string(s, j1, window_name);
            let k = j1 + en.len();
            lemma_split_at(s, k, li, ei + end);
            assert(lit_at(s, k, li));
            let m = k + li.len();
            lemma_split_at(s, m, ei, end);
            assert(lit_at(s, m + ei.len(), end));
            match icon_path {
                Some(p) => {
                    assert(s[m] == s.subrange(m, m + ei.len())[0]);
                    assert(s[m] == '"');
                    if lit_at(s, m, ("null")@) {
                        assert(s[m] == s.subrange(m, m + 4)[0]);
                        assert(s[m] == 'n');
                    }
                    assert(!lit_at(s, m, ("null")@));
                    lemma_parse_string(s, m, p);
                    let p3 = m + ei.len();
                    assert(p3 + 2 == i + enc.len());
                },
                None => {
                    assert(lit_at(s, m, ("null")@));
                    assert(lit_at(s, m + 4, end));
                    assert(m + 6 == i + enc.len());
                },
            }
        },
    }
}

/// Parsing a comma-separated run of sources, through the closing bracket,
/// inverts encoding the list.
proof fn lemma_parse_source_list(s: Seq<char>, i: int, vs: Seq<SourceView>)
    requires
        wf_sources_view(vs),
        vs.len() >= 1,
        0 <= i,
        i + encode_source_list(vs).len() + 1 <= s.len(),
        s.subrange(i, i + encode_source_list(vs).len() + 1) == encode_source_list(vs).push(']'),
    ensures
        parse_source_list(s, i) == Some((vs, i + encode_source_list(vs).len() + 1)),
    decreases vs.len(),
{
    let e0 = encode_source_view(vs[0]);
    lemma_encode_source_starts_brace(vs[0]);
    if vs.len() == 1 {
        assert(encode_source_list(vs) == e0);
        assert(encode_source_list(vs).push(']') =~= e0 + seq![']']);
        lemma_split_at(s, i, e0, seq![']']);
        lemma_parse_source(s, i, vs[0]);
        let j = i + e0.len();
        assert(s[j] == s.subrange(j, j + 1)[0]);
        assert(s[j] == ']');
        assert(seq![vs[0]] =~= vs);
    } else {
        let rest = vs.drop_first();
        assert forall|k: int| 0 <= k < rest.len() implies wf_source_view(#[trigger] rest[k]) by {
            assert(rest[k] == vs[k + 1]);
        }
        let lr = encode_source_list(rest);
        assert(encode_source_list(vs) == e0 + seq![','] + lr);
        assert(encode_source_list(vs).push(']') =~= e0 + (seq![','] + lr.push(']')));
        lemma_split_at(s, i, e0, seq![','] + lr.push(']'));
        lemma_parse_source(s, i, vs[0]);
        let j = i + e0.len();
        lemma_split_at(s, j, seq![','], lr.push(']'));
        assert(s[j] == s.subrange(j, j + 1)[0]);
        assert(s[j] == ',');
        lemma_parse_source_list(s, j + 1, rest);
        assert(seq![vs[0]] + rest =~= vs);
    }
}

/// Parsing an array inverts encoding a list of sources.
proof fn lemma_parse_sources(s: Seq<char>, i: int, vs: Seq<SourceView>)
    requires
        wf_sources_view(vs),
        0 <= i,
        i + encode_sources_view(vs).len() <= s.len(),
        s.subrange(i, i + encode_sources_view(vs).len()) == encode_sources_view(vs),
    ensures
        parse_sources(s, i) == Some((vs, i + encode_sources_view(vs).len())),
{
    let lst = encode_source_list(vs);
    let enc = encode_sources_view(vs);
    assert(enc =~= seq!['['] + (lst + seq![']']));
    lemma_split_at(s, i, seq!['['], lst + seq![']']);
    assert(s[i] == s.subrange(i, i + 1)[0]);
    assert(s[i] == '[');
    assert(s.subrange(i + 1, i + 1 + lst.len() + 1) == lst + seq![']']);
    if vs.len() == 0 {
        assert(lst.len() == 0);
        assert(s[i + 1] == (lst + seq![']'])[0]);
        assert(s[i + 1] == ']');
        assert(Seq::<SourceView>::empty() =~= vs);
    } else {
        lemma_encode_source_starts_brace(vs[0]);
        assert(lst[0] == encode_source_view(vs[0])[0]);
        assert(s[i + 1] == (lst + seq![']'])[0]);
        assert(s[i + 1] == '{');
        assert(lst + seq![']'] =~= lst.push(']'));
        lemma_parse_source_list(s, i + 1, vs);
    }
}

/// Law: decoding inverts encoding for one capture source.
pub proof fn lemma_source_round_trip(v: SourceView)
    requires
        wf_source_view(v),
    ensures
        decode_source_spec(encode_source_view(v)) == Some(v),
{
    let s = encode_source_view(v);
    lemma_encode_source_starts_brace(v);
    assert(!is_ws('{'));
    assert(skip_ws(s, 0) == 0);
    assert(s.subrange(0, s.len() as int) =~= s);
    lemma_parse_source(s, 0, v);
    assert(skip_ws(s, s.len() as int) == s.len());
}

/// Law: decoding inverts encoding for a list of capture sources.
pub proof fn lemma_sources_round_trip(vs: Seq<SourceView>)
    requires
        wf_sources_view(vs),
    ensures
        decode_sources_spec(encode_sources_view(vs)) == Some(vs),
{
    let s = encode_sources_view(vs);
    assert(s[0] == '[');
    assert(!is_ws('['));
    assert(skip_ws(s, 0) == 0);
    assert(s.subrange(0, s.len() as int) =~= s);
    lemma_parse_sources(s, 0, vs);
    assert(skip_ws(s, s.len() as int) == s.len());
}

// ---------------------------------------------------------------------------
// The executable encoder
// ---------------------------------------------------------------------------

/// The hexadecimal digit character for `d`.
fn hex_char_of(d: u32) -> (r: char)
    requires
        d < 16,
    ensures
        r == hex_char(d as int),
{
    match d {
        0 => '0',
        1 => '1',
        2 => '2',
        3 => '3',
        4 => '4',
        5 => '5',
        6 => '6',
        7 => '7',
        8 => '8',
        9 => '9',
        10 => 'a',
        11 => 'b',
        12 => 'c',
        13 => 'd',
        14 => 'e',
        _ => 'f',
    }
}

/// The decimal digit character for `d`.
fn digit_char_of(d: u64) -> (r: char)
    requires
        d < 10,
    ensures
        r == digit_char(d as int),
{
    match d {
        0 => '0',
        1 => '1',
        2 => '2',
        3 => '3',
        4 => '4',
        5 => '5',
        6 => '6',
        7 => '7',
        8 => '8',
        _ => '9',
    }
}

/// Append the canonical decimal numeral of `n`.
pub(crate) fn push_u64(out: &mut String, n: u64)
    ensures
        final(out)@ == old(out)@ + dec_digits(n as int),
    decreases n,
{
    if n < 10 {
        push_char(out, digit_char_of(n));
        proof {
            assert(old(out)@.push(digit_char(n as int)) =~= old(out)@ + dec_digits(n as int));
        }
    } else {
        push_u64(out, n / 10);
        push_char(out, digit_char_of(n % 10));
        proof {
            assert((n / 10) as int == n as int / 10);
            assert((n % 10) as int == n as int % 10);
            assert((old(out)@ + dec_digits(n as int / 10)).push(digit_char(n as int % 10)) =~= old(
                out,
            )@ + dec_digits(n as int));
        }
    }
}

/// Append the escaped form of the characters of `s`.
#[verifier::rlimit(60)]
fn append_escaped(out: &mut String, s: &str)
    ensures
        final(out)@ == old(out)@ + escape_string(s@),
{
    let n = s.unicode_len();
    for i in 0..n
        invariant
            n == s@.len(),
            out@ == old(out)@ + escape_string(s@.take(i as int)),
    {
        let c = s.get_char(i);
        let ghost pre = out@;
        proof {
            assert(s@.take(i + 1) =~= s@.take(i as int).push(c));
            assert(s@.take(i as int).push(c) =~= s@.take(i as int) + seq![c]);
            lemma_escape_string_concat(s@.take(i as int), seq![c]);
            assert(seq![c].drop_first() =~= Seq::<char>::empty());
            assert(escape_string(Seq::<char>::empty()) =~= Seq::<char>::empty());
            assert(escape_string(seq![c]) == escape_char(seq![c][0]) + escape_string(
                seq![c].drop_first(),
            ));
            assert(escape_char(c) + Seq::<char>::empty() =~= escape_char(c));
            assert(escape_string(seq![c]) =~= escape_char(c));
        }
        if c == '"' {
            push_char(out, '\\');
            push_char(out, '"');
            proof {
                assert(pre.push('\\').push('"') =~= pre + escape_char(c));
            }
        } else if c == '\\' {
            push_char(out, '\\');
            push_char(out, '\\');
            proof {
                assert(pre.push('\\').push('\\') =~= pre + escape_char(c));
            }
        } else if c == '\u{08}' {
            push_char(out, '\\');
            push_char(out, 'b');
            proof {
                assert(pre.push('\\').push('b') =~= pre + escape_char(c));
            }
        } else if c == '\u{09}' {
            push_char(out, '\\');
            push_char(out, 't');
            proof {
                assert(pre.push('\\').push('t') =~= pre + escape_char(c));
            }
        } else if c == '\u{0A}' {
            push_char(out, '\\');
            push_char(out, 'n');
            proof {
                assert(pre.push('\\').push('n') =~= pre + escape_char(c));
            }
        } else if c == '\u{0C}' {
            push_char(out, '\\');
            push_char(out, 'f');
            proof {
                assert(pre.push('\\').push('f') =~= pre + escape_char(c));
            }
        } else if c == '\u{0D}' {
            push_char(out, '\\');
            push_char(out, 'r');
            proof {
                assert(pre.push('\\').push('r') =~= pre + escape_char(c));
            }
        } else if (c as u32) < 0x20 {
            let cu = c as u32;
            push_char(out, '\\');
            push_char(out, 'u');
            push_char(out, '0');
            push_char(out, '0');
            push_char(out, hex_char_of(cu / 16));
            push_char(out, hex_char_of(cu % 16));
            proof {
                assert((cu / 16) as int == c as int / 16);
                assert((cu % 16) as int == c as int % 16);
                assert(pre.push('\\').push('u').push('0').push('0').push(
                    hex_char(c as int / 16),
                ).push(hex_char(c as int % 16)) =~= pre + escape_char(c));
            }
        } else {
            push_char(out, c);
            proof {
                assert(pre.push(c) =~= pre + escape_char(c));
            }
        }
        proof {
            assert(out@ == old(out)@ + escape_string(s@.take(i + 1)));
        }
    }
    proof {
        assert(s@.take(n as int) =~= s@);
    }
}

/// Append the JSON string literal for `s`.
fn append_string_lit(out: &mut String, s: &str)
    ensures
        final(out)@ == old(out)@ + encode_string(s@),
{
    push_char(out, '"');
    append_escaped(out, s);
    push_char(out, '"');
    proof {
        assert((old(out)@.push('"') + escape_string(s@)).push('"') =~= old(out)@ + encode_string(
            s@,
        ));
    }
}

/// Appending one source to a non-empty list appends a comma and its object.
proof fn lemma_encode_list_snoc(vs: Seq<SourceView>, v: SourceView)
    requires
        vs.len() >= 1,
    ensures
        encode_source_list(vs.push(v)) == encode_source_list(vs) + seq![',']
            + encode_source_view(v),
    decreases vs.len(),
{
    let w = vs.push(v);
    assert(w[0] == vs[0]);
    if vs.len() == 1 {
        assert(w.drop_first() =~= seq![v]);
        assert(encode_source_list(seq![v]) == encode_source_view(v));
        assert(encode_source_view(vs[0]) + seq![','] + encode_source_view(v)
            =~= encode_source_view(vs[0]) + seq![','] + encode_source_view(v));
    } else {
        assert(w.drop_first() =~= vs.drop_first().push(v));
        lemma_encode_list_snoc(vs.drop_first(), v);
        assert(encode_source_view(vs[0]) + seq![','] + (encode_source_list(vs.drop_first())
            + seq![','] + encode_source_view(v)) =~= (encode_source_view(vs[0]) + seq![',']
            + encode_source_list(vs.drop_first())) + seq![','] + encode_source_view(v));
    }
}

impl crate::source::Source {
    /// The JSON object for this source.
    pub fn to_json(&self) -> (r: String)
        ensures
            r@ == encode_source_view(self@),
    {
        let mut out = String::new();
        match self {
            crate::source::Source::Monitor { monitor_name } => {
                out.append("{\"Monitor\":{\"monitor_name\":");
                append_string_lit(&mut out, monitor_name.as_str());
                out.append("}}");
                proof {
                    assert(out@ =~= encode_source_view(self@));
                }
            },
            crate::source::Source::Window { window_id, window_name, icon_path } => {
                out.append("{\"Window\":{\"window_id\":");
                push_u64(&mut out, *window_id);
                out.append(",\"window_name\":");
                append_string_lit(&mut out, window_name.as_str());
                out.append(",\"icon_path\":");
                match icon_path {
                    Some(p) => append_string_lit(&mut out, p.as_str()),
                    None => out.append("null"),
                }
                out.append("}}");
                proof {
                    assert(out@ =~= encode_source_view(self@));
                }
            },
        }
        out
    }
}

impl crate::source::Sources {
    /// The JSON array for this list of sources.
    pub fn to_json(&self) -> (r: String)
        ensures
            r@ == encode_sources_view(self@),
    {
        let mut out = String::new();
        push_char(&mut out, '[');
        let n = self.0.len();
        for i in 0..n
            invariant
                n == self.0@.len(),
                n == self@.len(),
                forall|j: int| 0 <= j < n ==> self@[j] == self.0@[j]@,
                out@ == seq!['['] + encode_source_list(self@.take(i as int)),
        {
            let ghost pre = out@;
            if i > 0 {
                push_char(&mut out, ',');
            }
            let piece = self.0[i].to_json();
            out.append(piece.as_str());
            proof {
                assert(self@.take(i + 1) =~= self@.take(i as int).push(self@[i as int]));
                if i == 0 {
                    assert(self@.take(0int) =~= Seq::<SourceView>::empty());
                    assert(self@.take(1int) =~= seq![self@[0int]]);
                    assert(encode_source_list(seq![self@[0int]]) == encode_source_view(
                        self@[0int],
                    ));
                    assert(pre + piece@ =~= seq!['['] + encode_source_list(self@.take(1int)));
                } else {
                    lemma_encode_list_snoc(self@.take(i as int), self@[i as int]);
                    assert(pre.push(',') + piece@ =~= seq!['['] + encode_source_list(
                        self@.take(i + 1),
                    ));
                }
            }
        }
        push_char(&mut out, ']');
        proof {
            assert(self@.take(n as int) =~= self@);
            assert((seq!['['] + encode_source_list(self@)).push(']') =~= encode_sources_view(
                self@,
            ));
        }
        out
    }
}

// ---------------------------------------------------------------------------
// The executable decoder
// ---------------------------------------------------------------------------

fn is_digit_exec(c: char) -> (r: bool)
    ensures
        r == is_digit(c),
{
    let cu = c as u32;
    48 <= cu && cu <= 57
}

fn is_hex_digit_exec(c: char) -> (r: bool)
    ensures
        r == is_hex_digit(c),
{
    let cu = c as u32;
    (48 <= cu && cu <= 57) || (97 <= cu && cu <= 102)
}

fn hex_val_exec(c: char) -> (r: u32)
    requires
        is_hex_digit(c),
    ensures
        r as int == hex_val(c),
        r < 16,
{
    let cu = c as u32;
    if cu <= 57 {
        cu - 48
    } else {
        cu - 87
    }
}

/// The literal `lit` stands in `s` at position `i`.
fn lit_at_exec(s: &Vec<char>, i: usize, lit: &str) -> (r: bool)
    ensures
        r == lit_at(s@, i as int, lit@),
{
    let n = lit.unicode_len();
    let slen = s.len();
    if i > slen || n > slen - i {
        return false;
    }
    for k in 0..n
        invariant
            n == lit@.len(),
            slen == s@.len(),
            i + n <= slen,
            forall|m: int| 0 <= m < k ==> s@[i + m] == lit@[m],
    {
        if s[i + k] != lit.get_char(k) {
            proof {
                if lit_at(s@, i as int, lit@) {
                    assert(s@.subrange(i as int, i + lit@.len())[k as int] == s@[i + k]);
                }
            }
            return false;
        }
    }
    proof {
        assert(s@.subrange(i as int, i + lit@.len()) =~= lit@);
    }
    true
}

/// Parse the interior of a string literal, after the opening quote.
fn parse_string_body_exec(s: &Vec<char>, i: usize) -> (r: Option<(Vec<char>, usize)>)
    requires
        i <= s@.len(),
    ensures
        match r {
            Some((t, j)) => parse_string_body(s@, i as int) == Some((t@, j as int)) && i < j
                <= s@.len(),
            None => parse_string_body(s@, i as int) is None,
        },
    decreases s@.len() - i,
{
    if i >= s.len() {
        return None;
    }
    let c = s[i];
    if c == '"' {
        Some((Vec::new(), i + 1))
    } else if c == '\\' {
        if i + 1 >= s.len() {
            return None;
        }
        let e = s[i + 1];
        if e == 'u' {
            if s.len() - i < 6 {
                return None;
            }
            if !(is_hex_digit_exec(s[i + 2]) && is_hex_digit_exec(s[i + 3]) && is_hex_digit_exec(
                s[i + 4],
            ) && is_hex_digit_exec(s[i + 5])) {
                return None;
            }
            let v = ((hex_val_exec(s[i + 2]) * 16 + hex_val_exec(s[i + 3])) * 16 + hex_val_exec(
                s[i + 4],
            )) * 16 + hex_val_exec(s[i + 5]);
            if !(v < 0xD800 || v >= 0xE000) {
                return None;
            }
            match crate::strutil::char_from_u32(v) {
                Some(ch) => match parse_string_body_exec(s, i + 6) {
                    Some((mut t, j)) => {
                        t.insert(0, ch);
                        proof {
                            assert(t@ =~= seq![ch] + t@.drop_first());
                        }
                        Some((t, j))
                    },
                    None => None,
                },
                None => {
                    proof {
                        assert(false);
                    }
                    None
                },
            }
        } else {
            let dec = if e == '"' {
                Some('"')
            } else if e == '\\' {
                Some('\\')
            } else if e == '/' {
                Some('/')
            } else if e == 'b' {
                Some('\u{08}')
            } else if e == 't' {
                Some('\u{09}')
            } else if e == 'n' {
                Some('\u{0A}')
            } else if e == 'f' {
                Some('\u{0C}')
            } else if e == 'r' {
                Some('\u{0D}')
            } else {
                None
            };
            proof {
                assert(dec == short_unescape(e));
            }
            match dec {
                Some(ch) => match parse_string_body_exec(s, i + 2) {
                    Some((mut t, j)) => {
                        t.insert(0, ch);
                        proof {
                            assert(t@ =~= seq![ch] + t@.drop_first());
                        }
                        Some((t, j))
                    },
                    None => None,
                },
                None => None,
            }
        }
    } else if (c as u32) < 0x20 {
        None
    } else {
        match parse_string_body_exec(s, i + 1) {
            Some((mut t, j)) => {
                t.insert(0, c);
                proof {
                    assert(t@ =~= seq![c] + t@.drop_first());
                }
                Some((t, j))
            },
            None => None,
        }
    }
}

/// Parse a complete string literal at position `i`.
fn parse_string_exec(s: &Vec<char>, i: usize) -> (r: Option<(Vec<char>, usize)>)
    requires
        i <= s@.len(),
    ensures
        match r {
            Some((t, j)) => parse_string(s@, i as int) == Some((t@, j as int)) && i < j <= s@.len(),
            None => parse_string(s@, i as int) is None,
        },
{
    if i < s.len() && s[i] == '"' {
        parse_string_body_exec(s, i + 1)
    } else {
        None
    }
}

proof fn lemma_digits_value_nonneg(s: Seq<char>, i: int, j: int)
    requires
        i <= j,
        forall|k: int| i <= k < j ==> is_digit(#[trigger] s[k]),
    ensures
        digits_value(s, i, j) >= 0,
    decreases j - i,
{
    if i < j {
        lemma_digits_value_nonneg(s, i, j - 1);
    }
}

/// Parse a decimal numeral at position `i` into a `u64`.
fn parse_u64_exec(s: &Vec<char>, i: usize) -> (r: Option<(u64, usize)>)
    requires
        i <= s@.len(),
    ensures
        match r {
            Some((n, j)) => parse_u64(s@, i as int) == Some((n, j as int)) && i < j <= s@.len(),
            None => parse_u64(s@, i as int) is None,
        },
{
    let mut j = i;
    let mut acc: u64 = 0;
    let mut over = false;
    while j < s.len() && is_digit_exec(s[j])
        invariant
            i <= j <= s@.len(),
            digit_end(s@, i as int) == digit_end(s@, j as int),
            forall|k: int| i <= k < j ==> is_digit(#[trigger] s@[k]),
            !over ==> acc as int == digits_value(s@, i as int, j as int),
            over ==> digits_value(s@, i as int, j as int) > u64::MAX,
        decreases s@.len() - j,
    {
        let d = hex_val_exec(s[j]) as u64;
        proof {
            assert(digit_val(s@[j as int]) == d);
            assert(0 <= d <= 9);
            lemma_digits_value_nonneg(s@, i as int, j as int);
        }
        let ghost prev = digits_value(s@, i as int, j as int);
        proof {
            assert(digits_value(s@, i as int, j + 1) == prev * 10 + d);
        }
        if over {
            proof {
                assert(prev * 10 >= prev) by (nonlinear_arith)
                    requires
                        prev >= 0 || prev > u64::MAX,
                        prev > u64::MAX,
                ;
            }
        } else if acc > (u64::MAX - d) / 10 {
            over = true;
            proof {
                assert(acc as int * 10 + d > u64::MAX) by (nonlinear_arith)
                    requires
                        acc as int > (u64::MAX - d) / 10,
                        0 <= d <= 9,
                ;
            }
        } else {
            proof {
                assert(acc as int * 10 + d <= u64::MAX) by (nonlinear_arith)
                    requires
                        acc as int <= (u64::MAX - d) / 10,
                        0 <= d <= 9,
                ;
            }
            acc = acc * 10 + d;
        }
        j = j + 1;
    }
    proof {
        assert(digit_end(s@, j as int) == j);
        assert(digit_end(s@, i as int) == j);
    }
    if j == i {
        None
    } else if over {
        None
    } else {
        Some((acc, j))
    }
}

/// Parse one capture-source object at position `i`.
fn parse_source_exec(s: &Vec<char>, i: usize) -> (r: Option<(crate::source::Source, usize)>)
    requires
        i <= s@.len(),
    ensures
        match r {
            Some((src, j)) => parse_source(s@, i as int) == Some((src@, j as int)) && i < j
                <= s@.len(),
            None => parse_source(s@, i as int) is None,
        },
{
    let slen = s.len();
    if lit_at_exec(s, i, "{\"Monitor\":{\"monitor_name\":") {
        let l = "{\"Monitor\":{\"monitor_name\":".unicode_len();
        match parse_string_exec(s, i + l) {
            Some((t, j)) => {
                if lit_at_exec(s, j, "}}") {
                    proof {
                        reveal_strlit("}}");
                    }
                    let name = crate::strutil::string_from_chars(&t);
                    Some((crate::source::Source::Monitor { monitor_name: name }, j + 2))
                } else {
                    None
                }
            },
            None => None,
        }
    } else if lit_at_exec(s, i, "{\"Window\":{\"window_id\":") {
        let l = "{\"Window\":{\"window_id\":".unicode_len();
        match parse_u64_exec(s, i + l) {
            Some((id, j)) => {
                if lit_at_exec(s, j, ",\"window_name\":") {
                    let ln = ",\"window_name\":".unicode_len();
                    match parse_string_exec(s, j + ln) {
                        Some((t, k)) => {
                            if lit_at_exec(s, k, ",\"icon_path\":") {
                                let li = ",\"icon_path\":".unicode_len();
                                let m = k + li;
                                if lit_at_exec(s, m, "null") {
                                    proof {
                                        reveal_strlit("null");
                                    }
                                    if lit_at_exec(s, m + 4, "}}") {
                                        proof {
                                            reveal_strlit("}}");
                                        }
                                        let name = crate::strutil::string_from_chars(&t);
                                        Some(
                                            (
                                                crate::source::Source::Window {
                                                    window_id: id,
                                                    window_name: name,
                                                    icon_path: None,
                                                },
                                                m + 6,
                                            ),
                                        )
                                    } else {
                                        None
                                    }
                                } else {
                                    match parse_string_exec(s, m) {
                                        Some((ti, p)) => {
                                            if lit_at_exec(s, p, "}}") {
                                                proof {
                                                    reveal_strlit("}}");
                                                }
                                                let name = crate::strutil::string_from_chars(&t);
                                                let icon = crate::strutil::string_from_chars(&ti);
                                                Some(
                                                    (
                                                        crate::source::Source::Window {
                                                            window_id: id,
                                                            window_name: name,
                                                            icon_path: Some(icon),
                                                        },
                                                        p + 2,
                                                    ),
                                                )
                                            } else {
                                                None
                                            }
                                        },
                                        None => None,
                                    }
                                }
                            } else {
                                None
                            }
                        },
                        None => None,
                    }
                } else {
                    None
                }
            },
            None => None,
        }
    } else {
        None
    }
}

/// Parse a comma-separated run of sources through the closing bracket.
fn parse_source_list_exec(s: &Vec<char>, i: usize) -> (r: Option<(Vec<crate::source::Source>, usize)>)
    requires
        i <= s@.len(),
    ensures
        match r {
            Some((vs, j)) => parse_source_list(s@, i as int) == Some(
                (vs@.map_values(|x: crate::source::Source| x@), j as int),
            ) && i < j <= s@.len(),
            None => parse_source_list(s@, i as int) is None,
        },
    decreases s@.len() - i,
{
    let slen = s.len();
    match parse_source_exec(s, i) {
        Some((v, j)) => {
            if j < slen && s[j] == ',' {
                match parse_source_list_exec(s, j + 1) {
                    Some((mut vs, k)) => {
                        let ghost tail_map = vs@.map_values(|x: crate::source::Source| x@);
                        vs.insert(0, v);
                        proof {
                            assert(vs@.map_values(|x: crate::source::Source| x@) =~= seq![v@]
                                + tail_map);
                        }
                        Some((vs, k))
                    },
                    None => None,
                }
            } else if j < slen && s[j] == ']' {
                let mut vs: Vec<crate::source::Source> = Vec::new();
                vs.push(v);
                proof {
                    assert(vs@.map_values(|x: crate::source::Source| x@) =~= seq![v@]);
                }
                Some((vs, j + 1))
            } else {
                None
            }
        },
        None => None,
    }
}

/// Parse a capture-source array at position `i`.
fn parse_sources_exec(s: &Vec<char>, i: usize) -> (r: Option<(Vec<crate::source::Source>, usize)>)
    requires
        i <= s@.len(),
    ensures
        match r {
            Some((vs, j)) => parse_sources(s@, i as int) == Some(
                (vs@.map_values(|x: crate::source::Source| x@), j as int),
            ) && i < j <= s@.len(),
            None => parse_sources(s@, i as int) is None,
        },
{
    let slen = s.len();
    if i < slen && s[i] == '[' {
        if i + 1 < slen && s[i + 1] == ']' {
            let vs: Vec<crate::source::Source> = Vec::new();
            proof {
                assert(vs@.map_values(|x: crate::source::Source| x@) =~= Seq::<SourceView>::empty());
            }
            Some((vs, i + 2))
        } else {
            parse_source_list_exec(s, i + 1)
        }
    } else {
        None
    }
}

fn is_ws_exec(c: char) -> (r: bool)
    ensures
        r == is_ws(c),
{
    c == ' ' || c == '\t' || c == '\n' || c == '\r'
}

/// The first position at or after `i` that holds no whitespace.
fn skip_ws_exec(s: &Vec<char>, i: usize) -> (r: usize)
    requires
        i <= s@.len(),
    ensures
        r as int == skip_ws(s@, i as int),
        i <= r <= s@.len(),
{
    let mut j = i;
    while j < s.len() && is_ws_exec(s[j])
        invariant
            i <= j <= s@.len(),
            skip_ws(s@, i as int) == skip_ws(s@, j as int),
        decreases s@.len() - j,
    {
        j = j + 1;
    }
    j
}

impl crate::source::Source {
    /// Decode one source from the boundary format; `None` when `s` does
    /// not hold exactly one source object.
    pub fn from_json(s: &str) -> (r: Option<crate::source::Source>)
        ensures
            match r {
                Some(src) => decode_source_spec(s@) == Some(src@),
                None => decode_source_spec(s@) is None,
            },
    {
        let v = crate::strutil::chars_of(s);
        let i = skip_ws_exec(&v, 0);
        match parse_source_exec(&v, i) {
            Some((src, j)) => {
                let k = skip_ws_exec(&v, j);
                if k == v.len() {
                    Some(src)
                } else {
                    None
                }
            },
            None => None,
        }
    }
}

impl crate::source::Sources {
    /// Decode a source list from the boundary format; `None` when `s`
    /// does not hold exactly one source array.
    pub fn from_json(s: &str) -> (r: Option<crate::source::Sources>)
        ensures
            match r {
                Some(srcs) => decode_sources_spec(s@) == Some(srcs@),
                None => decode_sources_spec(s@) is None,
            },
    {
        let v = crate::strutil::chars_of(s);
        let i = skip_ws_exec(&v, 0);
        match parse_sources_exec(&v, i) {
            Some((vs, j)) => {
                let k = skip_ws_exec(&v, j);
                if k == v.len() {
                    Some(crate::source::Sources(vs))
                } else {
                    None
                }
            },
            None => None,
        }
    }
}

} // verus!
