//! Single-value parsers of the style engine.
use vstd::prelude::*;
use crate::css::{AlignItems, BorderStyle, DisplayType, FlexDirection, GridPlacement, JustifyContent, PositionType};
use crate::net::{parse_u64, parse_u64_spec};
use crate::text::{chars_of, has_prefix, lowercase, str_eq, string_of, sub_string, to_lower, trim, trimmed};
use vstd::utf8::{encode_utf8, is_char_boundary};

verus! {

/// `str::parse::<u16>`: the `u64` reading, when it fits in 16 bits.
pub open spec fn parse_u16_spec(s: Seq<char>) -> Option<u16> {
    match parse_u64_spec(s) {
        Some(v) => if v <= u16::MAX {
            Some(v as u16)
        } else {
            None
        },
        None => None,
    }
}

/// The placement a `grid-column` / `grid-row` value names: only the
/// `span N` form is understood.
pub open spec fn grid_placement_of(value: Seq<char>) -> Option<u16> {
    let t = trimmed(value);
    if has_prefix(t, "span "@) {
        parse_u16_spec(trimmed(t.subrange(5, t.len() as int)))
    } else {
        None
    }
}

/// Parse a `grid-column` / `grid-row` value (e.g. `span 2`).
pub fn parse_grid_placement(value: &str) -> (r: Option<GridPlacement>)
    ensures
        match r {
            Some(p) => grid_placement_of(value@) == Some(p.span),
            None => grid_placement_of(value@) is None,
        },
{
    let t = trim(value);
    let tv = chars_of(t.as_str());
    let n = tv.len();
    proof {
        reveal_strlit("span ");
    }
    if n < 5 || tv[0] != 's' || tv[1] != 'p' || tv[2] != 'a' || tv[3] != 'n' || tv[4] != ' ' {
        proof {
            if has_prefix(tv@, "span "@) {
                assert(tv@.subrange(0, 5) == "span "@);
                assert(tv@.subrange(0, 5)[0] == tv@[0]);
                assert(tv@.subrange(0, 5)[1] == tv@[1]);
                assert(tv@.subrange(0, 5)[2] == tv@[2]);
                assert(tv@.subrange(0, 5)[3] == tv@[3]);
                assert(tv@.subrange(0, 5)[4] == tv@[4]);
            }
        }
        return None;
    }
    assert(tv@.subrange(0, 5) =~= "span "@);
    let rest = sub_string(&tv, 5, n);
    let num = trim(rest.as_str());
    match parse_u64(num.as_str()) {
        Some(v) => {
            if v <= 65535 {
                Some(GridPlacement { span: v as u16 })
            } else {
                None
            }
        },
        None => None,
    }
}

/// Whether `t` has the shape `url(...)`.
pub open spec fn is_url_call(t: Seq<char>) -> bool {
    t.len() >= 5 && has_prefix(t, "url("@) && t.last() == ')'
}

/// `s` without one leading and one trailing `q`, when it has both as
/// distinct characters; else `s`.
pub open spec fn strip_quotes(s: Seq<char>, q: char) -> Seq<char> {
    if s.len() >= 2 && s[0] == q && s.last() == q {
        s.subrange(1, s.len() - 1)
    } else {
        s
    }
}

/// The argument of a `url(...)` value: trimmed, then stripped of double
/// quotes, then of single quotes.
pub open spec fn url_value(input: Seq<char>) -> Option<Seq<char>> {
    let t = trimmed(input);
    if is_url_call(t) {
        Some(strip_quotes(strip_quotes(trimmed(t.subrange(4, t.len() - 1)), '"'), '\''))
    } else {
        None
    }
}

/// `s` without a surrounding pair of `q`.
fn strip_quote_pair(v: &Vec<char>, q: char) -> (r: Vec<char>)
    ensures
        r@ == strip_quotes(v@, q),
{
    let n = v.len();
    if n >= 2 && v[0] == q && v[n - 1] == q {
        let mut out: Vec<char> = Vec::new();
        let mut i: usize = 1;
        while i < n - 1
            invariant
                1 <= i <= n - 1,
                n == v.len(),
                out@ == v@.subrange(1, i as int),
            decreases n - 1 - i,
        {
            out.push(v[i]);
            i += 1;
            assert(out@ =~= v@.subrange(1, i as int));
        }
        out
    } else {
        let mut out: Vec<char> = Vec::new();
        let mut i: usize = 0;
        while i < n
            invariant
                i <= n,
                n == v.len(),
                out@ == v@.subrange(0, i as int),
            decreases n - i,
        {
            out.push(v[i]);
            i += 1;
            assert(out@ =~= v@.subrange(0, i as int));
        }
        assert(out@ =~= v@);
        out
    }
}

/// Parse the argument of a `url(...)` value.
pub fn parse_url(s: &str) -> (r: Option<String>)
    ensures
        match r {
            Some(u) => url_value(s@) == Some(u@),
            None => url_value(s@) is None,
        },
{
    let t = trim(s);
    let tv = chars_of(t.as_str());
    let n = tv.len();
    proof {
        reveal_strlit("url(");
    }
    if !(n >= 5 && tv[0] == 'u' && tv[1] == 'r' && tv[2] == 'l' && tv[3] == '(' && tv[n - 1] == ')') {
        proof {
            if is_url_call(tv@) {
                assert(tv@.subrange(0, 4) == "url("@);
                assert(tv@.subrange(0, 4)[0] == tv@[0]);
                assert(tv@.subrange(0, 4)[1] == tv@[1]);
                assert(tv@.subrange(0, 4)[2] == tv@[2]);
                assert(tv@.subrange(0, 4)[3] == tv@[3]);
            }
        }
        return None;
    }
    assert(tv@.subrange(0, 4) =~= "url("@);
    let inner = sub_string(&tv, 4, n - 1);
    let b = trim(inner.as_str());
    let bv = chars_of(b.as_str());
    let d = strip_quote_pair(&bv, '"');
    let e = strip_quote_pair(&d, '\'');
    Some(crate::text::string_of(e.as_slice()))
}

/// The border style a keyword names, in any letter case.
pub open spec fn border_style_of(s: Seq<char>) -> Option<BorderStyle> {
    let k = lowercase(trimmed(s));
    if k == "none"@ {
        Some(BorderStyle::NoBorder)
    } else if k == "solid"@ {
        Some(BorderStyle::Solid)
    } else if k == "dashed"@ {
        Some(BorderStyle::Dashed)
    } else if k == "dotted"@ {
        Some(BorderStyle::Dotted)
    } else if k == "double"@ {
        Some(BorderStyle::Double)
    } else {
        None
    }
}

/// Parse a `border-style` keyword.
pub fn parse_border_style(s: &str) -> (r: Option<BorderStyle>)
    ensures
        r == border_style_of(s@),
{
    let t = trim(s);
    let k = to_lower(t.as_str());
    let k = k.as_str();
    if str_eq(k, "none") {
        Some(BorderStyle::NoBorder)
    } else if str_eq(k, "solid") {
        Some(BorderStyle::Solid)
    } else if str_eq(k, "dashed") {
        Some(BorderStyle::Dashed)
    } else if str_eq(k, "dotted") {
        Some(BorderStyle::Dotted)
    } else if str_eq(k, "double") {
        Some(BorderStyle::Double)
    } else {
        None
    }
}

/// A color as the color parsers produce it: opaque red, green and blue, or
/// fully transparent black.
#[derive(Debug, Clone, Copy, PartialEq, Eq, Structural)]
pub struct ParsedColor {
    pub r: u8,
    pub g: u8,
    pub b: u8,
    /// Alpha 0 when set, else alpha 1.
    pub transparent: bool,
}

/// An opaque color.
pub open spec fn rgb(r: u8, g: u8, b: u8) -> ParsedColor {
    ParsedColor { r, g, b, transparent: false }
}

/// The value of an ASCII hexadecimal digit byte.
pub open spec fn hex_digit(c: u8) -> Option<nat> {
    if 48 <= c <= 57 {
        Some((c - 48) as nat)
    } else if 97 <= c <= 102 {
        Some((c - 87) as nat)
    } else if 65 <= c <= 70 {
        Some((c - 55) as nat)
    } else {
        None
    }
}

/// The value of a string of hexadecimal digit bytes.
pub open spec fn hex_digits_value(d: Seq<u8>) -> Option<nat>
    decreases d.len(),
{
    if d.len() == 0 {
        Some(0)
    } else {
        match (hex_digits_value(d.drop_last()), hex_digit(d.last())) {
            (Some(v), Some(x)) => Some(v * 16 + x),
            _ => None,
        }
    }
}

/// `u8::from_str_radix(d, 16)`: an optional `+`, then one or more hex
/// digits whose value fits in a byte.
pub open spec fn radix16_u8(d: Seq<u8>) -> Option<u8> {
    let digits = if d.len() > 0 && d[0] == 43 {
        d.drop_first()
    } else {
        d
    };
    if digits.len() == 0 {
        None
    } else {
        match hex_digits_value(digits) {
            Some(v) => if v <= 255 {
                Some(v as u8)
            } else {
                None
            },
            None => None,
        }
    }
}

/// The number of leading `#` bytes.
pub open spec fn leading_hashes(b: Seq<u8>) -> nat
    decreases b.len(),
{
    if b.len() > 0 && b[0] == 35 {
        1 + leading_hashes(b.drop_first())
    } else {
        0
    }
}

/// Reading a hex color from the bytes `b` of a trimmed value, after its
/// leading `#`s: six digits give the channels in pairs, three give one
/// doubled digit each. `None` marks the inputs on which cutting the text
/// at a channel's byte offset would split a character; `Some(None)` a value
/// that is not a color.
pub open spec fn hex_color_of(b: Seq<u8>) -> Option<Option<(u8, u8, u8)>> {
    let k = leading_hashes(b) as int;
    let n = b.len() - k;
    if n == 6 {
        if !is_char_boundary(b, k + 2) {
            None
        } else {
            match radix16_u8(b.subrange(k, k + 2)) {
                None => Some(None),
                Some(r) => if !is_char_boundary(b, k + 4) {
                    None
                } else {
                    match radix16_u8(b.subrange(k + 2, k + 4)) {
                        None => Some(None),
                        Some(g) => match radix16_u8(b.subrange(k + 4, k + 6)) {
                            None => Some(None),
                            Some(bl) => Some(Some((r, g, bl))),
                        },
                    }
                },
            }
        }
    } else if n == 3 {
        if !is_char_boundary(b, k + 1) {
            None
        } else {
            match radix16_u8(seq![b[k], b[k]]) {
                None => Some(None),
                Some(r) => if !is_char_boundary(b, k + 2) {
                    None
                } else {
                    match radix16_u8(seq![b[k + 1], b[k + 1]]) {
                        None => Some(None),
                        Some(g) => match radix16_u8(seq![b[k + 2], b[k + 2]]) {
                            None => Some(None),
                            Some(bl) => Some(Some((r, g, bl))),
                        },
                    }
                },
            }
        }
    } else {
        Some(None)
    }
}

/// A named color (after lowercasing), if known.
pub open spec fn named_color(l: Seq<char>) -> Option<ParsedColor> {
    if l == "black"@ {
        Some(rgb(0, 0, 0))
    } else if l == "white"@ {
        Some(rgb(255, 255, 255))
    } else if l == "red"@ {
        Some(rgb(255, 0, 0))
    } else if l == "green"@ {
        Some(rgb(0, 128, 0))
    } else if l == "blue"@ {
        Some(rgb(0, 0, 255))
    } else if l == "gray"@ || l == "grey"@ {
        Some(rgb(128, 128, 128))
    } else if l == "transparent"@ {
        Some(ParsedColor { r: 0, g: 0, b: 0, transparent: true })
    } else {
        None
    }
}

/// The color a value names: a hex color when the trimmed value starts with
/// `#`, else a named color in any case. `None` marks the hex values that
/// would be cut inside a character.
pub open spec fn color_of(s: Seq<char>) -> Option<Option<ParsedColor>> {
    let t = trimmed(s);
    if t.len() > 0 && t[0] == '#' {
        match hex_color_of(encode_utf8(t)) {
            None => None,
            Some(None) => Some(None),
            Some(Some(c)) => Some(Some(rgb(c.0, c.1, c.2))),
        }
    } else {
        Some(named_color(lowercase(t)))
    }
}

/// The value of one hex digit byte.
pub(crate) fn hex_digit_value(c: u8) -> (r: Option<u8>)
    ensures
        match r {
            Some(v) => hex_digit(c) == Some(v as nat),
            None => hex_digit(c) is None,
        },
{
    if 48 <= c && c <= 57 {
        Some(c - 48)
    } else if 97 <= c && c <= 102 {
        Some(c - 87)
    } else if 65 <= c && c <= 70 {
        Some(c - 55)
    } else {
        None
    }
}

/// `u8::from_str_radix` of the two bytes `a`, `b` in base 16.
pub(crate) fn radix16_pair(a: u8, b: u8) -> (r: Option<u8>)
    ensures
        r == radix16_u8(seq![a, b]),
{
    let ghost d = seq![a, b];
    proof {
        assert(d.drop_first() =~= seq![b]);
        assert(seq![b].drop_last() =~= Seq::<u8>::empty());
        assert(d.drop_last() =~= seq![a]);
        assert(seq![a].drop_last() =~= Seq::<u8>::empty());
        reveal_with_fuel(hex_digits_value, 3);
    }
    if a == 43 {
        match hex_digit_value(b) {
            Some(v) => Some(v),
            None => None,
        }
    } else {
        match (hex_digit_value(a), hex_digit_value(b)) {
            (Some(x), Some(y)) => Some(x * 16 + y),
            _ => None,
        }
    }
}

/// Read a hex color (`#rgb` or `#rrggbb`, after any number of `#`).
pub fn parse_hex_color(t: &str) -> (r: Option<ParsedColor>)
    requires
        hex_color_of(encode_utf8(t@)) is Some,
    ensures
        match hex_color_of(encode_utf8(t@))->0 {
            Some(c) => r == Some(rgb(c.0, c.1, c.2)),
            None => r is None,
        },
{
    match hex_rgb(t) {
        Some(Some((r, g, b))) => Some(ParsedColor { r, g, b, transparent: false }),
        _ => None,
    }
}

/// Whether reading `s` as a color would cut a hex value inside a
/// character (the inputs `parse_color` does not accept).
pub fn color_parse_panics(s: &str) -> (r: bool)
    ensures
        r == (color_of(s@) is None),
{
    let t = trim(s);
    let ts = t.as_str();
    let v = chars_of(ts);
    if v.len() > 0 && v[0] == '#' {
        hex_rgb(ts).is_none()
    } else {
        false
    }
}

/// The channels of a hex color, `None` where reading it would cut inside
/// a character (see `hex_color_of`).
fn hex_rgb(t: &str) -> (r: Option<Option<(u8, u8, u8)>>)
    ensures
        r == hex_color_of(encode_utf8(t@)),
{
    let b = t.as_bytes();
    let ghost bs = b@;
    assert(bs == encode_utf8(t@));
    assert(bs.subrange(0, bs.len() as int) =~= bs);
    let mut k: usize = 0;
    while k < b.len() && b[k] == 35
        invariant
            b@ == bs,
            k <= bs.len(),
            leading_hashes(bs) == k + leading_hashes(bs.subrange(k as int, bs.len() as int)),
        decreases bs.len() - k,
    {
        proof {
            let rest = bs.subrange(k as int, bs.len() as int);
            assert(rest.drop_first() =~= bs.subrange(k + 1, bs.len() as int));
        }
        k += 1;
    }
    proof {
        let rest = bs.subrange(k as int, bs.len() as int);
        if k < bs.len() {
            assert(rest[0] == bs[k as int]);
        }
        assert(leading_hashes(rest) == 0);
    }
    let n = b.len() - k;
    if n == 6 {
        if !t.is_char_boundary(k + 2) {
            return None;
        }
        assert(bs.subrange(k as int, k + 2) =~= seq![bs[k as int], bs[k + 1]]);
        let r = match radix16_pair(b[k], b[k + 1]) {
            Some(v) => v,
            None => {
                return Some(None);
            },
        };
        if !t.is_char_boundary(k + 4) {
            return None;
        }
        assert(bs.subrange(k + 2, k + 4) =~= seq![bs[k + 2], bs[k + 3]]);
        let g = match radix16_pair(b[k + 2], b[k + 3]) {
            Some(v) => v,
            None => {
                return Some(None);
            },
        };
        assert(bs.subrange(k + 4, k + 6) =~= seq![bs[k + 4], bs[k + 5]]);
        let bl = match radix16_pair(b[k + 4], b[k + 5]) {
            Some(v) => v,
            None => {
                return Some(None);
            },
        };
        Some(Some((r, g, bl)))
    } else if n == 3 {
        if !t.is_char_boundary(k + 1) {
            return None;
        }
        let r = match radix16_pair(b[k], b[k]) {
            Some(v) => v,
            None => {
                return Some(None);
            },
        };
        if !t.is_char_boundary(k + 2) {
            return None;
        }
        let g = match radix16_pair(b[k + 1], b[k + 1]) {
            Some(v) => v,
            None => {
                return Some(None);
            },
        };
        let bl = match radix16_pair(b[k + 2], b[k + 2]) {
            Some(v) => v,
            None => {
                return Some(None);
            },
        };
        Some(Some((r, g, bl)))
    } else {
        Some(None)
    }
}

/// Parse a color value: `#rgb`, `#rrggbb`, or a named color.
pub fn parse_color(s: &str) -> (r: Option<ParsedColor>)
    requires
        color_of(s@) is Some,
    ensures
        r == color_of(s@)->0,
{
    let t = trim(s);
    let ts = t.as_str();
    let v = chars_of(ts);
    if v.len() > 0 && v[0] == '#' {
        parse_hex_color(ts)
    } else {
        let l = to_lower(ts);
        let l = l.as_str();
        if str_eq(l, "black") {
            Some(ParsedColor { r: 0, g: 0, b: 0, transparent: false })
        } else if str_eq(l, "white") {
            Some(ParsedColor { r: 255, g: 255, b: 255, transparent: false })
        } else if str_eq(l, "red") {
            Some(ParsedColor { r: 255, g: 0, b: 0, transparent: false })
        } else if str_eq(l, "green") {
            Some(ParsedColor { r: 0, g: 128, b: 0, transparent: false })
        } else if str_eq(l, "blue") {
            Some(ParsedColor { r: 0, g: 0, b: 255, transparent: false })
        } else if str_eq(l, "gray") || str_eq(l, "grey") {
            Some(ParsedColor { r: 128, g: 128, b: 128, transparent: false })
        } else if str_eq(l, "transparent") {
            Some(ParsedColor { r: 0, g: 0, b: 0, transparent: true })
        } else {
            None
        }
    }
}

/// Cutting a grid template into tokens: the parenthesis depth, the token
/// being read, and the tokens found so far.
pub struct TrackTokens {
    pub depth: nat,
    pub cur: Seq<char>,
    pub tokens: Seq<Seq<char>>,
}

/// `tokens` with the trimmed `cur` added when it is not empty.
pub open spec fn flush_token(tokens: Seq<Seq<char>>, cur: Seq<char>) -> Seq<Seq<char>> {
    if trimmed(cur).len() > 0 {
        tokens.push(trimmed(cur))
    } else {
        tokens
    }
}

/// The state after reading `c`: a space or tab outside parentheses ends a
/// token; a `)` never takes the depth below zero.
pub open spec fn tokens_run(c: Seq<char>) -> TrackTokens
    decreases c.len(),
{
    if c.len() == 0 {
        TrackTokens { depth: 0, cur: Seq::empty(), tokens: Seq::empty() }
    } else {
        let st = tokens_run(c.drop_last());
        let ch = c.last();
        if ch == '(' {
            TrackTokens { depth: st.depth + 1, cur: st.cur.push(ch), tokens: st.tokens }
        } else if ch == ')' {
            TrackTokens {
                depth: if st.depth > 0 { (st.depth - 1) as nat } else { 0 },
                cur: st.cur.push(ch),
                tokens: st.tokens,
            }
        } else if (ch == ' ' || ch == '\t') && st.depth == 0 {
            TrackTokens { depth: st.depth, cur: Seq::empty(), tokens: flush_token(st.tokens, st.cur) }
        } else {
            TrackTokens { depth: st.depth, cur: st.cur.push(ch), tokens: st.tokens }
        }
    }
}

/// The tokens of a grid template value (so that `repeat(3, 1fr)` is one).
pub open spec fn grid_tokens(value: Seq<char>) -> Seq<Seq<char>> {
    let st = tokens_run(trimmed(value));
    flush_token(st.tokens, st.cur)
}

/// Cut a `grid-template-columns` / `grid-template-rows` value into tokens,
/// keeping parenthesised groups together.
pub fn grid_template_tokens(value: &str) -> (r: Vec<String>)
    ensures
        r@.map_values(|t: String| t@) == grid_tokens(value@),
{
    let t = trim(value);
    let v = chars_of(t.as_str());
    let mut tokens: Vec<String> = Vec::new();
    let mut cur: Vec<char> = Vec::new();
    let mut depth: u64 = 0;
    let mut i: usize = 0;
    let n = v.len();
    proof {
        assert(v@.take(0) =~= Seq::<char>::empty());
        assert(tokens@.map_values(|t: String| t@) =~= Seq::<Seq<char>>::empty());
        assert(cur@ =~= Seq::<char>::empty());
    }
    while i < v.len()
        invariant
            v@ == trimmed(value@),
            i <= v@.len(),
            v@.len() == n,
            depth <= i,
            depth as nat == tokens_run(v@.take(i as int)).depth,
            cur@ == tokens_run(v@.take(i as int)).cur,
            tokens@.map_values(|t: String| t@) == tokens_run(v@.take(i as int)).tokens,
        decreases v@.len() - i,
    {
        assert(v@.take(i + 1).drop_last() =~= v@.take(i as int));
        let ch = v[i];
        if ch == '(' {
            depth = depth + 1;
            cur.push(ch);
        } else if ch == ')' {
            depth = depth.saturating_sub(1);
            cur.push(ch);
        } else if (ch == ' ' || ch == '\t') && depth == 0 {
            let tok = trim(string_of(cur.as_slice()).as_str());
            let ghost before = tokens@;
            if !crate::text::str_is_empty(tok.as_str()) {
                tokens.push(tok);
            }
            assert(tokens@.map_values(|t: String| t@) =~= flush_token(
                before.map_values(|t: String| t@),
                cur@,
            ));
            cur = Vec::new();
            assert(cur@ =~= Seq::<char>::empty());
        } else {
            cur.push(ch);
        }
        i += 1;
    }
    assert(v@.take(v@.len() as int) =~= v@);
    let tok = trim(string_of(cur.as_slice()).as_str());
    let ghost before = tokens@;
    if !crate::text::str_is_empty(tok.as_str()) {
        tokens.push(tok);
    }
    assert(tokens@.map_values(|t: String| t@) =~= flush_token(before.map_values(|t: String| t@), cur@));
    tokens
}

/// The count and size text of a `repeat(N, size)` token: `N` must read as
/// a `u16`; both parts are trimmed.
pub open spec fn repeat_parts_of(token: Seq<char>) -> Option<(u16, Seq<char>)> {
    let t = trimmed(token);
    if t.len() >= 8 && has_prefix(t, "repeat("@) && t.last() == ')' {
        let inner = t.subrange(7, t.len() - 1);
        match crate::css::stylesheet::first_index(inner, ',') {
            Some(k) => match parse_u16_spec(trimmed(inner.subrange(0, k))) {
                Some(n) => Some((n, trimmed(inner.subrange(k + 1, inner.len() as int)))),
                None => None,
            },
            None => None,
        }
    } else {
        None
    }
}

/// Split a `repeat(N, size)` token into its count and its size text.
pub fn repeat_parts(token: &str) -> (r: Option<(u16, String)>)
    ensures
        match r {
            Some((n, s)) => repeat_parts_of(token@) == Some((n, s@)),
            None => repeat_parts_of(token@) is None,
        },
{
    let t = trim(token);
    let tv = chars_of(t.as_str());
    let n = tv.len();
    proof {
        reveal_strlit("repeat(");
    }
    if !(n >= 8 && tv[0] == 'r' && tv[1] == 'e' && tv[2] == 'p' && tv[3] == 'e' && tv[4] == 'a' && tv[5]
        == 't' && tv[6] == '(' && tv[n - 1] == ')') {
        proof {
            if tv@.len() >= 8 && has_prefix(tv@, "repeat("@) {
                assert(tv@.subrange(0, 7) == "repeat("@);
                assert(tv@.subrange(0, 7)[0] == tv@[0]);
                assert(tv@.subrange(0, 7)[1] == tv@[1]);
                assert(tv@.subrange(0, 7)[2] == tv@[2]);
                assert(tv@.subrange(0, 7)[3] == tv@[3]);
                assert(tv@.subrange(0, 7)[4] == tv@[4]);
                assert(tv@.subrange(0, 7)[5] == tv@[5]);
                assert(tv@.subrange(0, 7)[6] == tv@[6]);
            }
        }
        return None;
    }
    assert(tv@.subrange(0, 7) =~= "repeat("@);
    let inner = sub_string(&tv, 7, n - 1);
    let iv = chars_of(inner.as_str());
    let mut k: usize = 0;
    while k < iv.len() && iv[k] != ','
        invariant
            k <= iv@.len(),
            forall|j: int| 0 <= j < k ==> iv@[j] != ',',
        decreases iv@.len() - k,
    {
        k += 1;
    }
    if k == iv.len() {
        return None;
    }
    proof {
        let w = choose|w: int| 0 <= w < iv@.len() && iv@[w] == ',' && forall|j: int| 0 <= j < w ==> iv@[j] != ',';
        assert(iv@[k as int] == ',');
        assert(w == k) by {
            if w < k {
            } else if w > k {
            }
        }
    }
    let count_text = trim(sub_string(&iv, 0, k).as_str());
    match parse_u64(count_text.as_str()) {
        Some(c) => {
            if c <= 65535 {
                let size = trim(sub_string(&iv, k + 1, iv.len()).as_str());
                Some((c as u16, size))
            } else {
                None
            }
        },
        None => None,
    }
}

/// The `display` keyword of a rule declaration (exact text).
pub open spec fn display_of(v: Seq<char>) -> Option<DisplayType> {
    if v == "block"@ {
        Some(DisplayType::Block)
    } else if v == "inline"@ {
        Some(DisplayType::Inline)
    } else if v == "inline-block"@ {
        Some(DisplayType::InlineBlock)
    } else if v == "flex"@ {
        Some(DisplayType::Flex)
    } else if v == "inline-flex"@ {
        Some(DisplayType::InlineFlex)
    } else if v == "grid"@ {
        Some(DisplayType::Grid)
    } else if v == "none"@ {
        Some(DisplayType::NoDisplay)
    } else {
        None
    }
}

/// Read a `display` keyword of a rule declaration.
pub fn parse_display(v: &str) -> (r: Option<DisplayType>)
    ensures
        r == display_of(v@),
{
    if str_eq(v, "block") {
        Some(DisplayType::Block)
    } else if str_eq(v, "inline") {
        Some(DisplayType::Inline)
    } else if str_eq(v, "inline-block") {
        Some(DisplayType::InlineBlock)
    } else if str_eq(v, "flex") {
        Some(DisplayType::Flex)
    } else if str_eq(v, "inline-flex") {
        Some(DisplayType::InlineFlex)
    } else if str_eq(v, "grid") {
        Some(DisplayType::Grid)
    } else if str_eq(v, "none") {
        Some(DisplayType::NoDisplay)
    } else {
        None
    }
}

/// Read a `display` keyword of an inline `style` attribute, which does not
/// know `inline-flex`.
pub fn parse_inline_display(v: &str) -> (r: Option<DisplayType>)
    ensures
        r == if v@ == "inline-flex"@ {
            None
        } else {
            display_of(v@)
        },
{
    if str_eq(v, "inline-flex") {
        None
    } else {
        parse_display(v)
    }
}

/// The `position` keyword (exact text).
pub open spec fn position_of(v: Seq<char>) -> Option<PositionType> {
    if v == "static"@ {
        Some(PositionType::Static)
    } else if v == "relative"@ {
        Some(PositionType::Relative)
    } else if v == "absolute"@ {
        Some(PositionType::Absolute)
    } else if v == "fixed"@ {
        Some(PositionType::Fixed)
    } else if v == "sticky"@ {
        Some(PositionType::Sticky)
    } else {
        None
    }
}

/// Read a `position` keyword.
pub fn parse_position(v: &str) -> (r: Option<PositionType>)
    ensures
        r == position_of(v@),
{
    if str_eq(v, "static") {
        Some(PositionType::Static)
    } else if str_eq(v, "relative") {
        Some(PositionType::Relative)
    } else if str_eq(v, "absolute") {
        Some(PositionType::Absolute)
    } else if str_eq(v, "fixed") {
        Some(PositionType::Fixed)
    } else if str_eq(v, "sticky") {
        Some(PositionType::Sticky)
    } else {
        None
    }
}

/// The `align-items` keyword, after trimming.
pub open spec fn align_items_of(v: Seq<char>) -> Option<AlignItems> {
    let t = trimmed(v);
    if t == "stretch"@ {
        Some(AlignItems::Stretch)
    } else if t == "flex-start"@ || t == "start"@ {
        Some(AlignItems::FlexStart)
    } else if t == "flex-end"@ || t == "end"@ {
        Some(AlignItems::FlexEnd)
    } else if t == "center"@ {
        Some(AlignItems::Center)
    } else if t == "baseline"@ {
        Some(AlignItems::Baseline)
    } else {
        None
    }
}

/// Read an `align-items` keyword.
pub fn parse_align_items(v: &str) -> (r: Option<AlignItems>)
    ensures
        r == align_items_of(v@),
{
    let t = trim(v);
    let t = t.as_str();
    if str_eq(t, "stretch") {
        Some(AlignItems::Stretch)
    } else if str_eq(t, "flex-start") || str_eq(t, "start") {
        Some(AlignItems::FlexStart)
    } else if str_eq(t, "flex-end") || str_eq(t, "end") {
        Some(AlignItems::FlexEnd)
    } else if str_eq(t, "center") {
        Some(AlignItems::Center)
    } else if str_eq(t, "baseline") {
        Some(AlignItems::Baseline)
    } else {
        None
    }
}

/// The `justify-content` keyword, after trimming.
pub open spec fn justify_content_of(v: Seq<char>) -> Option<JustifyContent> {
    let t = trimmed(v);
    if t == "flex-start"@ || t == "start"@ {
        Some(JustifyContent::FlexStart)
    } else if t == "flex-end"@ || t == "end"@ {
        Some(JustifyContent::FlexEnd)
    } else if t == "center"@ {
        Some(JustifyContent::Center)
    } else if t == "space-between"@ {
        Some(JustifyContent::SpaceBetween)
    } else if t == "space-around"@ {
        Some(JustifyContent::SpaceAround)
    } else if t == "space-evenly"@ {
        Some(JustifyContent::SpaceEvenly)
    } else {
        None
    }
}

/// Read a `justify-content` keyword.
pub fn parse_justify_content(v: &str) -> (r: Option<JustifyContent>)
    ensures
        r == justify_content_of(v@),
{
    let t = trim(v);
    let t = t.as_str();
    if str_eq(t, "flex-start") || str_eq(t, "start") {
        Some(JustifyContent::FlexStart)
    } else if str_eq(t, "flex-end") || str_eq(t, "end") {
        Some(JustifyContent::FlexEnd)
    } else if str_eq(t, "center") {
        Some(JustifyContent::Center)
    } else if str_eq(t, "space-between") {
        Some(JustifyContent::SpaceBetween)
    } else if str_eq(t, "space-around") {
        Some(JustifyContent::SpaceAround)
    } else if str_eq(t, "space-evenly") {
        Some(JustifyContent::SpaceEvenly)
    } else {
        None
    }
}

/// The `flex-direction` keyword, after trimming.
pub open spec fn flex_direction_of(v: Seq<char>) -> Option<FlexDirection> {
    let t = trimmed(v);
    if t == "row"@ {
        Some(FlexDirection::Row)
    } else if t == "row-reverse"@ {
        Some(FlexDirection::RowReverse)
    } else if t == "column"@ {
        Some(FlexDirection::Column)
    } else if t == "column-reverse"@ {
        Some(FlexDirection::ColumnReverse)
    } else {
        None
    }
}

/// The CSS keyword of a flex direction.
pub open spec fn flex_keyword(d: FlexDirection) -> Seq<char> {
    match d {
        FlexDirection::Row => "row"@,
        FlexDirection::RowReverse => "row-reverse"@,
        FlexDirection::Column => "column"@,
        FlexDirection::ColumnReverse => "column-reverse"@,
    }
}

/// A `flex-direction` value reads as the direction whose keyword it is,
/// once trimmed: every direction read has the trimmed text as its keyword,
/// and every text trimming to a direction's keyword reads as it. So the
/// four keywords name four different directions.
pub proof fn lemma_flex_direction_keywords(v: Seq<char>, d: FlexDirection)
    ensures
        flex_direction_of(v) matches Some(e) ==> flex_keyword(e) == trimmed(v),
        trimmed(v) == flex_keyword(d) ==> flex_direction_of(v) == Some(d),
{
    reveal_strlit("row");
    reveal_strlit("row-reverse");
    reveal_strlit("column");
    reveal_strlit("column-reverse");
    assert("row"@.len() == 3 && "row-reverse"@.len() == 11 && "column"@.len() == 6 && "column-reverse"@.len()
        == 14);
}

/// Read a `flex-direction` keyword.
pub fn parse_flex_direction(v: &str) -> (r: Option<FlexDirection>)
    ensures
        r == flex_direction_of(v@),
{
    let t = trim(v);
    let t = t.as_str();
    if str_eq(t, "row") {
        Some(FlexDirection::Row)
    } else if str_eq(t, "row-reverse") {
        Some(FlexDirection::RowReverse)
    } else if str_eq(t, "column") {
        Some(FlexDirection::Column)
    } else if str_eq(t, "column-reverse") {
        Some(FlexDirection::ColumnReverse)
    } else {
        None
    }
}

/// `value.parse::<u16>().unwrap_or(400)`.
pub open spec fn weight_number(v: Seq<char>) -> u16 {
    match parse_u16_spec(v) {
        Some(n) => n,
        None => 400,
    }
}

/// The `font-weight` of a rule declaration: keywords in any case, else a
/// number, else 400.
pub open spec fn font_weight_of(v: Seq<char>) -> u16 {
    let l = lowercase(v);
    if l == "bold"@ || l == "700"@ {
        700
    } else if l == "normal"@ || l == "400"@ {
        400
    } else if l == "medium"@ || l == "500"@ {
        500
    } else {
        weight_number(v)
    }
}

/// `str::parse::<u16>` falling back to 400.
fn weight_or_default(v: &str) -> (r: u16)
    ensures
        r == weight_number(v@),
{
    match parse_u64(v) {
        Some(n) => if n <= 65535 {
            n as u16
        } else {
            400
        },
        None => 400,
    }
}

/// Read the `font-weight` of a rule declaration.
pub fn parse_font_weight(v: &str) -> (r: u16)
    ensures
        r == font_weight_of(v@),
{
    let l = to_lower(v);
    let t = l.as_str();
    if str_eq(t, "bold") || str_eq(t, "700") {
        700
    } else if str_eq(t, "normal") || str_eq(t, "400") {
        400
    } else if str_eq(t, "medium") || str_eq(t, "500") {
        500
    } else {
        weight_or_default(v)
    }
}

/// Read the `font-weight` of an inline `style` attribute: `bold`/`700`,
/// `normal`/`400` exactly, else a number, else 400.
pub fn parse_inline_font_weight(v: &str) -> (r: u16)
    ensures
        r == if v@ == "bold"@ || v@ == "700"@ {
            700
        } else if v@ == "normal"@ || v@ == "400"@ {
            400
        } else {
            weight_number(v@)
        },
{
    if str_eq(v, "bold") || str_eq(v, "700") {
        700
    } else if str_eq(v, "normal") || str_eq(v, "400") {
        400
    } else {
        weight_or_default(v)
    }
}

/// Whether an element of this tag (in any case) is never rendered: the
/// document head and the elements holding scripts, styles and metadata.
pub open spec fn unrendered_tag(tag: Seq<char>) -> bool {
    let t = lowercase(tag);
    t == "head"@ || t == "script"@ || t == "style"@ || t == "meta"@ || t == "link"@ || t == "title"@
        || t == "noscript"@
}

/// Whether the style engine skips an element of this tag, giving it
/// `display: none` and no children.
pub fn renders_nothing(tag: &str) -> (r: bool)
    ensures
        r == unrendered_tag(tag@),
{
    let l = to_lower(tag);
    let t = l.as_str();
    str_eq(t, "head") || str_eq(t, "script") || str_eq(t, "style") || str_eq(t, "meta") || str_eq(t, "link")
        || str_eq(t, "title") || str_eq(t, "noscript")
}

} // verus!
