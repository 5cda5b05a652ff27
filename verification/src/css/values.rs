//! Keyword, `url()` and colour values.
use vstd::prelude::*;
use crate::css::style_engine::{hex_digit_value, radix16_u8, rgb, ParsedColor};
use vstd::utf8::{encode_utf8, is_char_boundary};
use crate::css::EasingFunction;
use crate::text::{chars_of, has_prefix, str_eq, sub_string, trim, trimmed};

verus! {

/// The easing function a keyword names, after trimming whitespace.
pub open spec fn easing_of(s: Seq<char>) -> Option<EasingFunction> {
    let t = trimmed(s);
    if t == "linear"@ {
        Some(EasingFunction::Linear)
    } else if t == "ease"@ {
        Some(EasingFunction::Ease)
    } else if t == "ease-in"@ {
        Some(EasingFunction::EaseIn)
    } else if t == "ease-out"@ {
        Some(EasingFunction::EaseOut)
    } else {
        None
    }
}

/// Parse an easing function keyword.
pub fn parse_easing(input: &str) -> (r: Option<EasingFunction>)
    ensures
        r == easing_of(input@),
{
    let t = trim(input);
    let t = t.as_str();
    if str_eq(t, "linear") {
        Some(EasingFunction::Linear)
    } else if str_eq(t, "ease") {
        Some(EasingFunction::Ease)
    } else if str_eq(t, "ease-in") {
        Some(EasingFunction::EaseIn)
    } else if str_eq(t, "ease-out") {
        Some(EasingFunction::EaseOut)
    } else {
        None
    }
}

/// Whether `t` has the shape `url(...)`.
pub open spec fn is_url_call(t: Seq<char>) -> bool {
    t.len() >= 5 && has_prefix(t, "url("@) && t.last() == ')'
}

/// The trimmed text between `url(` and `)` of the trimmed input.
pub open spec fn url_body(input: Seq<char>) -> Seq<char> {
    let t = trimmed(input);
    trimmed(t.subrange(4, t.len() - 1))
}

/// Whether `s` starts and ends with the quote `q` (one character counts
/// as both).
pub open spec fn quoted_by(s: Seq<char>, q: char) -> bool {
    s.len() >= 1 && s[0] == q && s.last() == q
}

/// The argument of a `url(...)` value, with one pair of surrounding double
/// or single quotes removed.
pub open spec fn url_arg(input: Seq<char>) -> Option<Seq<char>> {
    if is_url_call(trimmed(input)) {
        let b = url_body(input);
        if quoted_by(b, '"') || quoted_by(b, '\'') {
            Some(b.subrange(1, b.len() - 1))
        } else {
            Some(b)
        }
    } else {
        None
    }
}

/// The inputs on which the quote removal would cut past a lone quote
/// character.
pub open spec fn url_arg_is_lone_quote(input: Seq<char>) -> bool {
    is_url_call(trimmed(input)) && url_body(input).len() == 1 && (url_body(input)[0] == '"'
        || url_body(input)[0] == '\'')
}

/// Parse a URL from a `url()` function value.
pub fn parse_url(input: &str) -> (r: Option<String>)
    requires
        !url_arg_is_lone_quote(input@),
    ensures
        match r {
            Some(u) => url_arg(input@) == Some(u@),
            None => url_arg(input@) is None,
        },
{
    let t = trim(input);
    let tv = chars_of(t.as_str());
    let n = tv.len();
    proof {
        reveal_strlit("url(");
    }
    if !(n >= 5 && tv[0] == 'u' && tv[1] == 'r' && tv[2] == 'l' && tv[3] == '(' && tv[n - 1] == ')') {
        proof {
            if is_url_call(tv@) {
                assert(tv@.subrange(0, 4) == "url("@);
                assert(tv@.subrange(0, 4)[0] == tv@[0]);
                assert(tv@.subrange(0, 4)[1] == tv@[1]);
                assert(tv@.subrange(0, 4)[2] == tv@[2]);
                assert(tv@.subrange(0, 4)[3] == tv@[3]);
            }
        }
        return None;
    }
    assert(tv@.subrange(0, 4) =~= "url("@);
    let inner = sub_string(&tv, 4, n - 1);
    let b = trim(inner.as_str());
    let bv = chars_of(b.as_str());
    let m = bv.len();
    if m >= 1 && ((bv[0] == '"' && bv[m - 1] == '"') || (bv[0] == '\'' && bv[m - 1] == '\'')) {
        Some(sub_string(&bv, 1, m - 1))
    } else {
        Some(b)
    }
}

/// One hex digit as a channel: `u8::from_str_radix` of the digit, times 17.
pub open spec fn short_channel(d: u8) -> Option<u8> {
    match radix16_u8(seq![d]) {
        Some(v) => Some((v * 17) as u8),
        None => None,
    }
}

/// The colour a CSS value names: `#` and three hex digits (each times 17)
/// or six (in pairs), or `black`, `white`, `transparent` exactly. `None`
/// marks the values whose digits would be cut inside a character.
pub open spec fn value_color_of(s: Seq<char>) -> Option<Option<ParsedColor>> {
    if s.len() > 0 && s[0] == '#' {
        let b = encode_utf8(s);
        let n = b.len() - 1;
        if n == 3 {
            if !is_char_boundary(b, 2) {
                None
            } else {
                match short_channel(b[1]) {
                    None => Some(None),
                    Some(r) => if !is_char_boundary(b, 3) {
                        None
                    } else {
                        match short_channel(b[2]) {
                            None => Some(None),
                            Some(g) => match short_channel(b[3]) {
                                None => Some(None),
                                Some(bl) => Some(Some(rgb(r, g, bl))),
                            },
                        }
                    },
                }
            }
        } else if n == 6 {
            if !is_char_boundary(b, 3) {
                None
            } else {
                match radix16_u8(b.subrange(1, 3)) {
                    None => Some(None),
                    Some(r) => if !is_char_boundary(b, 5) {
                        None
                    } else {
                        match radix16_u8(b.subrange(3, 5)) {
                            None => Some(None),
                            Some(g) => match radix16_u8(b.subrange(5, 7)) {
                                None => Some(None),
                                Some(bl) => Some(Some(rgb(r, g, bl))),
                            },
                        }
                    },
                }
            }
        } else {
            Some(None)
        }
    } else if s == "black"@ {
        Some(Some(rgb(0, 0, 0)))
    } else if s == "white"@ {
        Some(Some(rgb(255, 255, 255)))
    } else if s == "transparent"@ {
        Some(Some(ParsedColor { r: 0, g: 0, b: 0, transparent: true }))
    } else {
        Some(None)
    }
}

/// One hex digit as a channel (see `short_channel`).
fn short_channel_exec(d: u8) -> (r: Option<u8>)
    ensures
        r == short_channel(d),
{
    proof {
        assert(seq![d].drop_last() =~= Seq::<u8>::empty());
        reveal_with_fuel(crate::css::style_engine::hex_digits_value, 2);
    }
    if d == 43 {
        proof {
            assert(seq![d].drop_first() =~= Seq::<u8>::empty());
        }
        None
    } else {
        match hex_digit_value(d) {
            Some(v) => Some(v * 17),
            None => None,
        }
    }
}

/// The colour of a value, `None` where reading it would cut a character
/// (see `value_color_of`).
fn value_color_total(s: &str) -> (r: Option<Option<ParsedColor>>)
    ensures
        r == value_color_of(s@),
{
    let v = chars_of(s);
    if v.len() > 0 && v[0] == '#' {
        let b = s.as_bytes();
        let ghost bs = b@;
        assert(bs == encode_utf8(s@));
        let n = if b.len() > 0 {
            b.len() - 1
        } else {
            0
        };
        if n == 3 {
            if !s.is_char_boundary(2) {
                return None;
            }
            let r = match short_channel_exec(b[1]) {
                Some(x) => x,
                None => {
                    return Some(None);
                },
            };
            if !s.is_char_boundary(3) {
                return None;
            }
            let g = match short_channel_exec(b[2]) {
                Some(x) => x,
                None => {
                    return Some(None);
                },
            };
            let bl = match short_channel_exec(b[3]) {
                Some(x) => x,
                None => {
                    return Some(None);
                },
            };
            Some(Some(ParsedColor { r, g, b: bl, transparent: false }))
        } else if n == 6 {
            if !s.is_char_boundary(3) {
                return None;
            }
            assert(bs.subrange(1, 3) =~= seq![bs[1], bs[2]]);
            let r = match crate::css::style_engine::radix16_pair(b[1], b[2]) {
                Some(x) => x,
                None => {
                    return Some(None);
                },
            };
            if !s.is_char_boundary(5) {
                return None;
            }
            assert(bs.subrange(3, 5) =~= seq![bs[3], bs[4]]);
            let g = match crate::css::style_engine::radix16_pair(b[3], b[4]) {
                Some(x) => x,
                None => {
                    return Some(None);
                },
            };
            assert(bs.subrange(5, 7) =~= seq![bs[5], bs[6]]);
            let bl = match crate::css::style_engine::radix16_pair(b[5], b[6]) {
                Some(x) => x,
                None => {
                    return Some(None);
                },
            };
            Some(Some(ParsedColor { r, g, b: bl, transparent: false }))
        } else {
            Some(None)
        }
    } else if str_eq(s, "black") {
        Some(Some(ParsedColor { r: 0, g: 0, b: 0, transparent: false }))
    } else if str_eq(s, "white") {
        Some(Some(ParsedColor { r: 255, g: 255, b: 255, transparent: false }))
    } else if str_eq(s, "transparent") {
        Some(Some(ParsedColor { r: 0, g: 0, b: 0, transparent: true }))
    } else {
        Some(None)
    }
}

/// Whether reading `s` as a value colour would cut a character.
pub fn value_color_panics(s: &str) -> (r: bool)
    ensures
        r == (value_color_of(s@) is None),
{
    value_color_total(s).is_none()
}

/// Read a value's colour (see `value_color_of`).
pub fn parse_value_color(s: &str) -> (r: Option<ParsedColor>)
    requires
        value_color_of(s@) is Some,
    ensures
        r == value_color_of(s@)->0,
{
    match value_color_total(s) {
        Some(c) => c,
        None => None,
    }
}

} // verus!
