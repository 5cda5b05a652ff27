//! Random identifiers and the wall clock. Of a fresh identifier only its
//! version-4 and variant bits are claimed, and of the time only the range of
//! the clock's type; the text of an identifier is `uuid_text`.
use vstd::prelude::*;

verus! {

/// Whether `id` carries the bits of a random (version 4) UUID of the RFC
/// 4122 variant: version nibble 4, variant bits `10`.
pub open spec fn is_v4_uuid(id: u128) -> bool {
    id & 0xF000C000000000000000u128 == 0x40008000000000000000u128
}

/// A random version-4 UUID as a `u128` (`uuid::Uuid::new_v4`). Claimed:
/// the version and variant bits, which `new_v4` sets by masking its random
/// value; the other bits are random and nothing is stated of them.
#[verifier::external_body]
pub(crate) fn new_uuid() -> (r: u128)
    ensures
        is_v4_uuid(r),
{
    uuid::Uuid::new_v4().as_u128()
}

/// Whether `t` milliseconds since the Unix epoch lies in the range of
/// `chrono::DateTime<Utc>` (years -262143 to 262142, about ±8.3e15 ms).
pub open spec fn in_clock_range(t: int) -> bool {
    -9_000_000_000_000_000 <= t <= 9_000_000_000_000_000
}

/// Whether `t` lies in the clock's range (see `in_clock_range`).
pub fn clock_in_range(t: i64) -> (r: bool)
    ensures
        r == in_clock_range(t as int),
{
    -9_000_000_000_000_000 <= t && t <= 9_000_000_000_000_000
}

/// The current wall-clock time in milliseconds since the Unix epoch
/// (`chrono::Utc::now` and `DateTime::timestamp_millis`). Only the range of
/// `DateTime<Utc>` (its `MIN_UTC`..`MAX_UTC`) is stated, not the time.
#[verifier::external_body]
pub(crate) fn now_millis() -> (r: i64)
    ensures
        in_clock_range(r as int),
{
    chrono::Utc::now().timestamp_millis()
}

/// Hex digit `k` (0 = most significant) of a 128-bit value.
pub open spec fn nibble(id: u128, k: int) -> u128 {
    (id >> ((124 - 4 * k) as u128)) & 0xFu128
}

/// The lowercase hex character of a digit below 16.
pub open spec fn hex_char(d: u128) -> char {
    if d < 10 {
        (48 + d) as char
    } else {
        (87 + d) as char
    }
}

/// Whether position `p` of the hyphenated text holds a hyphen.
pub open spec fn is_hyphen_at(p: int) -> bool {
    p == 8 || p == 13 || p == 18 || p == 23
}

/// The hex digit shown at position `p` of the hyphenated text.
pub open spec fn digit_at(p: int) -> int {
    if p < 8 {
        p
    } else if p < 13 {
        p - 1
    } else if p < 18 {
        p - 2
    } else if p < 23 {
        p - 3
    } else {
        p - 4
    }
}

/// The hyphenated lowercase text of a UUID (`Display` of `uuid::Uuid`):
/// its 32 hex digits, most significant first, grouped 8-4-4-4-12.
pub open spec fn uuid_text(id: u128) -> Seq<char> {
    Seq::new(36, |p: int| if is_hyphen_at(p) {
        '-'
    } else {
        hex_char(nibble(id, digit_at(p)))
    })
}

/// The text of the UUID with value `id`, as `uuid::Uuid`'s `Display`
/// writes it.
pub(crate) fn uuid_string(id: u128) -> (r: String)
    ensures
        r@ == uuid_text(id),
{
    let mut out: Vec<char> = Vec::new();
    let mut p: u32 = 0;
    let mut k: u32 = 0;
    while p < 36
        invariant
            p <= 36,
            k as int == if p <= 8 { p as int } else { digit_at(p as int) + if is_hyphen_at(p as int) { 1int } else { 0int } },
            out@ == uuid_text(id).take(p as int),
        decreases 36 - p,
    {
        let c = if p == 8 || p == 13 || p == 18 || p == 23 {
            '-'
        } else {
            let d: u128 = (id >> (124 - 4 * k)) & 0xF;
            assert(d < 16) by (bit_vector)
                requires
                    d == (id >> (124 - 4 * k) as u128) & 0xFu128,
            ;
            let c = if d < 10 {
                ((48 + d) as u8) as char
            } else {
                ((87 + d) as u8) as char
            };
            k += 1;
            c
        };
        out.push(c);
        p += 1;
        assert(out@ =~= uuid_text(id).take(p as int));
    }
    assert(uuid_text(id).take(36) =~= uuid_text(id));
    crate::text::string_of(out.as_slice())
}

} // verus!
