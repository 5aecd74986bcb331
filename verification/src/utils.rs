//! Color parsing and duration formatting.

use std::time::Duration;

use vstd::prelude::*;
use vstd::string::StringSliceAdditionalSpecFns;

use crate::text::{decimal, digit_char, push_char, push_decimal};

verus! {

/// A color as four 8-bit channels.
#[derive(Debug, Clone, Copy, PartialEq, Eq, Structural)]
pub struct Rgba {
    pub r: u8,
    pub g: u8,
    pub b: u8,
    pub a: u8,
}

/// The bytes that remain once every leading `#` is removed.
pub open spec fn trim_hashes(b: Seq<u8>) -> Seq<u8>
    decreases b.len(),
{
    if b.len() > 0 && b[0] == 35 {
        trim_hashes(b.drop_first())
    } else {
        b
    }
}

/// An ASCII hexadecimal digit.
pub open spec fn is_hex_digit(c: u8) -> bool {
    (48 <= c <= 57) || (65 <= c <= 70) || (97 <= c <= 102)
}

/// The value of a hexadecimal digit.
pub open spec fn hex_value(c: u8) -> int {
    if 48 <= c <= 57 {
        c - 48
    } else if 65 <= c <= 70 {
        c - 55
    } else {
        c - 87
    }
}

/// `u8::from_str_radix(s, 16)` on a two-byte `s`: an optional `+` followed by
/// hexadecimal digits.
pub open spec fn hex_pair(a: u8, b: u8) -> Option<u8> {
    if a == 43 && is_hex_digit(b) {
        Some(hex_value(b) as u8)
    } else if is_hex_digit(a) && is_hex_digit(b) {
        Some((16 * hex_value(a) + hex_value(b)) as u8)
    } else {
        None
    }
}

/// Channel `k` of the trimmed color text `t`: the two bytes at `2 * k`.
pub open spec fn channel(t: Seq<u8>, k: int) -> Option<u8> {
    hex_pair(t[2 * k], t[2 * k + 1])
}

/// Index `i` starts a character of the UTF-8 bytes `b` (or is their end).
pub open spec fn is_char_start(b: Seq<u8>, i: int) -> bool {
    i == 0 || i == b.len() || (0 <= i < b.len() && !(0x80 <= b[i] < 0xc0))
}

/// The number of channels a trimmed color text of length `len` holds (zero
/// when the length is neither six nor eight).
pub open spec fn channel_count(len: int) -> int {
    if len == 6 {
        3
    } else if len == 8 {
        4
    } else {
        0
    }
}

/// Channel `k` of `t` is read (every channel before it parsed) and its slice
/// `2 * k .. 2 * k + 2` does not start or does not end on a character boundary.
pub open spec fn channel_slice_fails(t: Seq<u8>, k: int) -> bool {
    &&& 0 <= k < channel_count(t.len() as int)
    &&& forall|m: int| 0 <= m < k ==> #[trigger] channel(t, m) is Some
    &&& !is_char_start(t, 2 * k) || !is_char_start(t, 2 * k + 2)
}

/// Reading the channels of `t` in order slices it inside a character.
pub open spec fn color_slicing_fails(t: Seq<u8>) -> bool {
    exists|k: int| #[trigger] channel_slice_fails(t, k)
}

/// The color that the trimmed text `t` describes: six digits give an opaque
/// color, eight digits give the alpha channel too; anything else is no color.
pub open spec fn parsed_color(t: Seq<u8>) -> Option<Rgba> {
    if t.len() == 6 {
        if channel(t, 0) is Some && channel(t, 1) is Some && channel(t, 2) is Some {
            Some(
                Rgba {
                    r: channel(t, 0).unwrap(),
                    g: channel(t, 1).unwrap(),
                    b: channel(t, 2).unwrap(),
                    a: 255,
                },
            )
        } else {
            None
        }
    } else if t.len() == 8 {
        if channel(t, 0) is Some && channel(t, 1) is Some && channel(t, 2) is Some && channel(
            t,
            3,
        ) is Some {
            Some(
                Rgba {
                    r: channel(t, 0).unwrap(),
                    g: channel(t, 1).unwrap(),
                    b: channel(t, 2).unwrap(),
                    a: channel(t, 3).unwrap(),
                },
            )
        } else {
            None
        }
    } else {
        None
    }
}

fn is_hex_digit_byte(c: u8) -> (r: bool)
    ensures
        r == is_hex_digit(c),
{
    (48 <= c && c <= 57) || (65 <= c && c <= 70) || (97 <= c && c <= 102)
}

fn hex_value_byte(c: u8) -> (v: u8)
    requires
        is_hex_digit(c),
    ensures
        v == hex_value(c),
        v < 16,
{
    if 48 <= c && c <= 57 {
        c - 48
    } else if 65 <= c && c <= 70 {
        c - 55
    } else {
        c - 87
    }
}

/// `u8::from_str_radix` in base 16 on the two bytes `a`, `b`.
pub fn parse_hex_pair(a: u8, b: u8) -> (r: Option<u8>)
    ensures
        r == hex_pair(a, b),
{
    if a == 43 && is_hex_digit_byte(b) {
        Some(hex_value_byte(b))
    } else if is_hex_digit_byte(a) && is_hex_digit_byte(b) {
        Some(16 * hex_value_byte(a) + hex_value_byte(b))
    } else {
        None
    }
}

/// Whether index `i` of the bytes of `b` that follow `start` starts a character.
fn is_char_start_after(b: &[u8], start: usize, i: usize) -> (r: bool)
    requires
        start + i <= b@.len(),
    ensures
        r == is_char_start(b@.skip(start as int), i as int),
{
    let n = b.len();
    i == 0 || start + i == n || !(0x80 <= b[start + i] && b[start + i] < 0xc0)
}

/// Whether reading the channels of the color text `hex` in order would slice
/// it inside a character, the one input that `parse_color_rgba` does not take.
pub fn color_slicing_panics(hex: &str) -> (fails: bool)
    ensures
        fails == color_slicing_fails(trim_hashes(hex.spec_bytes())),
{
    let bytes = hex.as_bytes();
    let mut start: usize = 0;
    assert(bytes@.skip(0) =~= bytes@);
    while start < bytes.len() && bytes[start] == 35
        invariant
            0 <= start <= bytes@.len(),
            trim_hashes(bytes@) == trim_hashes(bytes@.skip(start as int)),
        decreases bytes@.len() - start,
    {
        assert(bytes@.skip(start as int).drop_first() =~= bytes@.skip(start + 1));
        start += 1;
    }
    let ghost t = bytes@.skip(start as int);
    assert(trim_hashes(t) == t);
    let n = bytes.len();
    let len = n - start;
    let count: usize = if len == 6 {
        3
    } else if len == 8 {
        4
    } else {
        0
    };
    let mut k: usize = 0;
    while k < count
        invariant
            t == bytes@.skip(start as int),
            trim_hashes(hex.spec_bytes()) == t,
            n == bytes@.len(),
            start + len == n,
            count == channel_count(t.len() as int),
            count <= 4,
            t.len() == len,
            0 <= k <= count,
            forall|m: int| 0 <= m < k ==> #[trigger] channel(t, m) is Some,
            forall|m: int| 0 <= m < k ==> !#[trigger] channel_slice_fails(t, m),
        decreases count - k,
    {
        if !is_char_start_after(bytes, start, 2 * k) || !is_char_start_after(bytes, start, 2 * k + 2) {
            assert(channel_slice_fails(t, k as int));
            return true;
        }
        assert(!channel_slice_fails(t, k as int));
        if parse_hex_pair(bytes[start + 2 * k], bytes[start + 2 * k + 1]).is_none() {
            assert(channel(t, k as int) is None);
            assert forall|m: int| !#[trigger] channel_slice_fails(t, m) by {
                if k < m {
                    assert(!(channel(t, k as int) is Some));
                }
            }
            return false;
        }
        k += 1;
    }
    assert forall|m: int| !#[trigger] channel_slice_fails(t, m) by {}
    false
}

/// The channels of a color written as `#rrggbb` or `#rrggbbaa` (any number
/// of leading `#`, digits in either case); a six-digit color is opaque.
pub fn parse_color_rgba(hex: &str) -> (color: Option<Rgba>)
    requires
        !color_slicing_fails(trim_hashes(hex.spec_bytes())),
    ensures
        color == parsed_color(trim_hashes(hex.spec_bytes())),
{
    let bytes = hex.as_bytes();
    let mut start: usize = 0;
    assert(bytes@.skip(0) =~= bytes@);
    while start < bytes.len() && bytes[start] == 35
        invariant
            0 <= start <= bytes@.len(),
            trim_hashes(bytes@) == trim_hashes(bytes@.skip(start as int)),
        decreases bytes@.len() - start,
    {
        assert(bytes@.skip(start as int).drop_first() =~= bytes@.skip(start + 1));
        start += 1;
    }
    let ghost t = bytes@.skip(start as int);
    assert(trim_hashes(t) == t);
    let len = bytes.len() - start;
    if len == 6 || len == 8 {
        let r = parse_hex_pair(bytes[start], bytes[start + 1]);
        assert(r == channel(t, 0));
        if r.is_none() {
            return None;
        }
        let g = parse_hex_pair(bytes[start + 2], bytes[start + 3]);
        assert(g == channel(t, 1));
        if g.is_none() {
            return None;
        }
        let b = parse_hex_pair(bytes[start + 4], bytes[start + 5]);
        assert(b == channel(t, 2));
        if b.is_none() {
            return None;
        }
        if len == 6 {
            Some(Rgba { r: r.unwrap(), g: g.unwrap(), b: b.unwrap(), a: 255 })
        } else {
            let a = parse_hex_pair(bytes[start + 6], bytes[start + 7]);
            assert(a == channel(t, 3));
            if a.is_none() {
                return None;
            }
            Some(Rgba { r: r.unwrap(), g: g.unwrap(), b: b.unwrap(), a: a.unwrap() })
        }
    } else {
        None
    }
}

/// `n` written as `{:03}` writes it: in decimal, with zeros in front up to
/// three digits.
pub open spec fn zero_padded3(n: nat) -> Seq<char> {
    let d = decimal(n);
    if d.len() >= 3 {
        d
    } else {
        Seq::new((3 - d.len()) as nat, |i: int| '0') + d
    }
}

/// How a duration of `secs` whole seconds and `millis` further milliseconds
/// is shown: `S.MMMs` from one second on, `Mms` below.
pub open spec fn duration_text(secs: nat, millis: nat) -> Seq<char> {
    if secs > 0 {
        decimal(secs) + seq!['.'] + zero_padded3(millis) + seq!['s']
    } else {
        decimal(millis) + seq!['m', 's']
    }
}

proof fn lemma_decimal_len(n: nat)
    ensures
        n < 10 ==> decimal(n).len() == 1,
        10 <= n < 100 ==> decimal(n).len() == 2,
        n >= 100 ==> decimal(n).len() >= 3,
    decreases n,
{
    if n >= 10 {
        lemma_decimal_len(n / 10);
    }
}

/// The text for `secs` seconds and `millis` milliseconds.
pub fn format_secs_millis(secs: u64, millis: u32) -> (text: String)
    ensures
        text@ == duration_text(secs as nat, millis as nat),
{
    let mut text = String::new();
    if secs > 0 {
        push_decimal(&mut text, secs);
        push_char(&mut text, '.');
        proof {
            lemma_decimal_len(millis as nat);
        }
        let ghost before = text@;
        if millis < 10 {
            push_char(&mut text, '0');
            push_char(&mut text, '0');
        } else if millis < 100 {
            push_char(&mut text, '0');
        }
        let ghost zeros = text@.subrange(before.len() as int, text@.len() as int);
        push_decimal(&mut text, millis as u64);
        push_char(&mut text, 's');
        assert(zero_padded3(millis as nat) =~= zeros + decimal(millis as nat));
        assert(text@ =~= duration_text(secs as nat, millis as nat));
    } else {
        push_decimal(&mut text, millis as u64);
        push_char(&mut text, 'm');
        push_char(&mut text, 's');
        assert(text@ =~= duration_text(secs as nat, millis as nat));
    }
    text
}

/// What `Duration::as_secs` returns for `d`: its whole seconds.
pub uninterp spec fn whole_secs(d: Duration) -> u64;

/// What `Duration::subsec_millis` returns for `d`: its milliseconds past the
/// whole seconds.
pub uninterp spec fn sub_millis(d: Duration) -> u32;

/// Reads the whole seconds with `Duration::as_secs`. Trusted: the contract
/// claims only that the value is the named value `whole_secs` of this duration.
#[verifier::external_body]
fn duration_secs(duration: &Duration) -> (secs: u64)
    ensures
        secs == whole_secs(*duration),
{
    duration.as_secs()
}

/// Reads the milliseconds past the whole seconds with
/// `Duration::subsec_millis`. Trusted: the contract claims that the value is
/// the named value `sub_millis` of this duration and is below one thousand,
/// as std documents.
#[verifier::external_body]
fn duration_subsec_millis(duration: &Duration) -> (millis: u32)
    ensures
        millis == sub_millis(*duration),
        millis < 1000,
{
    duration.subsec_millis()
}

/// A short human-readable duration: `S.MMMs` from one second on, `Mms` below;
/// what lies below a millisecond is dropped.
pub fn format_duration(duration: Duration) -> (text: String)
    ensures
        text@ == duration_text(whole_secs(duration) as nat, sub_millis(duration) as nat),
        sub_millis(duration) < 1000,
        text@.len() >= 2,
        text@.last() == 's',
        text@[text@.len() - 2] == 'm' <==> whole_secs(duration) == 0,
{
    let secs = duration_secs(&duration);
    let millis = duration_subsec_millis(&duration);
    proof {
        lemma_duration_text_unit(secs as nat, millis as nat);
    }
    format_secs_millis(secs, millis)
}

/// The text ends in `s`, and it ends in `ms` exactly when there are no whole
/// seconds.
pub proof fn lemma_duration_text_unit(secs: nat, millis: nat)
    ensures
        ({
            let t = duration_text(secs, millis);
            &&& t.len() >= 2
            &&& t.last() == 's'
            &&& (t[t.len() - 2] == 'm' <==> secs == 0)
        }),
{
    lemma_decimal_last(millis);
    lemma_decimal_last(secs);
    let t = duration_text(secs, millis);
    if secs > 0 {
        let z = zero_padded3(millis);
        let d = decimal(millis);
        assert(z.last() == d.last());
        assert(t[t.len() - 2] == z.last());
    }
}

/// The last character of a decimal representation is the last digit.
proof fn lemma_decimal_last(n: nat)
    ensures
        decimal(n).len() >= 1,
        decimal(n).last() == digit_char((n % 10) as int),
        decimal(n).last() != 'm',
    decreases n,
{
}

} // verus!
