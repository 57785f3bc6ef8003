//! Zero-terminated character buffers as the Windows API fills them.
use vstd::prelude::*;
use vstd::utf8::{decode_utf8, valid_utf8};

use crate::text::chars_of;

verus! {

/// `s` without its trailing elements equal to `z`; elements equal to `z`
/// before the last other element stay.
pub open spec fn strip_trailing<T>(s: Seq<T>, z: T) -> Seq<T>
    decreases s.len(),
{
    if s.len() > 0 && s.last() == z {
        strip_trailing(s.drop_last(), z)
    } else {
        s
    }
}

/// A leading (high) surrogate unit.
pub open spec fn is_high_surrogate(u: u16) -> bool {
    0xD800 <= u < 0xDC00
}

/// A trailing (low) surrogate unit.
pub open spec fn is_low_surrogate(u: u16) -> bool {
    0xDC00 <= u < 0xE000
}

/// The text that the UTF-16 units `v` encode: a high surrogate followed by a
/// low one is one character above U+FFFF, any other surrogate becomes U+FFFD,
/// and every other unit is the character with that code.
pub open spec fn utf16_lossy(v: Seq<u16>) -> Seq<char>
    decreases v.len(),
{
    if v.len() == 0 {
        seq![]
    } else if v.len() >= 2 && is_high_surrogate(v[0]) && is_low_surrogate(v[1]) {
        seq![((0x10000 + (v[0] - 0xD800) * 0x400 + (v[1] - 0xDC00)) as u32) as char]
            + utf16_lossy(v.subrange(2, v.len() as int))
    } else if is_high_surrogate(v[0]) || is_low_surrogate(v[0]) {
        seq!['\u{FFFD}'] + utf16_lossy(v.drop_first())
    } else {
        seq![(v[0] as u32) as char] + utf16_lossy(v.drop_first())
    }
}

/// What `String::from_utf8_lossy` gives for `v`.
pub uninterp spec fn utf8_lossy(v: Seq<u8>) -> Seq<char>;

/// Relies on `String::from_utf16_lossy`: the decoded text, with U+FFFD in place
/// of each unpaired surrogate.
#[verifier::external_body]
fn decode_utf16_lossy(v: &[u16]) -> (r: String)
    ensures
        r@ == utf16_lossy(v@),
{
    String::from_utf16_lossy(v)
}

/// Relies on `String::from_utf8_lossy`: the decoded text, with U+FFFD in place
/// of invalid sequences; valid UTF-8 comes back unchanged.
#[verifier::external_body]
fn decode_utf8_lossy(v: &[u8]) -> (r: String)
    ensures
        r@ == utf8_lossy(v@),
        valid_utf8(v@) ==> r@ == decode_utf8(v@),
{
    String::from_utf8_lossy(v).into_owned()
}

/// A copy of `v` without its trailing zeros.
pub fn trim_zeros_u16(v: &[u16]) -> (r: Vec<u16>)
    ensures
        r@ == strip_trailing(v@, 0u16),
{
    let mut j: usize = v.len();
    assert(v@.subrange(0, v@.len() as int) =~= v@);
    while j > 0 && v[j - 1] == 0
        invariant
            j <= v@.len(),
            strip_trailing(v@, 0u16) == strip_trailing(v@.subrange(0, j as int), 0u16),
        decreases j,
    {
        assert(v@.subrange(0, j as int).drop_last() =~= v@.subrange(0, j - 1));
        j = j - 1;
    }
    let mut r: Vec<u16> = Vec::new();
    let mut i: usize = 0;
    while i < j
        invariant
            i <= j <= v@.len(),
            r@ =~= v@.subrange(0, i as int),
        decreases j - i,
    {
        r.push(v[i]);
        i = i + 1;
        assert(r@ =~= v@.subrange(0, i as int));
    }
    r
}

/// A copy of `v` without its trailing zeros.
pub fn trim_zeros_u8(v: &[u8]) -> (r: Vec<u8>)
    ensures
        r@ == strip_trailing(v@, 0u8),
{
    let mut j: usize = v.len();
    assert(v@.subrange(0, v@.len() as int) =~= v@);
    while j > 0 && v[j - 1] == 0
        invariant
            j <= v@.len(),
            strip_trailing(v@, 0u8) == strip_trailing(v@.subrange(0, j as int), 0u8),
        decreases j,
    {
        assert(v@.subrange(0, j as int).drop_last() =~= v@.subrange(0, j - 1));
        j = j - 1;
    }
    let mut r: Vec<u8> = Vec::new();
    let mut i: usize = 0;
    while i < j
        invariant
            i <= j <= v@.len(),
            r@ =~= v@.subrange(0, i as int),
        decreases j - i,
    {
        r.push(v[i]);
        i = i + 1;
        assert(r@ =~= v@.subrange(0, i as int));
    }
    r
}

/// UTF-16 text in `v`, without its trailing zeros (the terminator and the unused
/// part of a fixed buffer).
pub fn u16_slice_to_string(v: &[u16]) -> (r: String)
    ensures
        r@ == utf16_lossy(strip_trailing(v@, 0u16)),
{
    let t = trim_zeros_u16(v);
    decode_utf16_lossy(t.as_slice())
}

/// UTF-8 text in `v`, without its trailing zeros.
pub fn u8_slice_to_string(v: &[u8]) -> (r: String)
    ensures
        r@ == utf8_lossy(strip_trailing(v@, 0u8)),
        valid_utf8(strip_trailing(v@, 0u8)) ==> r@ == decode_utf8(strip_trailing(v@, 0u8)),
{
    let t = trim_zeros_u8(v);
    decode_utf8_lossy(t.as_slice())
}

/// The little-endian 16-bit units of `b`, two bytes each.
pub open spec fn le_units(b: Seq<u8>) -> Seq<u16> {
    Seq::new(b.len() / 2, |i: int| (b[2 * i] as int + 256 * b[2 * i + 1] as int) as u16)
}

/// `s` without its zero units.
pub open spec fn drop_zeros(s: Seq<u16>) -> Seq<u16>
    decreases s.len(),
{
    if s.len() == 0 {
        seq![]
    } else if s.last() == 0 {
        drop_zeros(s.drop_last())
    } else {
        drop_zeros(s.drop_last()).push(s.last())
    }
}

/// The little-endian 16-bit units of `bytes` (a trailing odd byte is not
/// used), without the zero units where `skip_zeros` is set.
pub fn units_from_le_bytes(bytes: &[u8], skip_zeros: bool) -> (r: Vec<u16>)
    ensures
        r@ == (if skip_zeros {
            drop_zeros(le_units(bytes@))
        } else {
            le_units(bytes@)
        }),
{
    let ghost units = le_units(bytes@);
    let n = bytes.len();
    let half = n / 2;
    let mut r: Vec<u16> = Vec::new();
    let mut i: usize = 0;
    while i < half
        invariant
            n == bytes@.len(),
            half == n / 2,
            units == le_units(bytes@),
            i <= half,
            r@ == (if skip_zeros {
                drop_zeros(units.subrange(0, i as int))
            } else {
                units.subrange(0, i as int)
            }),
        decreases half - i,
    {
        let lo = bytes[2 * i];
        let hi = bytes[2 * i + 1];
        let u: u16 = (lo as u16) | ((hi as u16) << 8u16);
        assert(u == (lo as int + 256 * hi as int) as u16) by (bit_vector)
            requires
                u == (lo as u16) | ((hi as u16) << 8u16),
        ;
        assert(units.subrange(0, i + 1).drop_last() =~= units.subrange(0, i as int));
        assert(units[i as int] == u);
        if !skip_zeros || u != 0 {
            r.push(u);
        }
        i = i + 1;
        assert(!skip_zeros ==> r@ =~= units.subrange(0, i as int));
    }
    assert(units.subrange(0, half as int) =~= units);
    r
}

/// `i` is the first position of a zero in `s`.
pub open spec fn is_first_zero(s: Seq<u16>, i: int) -> bool {
    &&& 0 <= i < s.len()
    &&& s[i] == 0
    &&& forall|j: int| 0 <= j < i ==> s[j] != 0
}

/// `s` up to its first zero, or all of `s` where it holds none.
pub open spec fn before_zero(s: Seq<u16>) -> Seq<u16> {
    if exists|i: int| is_first_zero(s, i) {
        s.subrange(0, choose|i: int| is_first_zero(s, i))
    } else {
        s
    }
}

/// UTF-16 text held in little-endian bytes, up to the first zero unit; an odd
/// number of bytes gives the empty string.
pub fn u16_bytes_to_string(bytes: &[u8]) -> (r: String)
    ensures
        bytes@.len() % 2 != 0 ==> r@.len() == 0,
        bytes@.len() % 2 == 0 ==> r@ == utf16_lossy(before_zero(le_units(bytes@))),
{
    if bytes.len() % 2 != 0 {
        return String::new();
    }
    let ghost units = le_units(bytes@);
    let n = bytes.len();
    let half = n / 2;
    let mut r: Vec<u16> = Vec::new();
    let mut i: usize = 0;
    while i < half
        invariant
            n == bytes@.len(),
            n % 2 == 0,
            half == n / 2,
            units == le_units(bytes@),
            i <= half,
            r@ =~= units.subrange(0, i as int),
            forall|j: int| 0 <= j < i ==> units[j] != 0,
        decreases half - i,
    {
        let lo = bytes[2 * i];
        let hi = bytes[2 * i + 1];
        let u: u16 = (lo as u16) | ((hi as u16) << 8u16);
        assert(u == (lo as int + 256 * hi as int) as u16) by (bit_vector)
            requires
                u == (lo as u16) | ((hi as u16) << 8u16),
        ;
        if u == 0 {
            proof {
                assert(is_first_zero(units, i as int));
                let k = choose|k: int| is_first_zero(units, k);
                if k < i {
                    assert(units[k] != 0);
                }
                if i < k {
                    assert(units[i as int] != 0);
                }
            }
            return decode_utf16_lossy(r.as_slice());
        }
        r.push(u);
        i = i + 1;
        assert(r@ =~= units.subrange(0, i as int));
    }
    proof {
        if exists|k: int| is_first_zero(units, k) {
            let k = choose|k: int| is_first_zero(units, k);
            assert(units[k] == 0);
        }
        assert(units.subrange(0, units.len() as int) =~= units);
    }
    decode_utf16_lossy(r.as_slice())
}

/// The UTF-16 code units of one character: the character itself below
/// U+10000, else a surrogate pair.
pub open spec fn utf16_units(c: char) -> Seq<u16> {
    let u = c as u32;
    if u < 0x10000 {
        seq![u as u16]
    } else {
        let v = (u - 0x10000) as u32;
        seq![(0xD800 + v / 0x400) as u16, (0xDC00 + v % 0x400) as u16]
    }
}

/// The UTF-16 form of `s`, as `str::encode_utf16` yields it.
pub open spec fn utf16_of(s: Seq<char>) -> Seq<u16>
    decreases s.len(),
{
    if s.len() == 0 {
        seq![]
    } else {
        utf16_of(s.drop_last()) + utf16_units(s.last())
    }
}

/// The UTF-16 form of `s` with a terminating zero, as the Windows API takes strings.
pub fn wide_str(s: &str) -> (r: Vec<u16>)
    ensures
        r@ == utf16_of(s@).push(0u16),
{
    let c = chars_of(s);
    let mut r: Vec<u16> = Vec::new();
    let mut i: usize = 0;
    while i < c.len()
        invariant
            i <= c@.len(),
            r@ == utf16_of(c@.subrange(0, i as int)),
        decreases c@.len() - i,
    {
        let u = c[i] as u32;
        let ghost before = r@;
        if u < 0x10000 {
            r.push(u as u16);
        } else {
            let v = u - 0x10000;
            r.push((0xD800 + v / 0x400) as u16);
            r.push((0xDC00 + v % 0x400) as u16);
        }
        assert(c@.subrange(0, i + 1).drop_last() =~= c@.subrange(0, i as int));
        assert(r@ =~= before + utf16_units(c@[i as int]));
        i = i + 1;
    }
    assert(c@.subrange(0, c@.len() as int) =~= c@);
    r.push(0u16);
    r
}

} // verus!
