//! WMI dates.
use vstd::prelude::*;
use vstd::string::*;
use vstd::utf8::*;

use crate::text::{chars_of, decode_range, string_of};

verus! {

/// The byte offsets 4, 6 and 8 of `b` all start a character (or end `b`), so
/// that year, month and day can be cut out of a date at least eight bytes long.
pub open spec fn date_cuttable(b: Seq<u8>) -> bool {
    is_char_boundary(b, 4) && is_char_boundary(b, 6) && is_char_boundary(b, 8)
}

/// A WMI date `yyyymmddHHMMSS.mmmmmm+UUU` as `yyyy-mm-dd`: bytes 0..4, 4..6
/// and 6..8 of its UTF-8 form with dashes between them. A date shorter than
/// eight bytes, or one whose offsets 4, 6 or 8 fall inside a character, is
/// kept as it is.
pub open spec fn wmi_date_text(d: Seq<char>) -> Seq<char> {
    let b = encode_utf8(d);
    if b.len() >= 8 && date_cuttable(b) {
        decode_utf8(b.subrange(0, 4)) + seq!['-'] + decode_utf8(b.subrange(4, 6)) + seq!['-']
            + decode_utf8(b.subrange(6, 8))
    } else {
        d
    }
}

proof fn lemma_cut_valid(b: Seq<u8>)
    requires
        valid_utf8(b),
        b.len() >= 8,
        date_cuttable(b),
    ensures
        valid_utf8(b.subrange(0, 4)),
        valid_utf8(b.subrange(4, 6)),
        valid_utf8(b.subrange(6, 8)),
{
    let h = b.subrange(0, 8);
    valid_utf8_split(b, 8);
    is_char_boundary_iff_not_is_continuation_byte(b, 4);
    is_char_boundary_iff_not_is_continuation_byte(h, 4);
    assert(h[4] == b[4]);
    valid_utf8_split(h, 4);
    let m = h.subrange(4, 8);
    is_char_boundary_iff_not_is_continuation_byte(b, 6);
    is_char_boundary_iff_not_is_continuation_byte(m, 2);
    assert(m[2] == b[6]);
    valid_utf8_split(m, 2);
    assert(h.subrange(0, 4) =~= b.subrange(0, 4));
    assert(m.subrange(0, 2) =~= b.subrange(4, 6));
    assert(m.subrange(2, 4) =~= b.subrange(6, 8));
}

/// Formats a WMI date as `yyyy-mm-dd`.
pub fn parse_wmi_date(date: &str) -> (r: String)
    ensures
        r@ == wmi_date_text(date@),
{
    let b = date.as_bytes();
    proof {
        encode_utf8_valid_utf8(date@);
    }
    if b.len() >= 8 && date.is_char_boundary(4) && date.is_char_boundary(6)
        && date.is_char_boundary(8) {
        proof {
            lemma_cut_valid(b@);
        }
        let year = decode_range(b, 0, 4);
        let month = decode_range(b, 4, 6);
        let day = decode_range(b, 6, 8);
        match (year, month, day) {
            (Some(mut y), Some(mut m), Some(mut d)) => {
                let mut r: Vec<char> = Vec::new();
                r.append(&mut y);
                r.push('-');
                r.append(&mut m);
                r.push('-');
                r.append(&mut d);
                assert(r@ =~= wmi_date_text(date@));
                string_of(r.as_slice())
            },
            _ => {
                assert(false);
                String::new()
            },
        }
    } else {
        let c = chars_of(date);
        string_of(c.as_slice())
    }
}

} // verus!
