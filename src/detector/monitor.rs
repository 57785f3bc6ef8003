//! Monitors.
use vstd::prelude::*;

use crate::text::{dec_digits, format_decimal, push_str, string_of};

verus! {

/// The manufacture date text: `{year}年第{week}周`, or `{year}年` where the
/// week is zero (not given).
pub open spec fn manufacture_date_of(year: nat, week: nat) -> Seq<char> {
    if week != 0 {
        dec_digits(year) + "年第"@ + dec_digits(week) + "周"@
    } else {
        dec_digits(year) + "年"@
    }
}

/// The manufacture date as it is shown.
pub fn manufacture_date_text(year: u16, week: u8) -> (r: String)
    ensures
        r@ == manufacture_date_of(year as nat, week as nat),
{
    let mut v = format_decimal(year as u64);
    if week != 0 {
        push_str(&mut v, "年第");
        let mut w = format_decimal(week as u64);
        v.append(&mut w);
        push_str(&mut v, "周");
    } else {
        push_str(&mut v, "年");
    }
    assert(v@ =~= manufacture_date_of(year as nat, week as nat));
    string_of(v.as_slice())
}

} // verus!
