//! Byte ranges as the object store reads them: first and last byte, both
//! included.

use crate::digits::{decimal, decimal_of};
use vstd::prelude::*;

verus! {

/// The header for the bytes `start..end`.
pub open spec fn byte_range(start: nat, end: nat) -> Seq<char> {
    "bytes="@ + decimal(start) + "-"@ + decimal(
        if end == 0 {
            0
        } else {
            (end - 1) as nat
        },
    )
}

/// The header for the bytes `start..end`.
pub fn range_header(start: u64, end: u64) -> (r: String)
    ensures
        r@ == byte_range(start as nat, end as nat),
{
    let mut s = "bytes=".to_owned();
    s.append(decimal_of(start).as_str());
    s.append("-");
    let last: u64 = if end == 0 {
        0
    } else {
        end - 1
    };
    s.append(decimal_of(last).as_str());
    s
}

} // verus!
