//! Text helpers.
//!
//! The trusted items here speak of `std` functions on strings.
use std::sync::Arc;

use vstd::prelude::*;

verus! {

/// `std`'s reflexive conversion: the value is handed back unchanged.
pub assume_specification<V>[ <V as core::convert::From<V>>::from ](value: V) -> (same: V)
    ensures
        same == value,
;

/// `std`'s conversion of a string slice into an owned string: the text is kept.
pub assume_specification<'a>[ <String as core::convert::From<&'a str>>::from ](text: &str) -> (owned:
    String)
    ensures
        owned@ == text@,
;

/// Calls `std`'s conversion of a `String` into an `Arc<str>`.
///
/// Claimed: the text is kept.
#[verifier::external_body]
pub(crate) fn share(text: String) -> (shared: Arc<str>)
    ensures
        shared@ == text@,
{
    Arc::<str>::from(text)
}

/// Calls `std`'s comparison of string slices.
///
/// Claimed: two slices are equal exactly when they hold the same characters.
#[verifier::external_body]
pub(crate) fn same_text(left: &str, right: &str) -> (same: bool)
    ensures
        same == (left@ == right@),
{
    left == right
}

/// The decimal digit `value`, for `value < 10`.
pub open spec fn digit(value: nat) -> char {
    (('0' as u32) + value) as char
}

/// The decimal notation of `value`, without leading zeros.
pub open spec fn decimal(value: nat) -> Seq<char>
    decreases value,
{
    if value < 10 {
        seq![digit(value)]
    } else {
        decimal(value / 10).push(digit(value % 10))
    }
}

/// Writes `value` in decimal notation.
pub fn write_decimal(value: usize) -> (text: String)
    ensures
        text@ == decimal(value as nat),
    decreases value,
{
    let low: &str = match value % 10 {
        0 => "0",
        1 => "1",
        2 => "2",
        3 => "3",
        4 => "4",
        5 => "5",
        6 => "6",
        7 => "7",
        8 => "8",
        _ => "9",
    };
    proof {
        reveal_strlit("0");
        reveal_strlit("1");
        reveal_strlit("2");
        reveal_strlit("3");
        reveal_strlit("4");
        reveal_strlit("5");
        reveal_strlit("6");
        reveal_strlit("7");
        reveal_strlit("8");
        reveal_strlit("9");
        assert(low@ =~= seq![digit((value % 10) as nat)]);
    }
    if value < 10 {
        low.to_owned()
    } else {
        let mut text = write_decimal(value / 10);
        let ghost high = text@;
        text.append(low);
        proof {
            assert(text@ =~= high.push(digit((value % 10) as nat)));
        }
        text
    }
}

} // verus!
