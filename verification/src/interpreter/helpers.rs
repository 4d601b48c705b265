//! Conversions for callers that know the kind of a value already.
use crate::host::Host;
use crate::interpreter::datatype::{DataType, DictRef};
use crate::text::{bool_to_string, spec_bool_text};
use vstd::prelude::*;

verus! {

/// The text of a string, number or boolean.
pub fn expect_string<H: Host>(data: &DataType, host: &H) -> (s: String)
    requires
        data is String || data is Number || data is Boolean,
    ensures
        data matches DataType::String(x) ==> s == *x,
        data matches DataType::Boolean(b) ==> s@ == spec_bool_text(*b),
{
    match data {
        DataType::Number(x) => host.number_to_string(*x),
        DataType::String(x) => x.clone(),
        DataType::Boolean(x) => bool_to_string(*x),
        _ => String::new(),
    }
}

/// The dictionary a dictionary value refers to.
pub fn expect_dict(data: &DataType) -> (d: DictRef)
    requires
        data is Dictionary,
    ensures
        data matches DataType::Dictionary(x) && d == *x,
{
    match data {
        DataType::Dictionary(x) => *x,
        _ => DictRef { index: 0 },
    }
}

/// The index a whole number denotes, as the host reads it; `None` for a number that is not
/// whole and for any other value.
pub fn expect_int<H: Host>(data: &DataType, host: &H) -> (r: Option<usize>)
    ensures
        !(data is Number) ==> r is None,
        *data matches DataType::Number(n) ==> call_ensures(H::number_to_index, (host, n), r),
{
    match data {
        DataType::Number(x) => host.number_to_index(*x),
        _ => None,
    }
}

} // verus!
