//! The host side of the grayscale call into the guest module: what it passes in
//! and what it takes from the results.

use vstd::prelude::*;
use vstd::utf8::encode_utf8;
use crate::decimal::{decimal_list, to_decimal_list};
use crate::param::Param;
use crate::ret::{RetValue, RetValueView};

verus! {

/// The single parameter of the guest's grayscale function for the image `buf`: its
/// bytes as decimal numbers separated by commas.
pub fn grayscale_call_inputs(buf: &Vec<u8>) -> (inputs: Vec<Param>)
    ensures
        inputs.len() == 1,
        inputs@[0] matches Param::String(s) && encode_utf8(s@) == decimal_list(buf@),
{
    let text = to_decimal_list(buf);
    let mut inputs: Vec<Param> = Vec::new();
    inputs.push(Param::String(text));
    inputs
}

/// The output of the guest's grayscale function: its last result, a string.
pub fn grayscale_call_output(results: Vec<RetValue>) -> (r: String)
    requires
        results.len() > 0,
        results@.last() is String,
    ensures
        RetValueView::String(r@) == results@.last()@,
{
    let mut results = results;
    match results.pop() {
        Some(RetValue::String(s)) => s,
        _ => {
            proof {
                assert(false);
            }
            String::new()
        },
    }
}

} // verus!
