//! The grayscale function exported by the guest module: it takes the image as a
//! comma-separated list of byte values and returns the grayscale image as Base64.

use vstd::prelude::*;
use vstd::utf8::encode_utf8;
use crate::decimal::{decimal_list, lemma_decimal_list_round_trip, parse_decimal_list, parse_decimal_list_spec};
use crate::imaging::{grayscale_image, grayscale_internal, grayscale_result, grayscale_text_result, ImageFailure};

verus! {

/// Why the guest's grayscale function cannot answer.
#[derive(Debug, PartialEq, Eq)]
pub enum GuestFailure {
    /// A piece of the input is not a number from 0 to 255.
    NotAByteList,
    Image(ImageFailure),
}

/// What the guest's grayscale function answers for the UTF-8 text `text`: `None` when
/// the text is not a list of byte values, else the outcome for the listed image.
pub open spec fn guest_grayscale_result(text: Seq<u8>) -> Option<Result<Seq<u8>, ImageFailure>> {
    match parse_decimal_list_spec(text) {
        Some(bytes) => Some(grayscale_text_result(bytes)),
        None => None,
    }
}

/// `r` read as [`guest_grayscale_result`] reads it.
pub open spec fn guest_result_view(r: Result<String, GuestFailure>) -> Option<Result<Seq<u8>, ImageFailure>> {
    match r {
        Ok(s) => Some(Ok(encode_utf8(s@))),
        Err(GuestFailure::Image(e)) => Some(Err(e)),
        Err(GuestFailure::NotAByteList) => None,
    }
}

/// The grayscale version, as Base64 text, of the image whose bytes `image_data` lists
/// as decimal numbers separated by commas. The list must parse and the image must be
/// one that can be processed.
pub fn grayscale(image_data: String) -> (r: String)
    requires
        parse_decimal_list_spec(encode_utf8(image_data@)) matches Some(bytes) && grayscale_result(
            bytes,
        ) is Ok,
    ensures
        guest_grayscale_result(encode_utf8(image_data@)) == Some(
            Ok::<Seq<u8>, ImageFailure>(encode_utf8(r@)),
        ),
{
    match parse_decimal_list(image_data.as_str()) {
        Some(bytes) => grayscale_internal(bytes.as_slice()),
        None => {
            proof {
                assert(false);
            }
            String::new()
        },
    }
}

/// [`grayscale`] where the text lists an image that can be processed; otherwise why not.
pub fn checked_grayscale(image_data: String) -> (r: Result<String, GuestFailure>)
    ensures
        guest_result_view(r) == guest_grayscale_result(encode_utf8(image_data@)),
{
    match parse_decimal_list(image_data.as_str()) {
        None => Err(GuestFailure::NotAByteList),
        Some(bytes) => match grayscale_image(bytes.as_slice()) {
            Err(e) => Err(GuestFailure::Image(e)),
            Ok(_) => Ok(grayscale(image_data)),
        },
    }
}

/// The guest reads back the image the host lists: for the decimal list that the host
/// passes for a nonempty image `buf`, the guest answers what it answers for `buf`
/// itself.
pub proof fn lemma_guest_reads_host_list(buf: Seq<u8>)
    requires
        buf.len() > 0,
    ensures
        guest_grayscale_result(decimal_list(buf)) == Some(grayscale_text_result(buf)),
{
    lemma_decimal_list_round_trip(buf);
}

} // verus!
