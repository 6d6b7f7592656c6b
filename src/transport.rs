//! Images as text: `data:image/jpeg;base64,` followed by the encoding of a
//! JPEG file. Reading accepts that prefix, the PNG one, or none.
use vstd::prelude::*;
use crate::base64::{decode, decode_spec, encode, encode_spec};
use crate::error::ApiError;
use crate::raster::{encode_jpeg, jpeg_encoding, Image, JPEG_QUALITY};
use crate::text::push_str;

verus! {

/// `p` is a prefix of `s`.
pub open spec fn has_prefix(s: Seq<char>, p: Seq<char>) -> bool {
    p.len() <= s.len() && s.subrange(0, p.len() as int) == p
}

/// `s` without the JPEG or PNG data URI prefix, if it starts with one.
pub open spec fn strip_prefix_spec(s: Seq<char>) -> Seq<char> {
    if has_prefix(s, "data:image/jpeg;base64,"@) {
        s.subrange("data:image/jpeg;base64,"@.len() as int, s.len() as int)
    } else if has_prefix(s, "data:image/png;base64,"@) {
        s.subrange("data:image/png;base64,"@.len() as int, s.len() as int)
    } else {
        s
    }
}

/// Whether `s` starts with `p`.
fn starts_with(s: &str, p: &str) -> (r: bool)
    ensures
        r == has_prefix(s@, p@),
{
    let n = s.unicode_len();
    let m = p.unicode_len();
    if m > n {
        return false;
    }
    let mut i: usize = 0;
    while i < m
        invariant
            m == p@.len(),
            n == s@.len(),
            m <= n,
            i <= m,
            forall|j: int| 0 <= j < i ==> s@[j] == p@[j],
        decreases m - i,
    {
        if s.get_char(i) != p.get_char(i) {
            assert(s@.subrange(0, m as int)[i as int] != p@[i as int]);
            return false;
        }
        i = i + 1;
    }
    assert(s@.subrange(0, m as int) =~= p@);
    true
}

/// `data_uri` without its JPEG or PNG data URI prefix, if it has one.
pub fn strip_data_uri_prefix(data_uri: &str) -> (r: &str)
    ensures
        r@ == strip_prefix_spec(data_uri@),
{
    let jpeg = "data:image/jpeg;base64,";
    let png = "data:image/png;base64,";
    if starts_with(data_uri, jpeg) {
        data_uri.substring_char(jpeg.unicode_len(), data_uri.unicode_len())
    } else if starts_with(data_uri, png) {
        data_uri.substring_char(png.unicode_len(), data_uri.unicode_len())
    } else {
        data_uri
    }
}

/// What `decode_base64_image` gives.
pub open spec fn decode_image_spec(s: Seq<char>) -> Option<Seq<u8>> {
    match decode_spec(strip_prefix_spec(s)) {
        Ok(b) => Some(b),
        Err(_) => None,
    }
}

/// The bytes that a data URI (or bare encoded text) carries; text that does
/// not decode fails with the decoder's error.
pub fn decode_base64_image(data_uri: &str) -> (r: Result<Vec<u8>, ApiError>)
    ensures
        match r {
            Ok(b) => decode_image_spec(data_uri@) == Some(b@),
            Err(e) => match decode_spec(strip_prefix_spec(data_uri@)) {
                Err(d) => e == ApiError::Base64Error(d),
                Ok(_) => false,
            },
        },
{
    match decode(strip_data_uri_prefix(data_uri)) {
        Ok(b) => Ok(b),
        Err(d) => Err(ApiError::Base64Error(d)),
    }
}

/// The data URI of a JPEG file.
pub open spec fn jpeg_data_uri_spec(jpeg: Seq<u8>) -> Seq<char> {
    "data:image/jpeg;base64,"@ + encode_spec(jpeg)
}

/// The data URI of the JPEG file `jpeg`.
pub fn jpeg_data_uri(jpeg: &[u8]) -> (r: String)
    ensures
        r@ == jpeg_data_uri_spec(jpeg@),
{
    let mut s = String::new();
    push_str(&mut s, "data:image/jpeg;base64,");
    let body = encode(jpeg);
    push_str(&mut s, body.as_str());
    assert(s@ =~= jpeg_data_uri_spec(jpeg@));
    s
}

/// What `image_to_base64` gives for an image `width` by `height` with bytes `pixels`.
pub open spec fn image_uri_spec(width: u32, height: u32, pixels: Seq<u8>) -> Option<Seq<char>> {
    match jpeg_encoding(JPEG_QUALITY, width, height, pixels) {
        Some(b) => Some(jpeg_data_uri_spec(b)),
        None => None,
    }
}

/// `image` written as JPEG, as a data URI.
pub fn image_to_base64(image: &Image) -> (r: Result<String, ApiError>)
    requires
        image.wf(),
    ensures
        match r {
            Ok(s) => image_uri_spec(image.width, image.height, image.pixels@) == Some(s@),
            Err(e) => image_uri_spec(image.width, image.height, image.pixels@) is None
                && e == ApiError::ImageProcessingFailed,
        },
        (image.width == 0 || image.height == 0) ==> r is Err,
{
    match encode_jpeg(image) {
        Ok(b) => Ok(jpeg_data_uri(b.as_slice())),
        Err(e) => Err(e),
    }
}

} // verus!
