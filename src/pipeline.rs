//! One request, start to end: clamp each rectangle, outline all of them on
//! one copy of the image, cut each out, and write every result as a data URI.
//! A rectangle whose crop cannot be written is left out; the others still are.
use vstd::prelude::*;
use crate::annotate::annotated;
use crate::detector::{annotations_of, crop_face, DetectionResult, Face, FaceDetector};
use crate::error::ApiError;
use crate::geometry::{clamp_spec, Dimensions};
use crate::raster::{crop_rows, image_of_bytes, load_image, Image};
use crate::base64::decode_spec;
use crate::transport::{
    decode_base64_image, decode_image_spec, image_to_base64, image_uri_spec, strip_prefix_spec,
};

verus! {

/// The data URIs of the cropped faces.
#[derive(Debug)]
pub struct CropResponse {
    pub cropped_faces: Vec<String>,
}

/// An image, the same image with the faces outlined, and what was detected.
#[derive(Debug)]
pub struct DetectionResponse {
    pub original_image: String,
    pub processed_image: String,
    pub detection_result: DetectionResult,
}

/// The data URIs of the crops of `faces` out of an image `w` by `h` with bytes
/// `pixels`, in order, leaving out each face whose crop is empty or cannot be
/// written as JPEG.
pub open spec fn crop_uris(pixels: Seq<u8>, w: u32, h: u32, faces: Seq<Face>) -> Seq<Seq<char>>
    decreases faces.len(),
{
    if faces.len() == 0 {
        Seq::empty()
    } else {
        let before = crop_uris(pixels, w, h, faces.drop_last());
        let c = clamp_spec(faces.last().spec_rectangle(), Dimensions { width: w, height: h });
        if c.spec_is_degenerate() {
            before
        } else {
            match image_uri_spec(c.width, c.height, crop_rows(pixels, w as nat, c, c.height as nat)) {
                Some(u) => before.push(u),
                None => before,
            }
        }
    }
}

/// The text of each string.
pub open spec fn texts(v: Seq<String>) -> Seq<Seq<char>> {
    v.map_values(|s: String| s@)
}

/// Crops each of `faces` out of `image` and writes each crop as a data URI;
/// crops that are empty or cannot be written are left out.
pub fn crop_images(image: &Image, faces: &Vec<Face>) -> (r: Vec<String>)
    requires
        image.wf(),
    ensures
        texts(r@) == crop_uris(image.pixels@, image.width, image.height, faces@),
{
    let mut out: Vec<String> = Vec::new();
    let mut i: usize = 0;
    while i < faces.len()
        invariant
            image.wf(),
            i <= faces.len(),
            texts(out@) == crop_uris(
                image.pixels@,
                image.width,
                image.height,
                faces@.subrange(0, i as int),
            ),
        decreases faces.len() - i,
    {
        proof {
            assert(faces@.subrange(0, i + 1).drop_last() =~= faces@.subrange(0, i as int));
            assert(faces@.subrange(0, i + 1).last() == faces@[i as int]);
        }
        match crop_face(image, &faces[i]) {
            Ok(cropped) => match image_to_base64(&cropped) {
                Ok(uri) => {
                    let ghost before = out@;
                    out.push(uri);
                    proof {
                        assert(texts(out@) =~= texts(before).push(uri@));
                    }
                },
                Err(_) => {},
            },
            Err(_) => {},
        }
        i = i + 1;
    }
    proof {
        assert(faces@.subrange(0, faces.len() as int) =~= faces@);
    }
    out
}

/// Crops `faces` out of the image that `image_data` carries (a data URI or
/// bare encoded text). Fails only when the text cannot be decoded (with the
/// decoder's error) or the bytes in it are no image.
pub fn crop_faces(image_data: &str, faces: &Vec<Face>) -> (r: Result<CropResponse, ApiError>)
    ensures
        match r {
            Ok(resp) => decode_image_spec(image_data@) matches Some(bytes) && image_of_bytes(
                bytes,
            ) matches Some((_, w, h, pixels)) && texts(resp.cropped_faces@) == crop_uris(
                pixels,
                w,
                h,
                faces@,
            ),
            Err(e) => match decode_spec(strip_prefix_spec(image_data@)) {
                Ok(bytes) => image_of_bytes(bytes) is None && e == ApiError::ImageProcessingFailed,
                Err(d) => e == ApiError::Base64Error(d),
            },
        },
{
    let bytes = match decode_base64_image(image_data) {
        Ok(b) => b,
        Err(e) => {
            return Err(e);
        },
    };
    let img = match load_image(bytes.as_slice()) {
        Ok((_, img)) => img,
        Err(e) => {
            return Err(e);
        },
    };
    Ok(CropResponse { cropped_faces: crop_images(&img, faces) })
}

/// The response to an upload: `image` and `processed` as data URIs, with
/// `detection`. Fails when either image cannot be written as JPEG.
pub fn detection_response(image: &Image, processed: &Image, detection: DetectionResult) -> (r: Result<
    DetectionResponse,
    ApiError,
>)
    requires
        image.wf(),
        processed.wf(),
    ensures
        match r {
            Ok(resp) => {
                &&& image_uri_spec(image.width, image.height, image.pixels@) == Some(
                    resp.original_image@,
                )
                &&& image_uri_spec(processed.width, processed.height, processed.pixels@) == Some(
                    resp.processed_image@,
                )
                &&& resp.detection_result.faces@ == detection.faces@
                &&& resp.detection_result.total_faces == detection.total_faces
                &&& resp.detection_result.processing_time_ms == detection.processing_time_ms
            },
            Err(e) => e == ApiError::ImageProcessingFailed && (image_uri_spec(
                image.width,
                image.height,
                image.pixels@,
            ) is None || image_uri_spec(processed.width, processed.height, processed.pixels@) is None),
        },
        image_uri_spec(image.width, image.height, image.pixels@) is None ==> r is Err,
        (image.width == 0 || image.height == 0) ==> r is Err,
{
    let original_image = match image_to_base64(image) {
        Ok(s) => s,
        Err(e) => {
            return Err(e);
        },
    };
    let processed_image = match image_to_base64(processed) {
        Ok(s) => s,
        Err(e) => {
            return Err(e);
        },
    };
    Ok(DetectionResponse { original_image, processed_image, detection_result: detection })
}

/// The response to an upload: `image` and its copy with the detected faces
/// outlined, as data URIs, with `detection`. Fails when either image cannot be
/// written as JPEG.
pub fn build_detection_response(detector: &FaceDetector, image: &Image, detection: DetectionResult) -> (r:
    Result<DetectionResponse, ApiError>)
    requires
        image.wf(),
    ensures
        match r {
            Ok(resp) => {
                &&& image_uri_spec(image.width, image.height, image.pixels@) == Some(
                    resp.original_image@,
                )
                &&& image_uri_spec(
                    image.width,
                    image.height,
                    annotated(
                        image.pixels@,
                        image.width as nat,
                        annotations_of(detection.faces@, image.spec_dims()),
                    ),
                ) == Some(resp.processed_image@)
                &&& resp.detection_result.faces@ == detection.faces@
                &&& resp.detection_result.total_faces == detection.total_faces
                &&& resp.detection_result.processing_time_ms == detection.processing_time_ms
            },
            Err(e) => e == ApiError::ImageProcessingFailed && (image_uri_spec(
                image.width,
                image.height,
                image.pixels@,
            ) is None || image_uri_spec(
                image.width,
                image.height,
                annotated(
                    image.pixels@,
                    image.width as nat,
                    annotations_of(detection.faces@, image.spec_dims()),
                ),
            ) is None),
        },
        image_uri_spec(image.width, image.height, image.pixels@) is None ==> r is Err,
        (image.width == 0 || image.height == 0) ==> r is Err,
{
    let processed = match detector.draw_bounding_boxes(image, &detection.faces) {
        Ok(p) => p,
        Err(_) => {
            return Err(ApiError::ImageProcessingFailed);
        },
    };
    detection_response(image, &processed, detection)
}

} // verus!
