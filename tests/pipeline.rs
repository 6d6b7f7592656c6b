use face_detect_rust::base64::{encode, DecodeError};
use face_detect_rust::detector::{Face, FaceDetector};
use face_detect_rust::error::ApiError;
use face_detect_rust::pipeline::{build_detection_response, crop_faces, crop_images};
use face_detect_rust::raster::{
    create_test_image, encode_jpeg, get_image_info, load_image, validate_image, validate_image_format,
    ColorKind, Image,
};
use face_detect_rust::transport::{decode_base64_image, image_to_base64};

#[test]
fn jpeg_round_trip_keeps_dimensions() {
    let img = create_test_image(120, 90).unwrap();
    let jpeg = encode_jpeg(&img).unwrap();
    assert_eq!(&jpeg[0..2], &[0xFF, 0xD8]);
    let (kind, back) = load_image(&jpeg).unwrap();
    assert_eq!(kind, ColorKind::Rgb);
    assert_eq!(back.dimensions(), (120, 90));
    assert_eq!(back.pixels.len(), 3 * 120 * 90);
}

#[test]
fn empty_image_cannot_be_written() {
    let img = Image::new(0, 0);
    assert!(matches!(encode_jpeg(&img), Err(ApiError::ImageProcessingFailed)));
    assert!(image_to_base64(&img).is_err());
}

#[test]
fn image_to_base64_is_a_jpeg_data_uri() {
    let img = create_test_image(64, 48).unwrap();
    let uri = image_to_base64(&img).unwrap();
    assert!(uri.starts_with("data:image/jpeg;base64,"));
    let jpeg = encode_jpeg(&img).unwrap();
    assert_eq!(uri, format!("data:image/jpeg;base64,{}", encode(&jpeg)));
    assert_eq!(decode_base64_image(&uri).unwrap(), jpeg);
}

#[test]
fn validation_of_image_bytes() {
    let garbage = b"not an image at all".to_vec();
    assert_eq!(validate_image_format(&garbage).unwrap(), false);
    assert!(matches!(validate_image(&garbage), Err(ApiError::InvalidFileFormat)));
    assert!(matches!(get_image_info(&garbage), Err(ApiError::ImageProcessingFailed)));
    let jpeg = encode_jpeg(&create_test_image(30, 20).unwrap()).unwrap();
    assert_eq!(validate_image_format(&jpeg).unwrap(), true);
    assert!(validate_image(&jpeg).is_ok());
    let (w, h, kind) = get_image_info(&jpeg).unwrap();
    assert_eq!((w, h, kind.as_str()), (30, 20, "rgb"));
}

#[test]
fn crop_request_skips_degenerate_faces() {
    let img = create_test_image(300, 300).unwrap();
    let uri = image_to_base64(&img).unwrap();
    let faces = vec![
        Face::new(50, 50, 100, 100, 900),
        Face::new(400, 0, 10, 10, 900),
        Face::new(-10, -10, 150, 150, 800),
    ];
    let response = crop_faces(&uri, &faces).unwrap();
    assert_eq!(response.cropped_faces.len(), 2);
    let first = load_image(&decode_base64_image(&response.cropped_faces[0]).unwrap()).unwrap().1;
    assert_eq!(first.dimensions(), (100, 100));
    let second = load_image(&decode_base64_image(&response.cropped_faces[1]).unwrap()).unwrap().1;
    assert_eq!(second.dimensions(), (150, 150));
}

#[test]
fn crop_images_matches_crop_request() {
    let img = create_test_image(200, 200).unwrap();
    let faces = vec![Face::new(10, 10, 20, 20, 900)];
    let direct = crop_images(&img, &faces);
    assert_eq!(direct.len(), 1);
    assert!(direct[0].starts_with("data:image/jpeg;base64,"));
}

#[test]
fn crop_request_with_bad_data_fails() {
    let faces = vec![Face::new(0, 0, 10, 10, 900)];
    let err = crop_faces("invalid-base64-data", &faces).unwrap_err();
    assert!(matches!(err, ApiError::Base64Error(DecodeError::InvalidCharacter('-'))));
    assert_eq!(err.status_code(), 400);
    let empty: Vec<Face> = Vec::new();
    assert_eq!(crop_faces("invalid-base64-data", &empty).unwrap_err().status_code(), 400);
    assert!(matches!(crop_faces("data:image/png;base64,TWFu", &faces), Err(ApiError::ImageProcessingFailed)));
}

#[test]
fn detection_response_carries_both_images() {
    let detector = FaceDetector::new().unwrap();
    let img = create_test_image(500, 500).unwrap();
    let detection = detector.detect_faces(&img, 7);
    let response = build_detection_response(&detector, &img, detection).unwrap();
    assert_eq!(response.detection_result.total_faces, 2);
    assert_eq!(response.detection_result.processing_time_ms, 7);
    assert_eq!(response.original_image, image_to_base64(&img).unwrap());
    assert!(response.processed_image.starts_with("data:image/jpeg;base64,"));
    assert_ne!(response.processed_image, response.original_image);
}

#[test]
fn error_status_codes() {
    assert_eq!(ApiError::InvalidFileFormat.status_code(), 400);
    assert_eq!(ApiError::FileTooLarge.status_code(), 413);
    assert_eq!(ApiError::NoFileUploaded.status_code(), 400);
    assert_eq!(ApiError::ImageProcessingFailed.status_code(), 500);
    assert_eq!(ApiError::Base64Error(DecodeError::InvalidCharacter('!')).status_code(), 400);
    assert_eq!(ApiError::IoError("disk".to_string()).status_code(), 500);
}
