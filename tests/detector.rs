use face_detect_rust::detector::{crop_face, detect_faces, visualize_detections, DetectionResult, Face, FaceDetector};
use face_detect_rust::raster::{create_test_image, Image};
use std::time::Instant;

#[test]
fn test_detector_creation() {
    let detector = FaceDetector::new();
    assert!(detector.is_ok(), "Detector should be created successfully");
}

#[test]
fn test_face_detector_creation() {
    let detector = FaceDetector::new();
    assert!(detector.is_ok(), "FaceDetector should be created successfully");
}

#[test]
fn detector_test_mock_detection_small_image() {
    let detector = FaceDetector::new().unwrap();
    let img = Image::new(300, 300);
    let detection = detector.detect_faces(&img, 0);
    assert!(detection.has_faces(), "Should detect faces");
    assert_eq!(detection.total_faces, 1, "Should detect 1 face");
}

#[test]
fn integration_test_test_mock_detection_small_image() {
    let detector = FaceDetector::new().unwrap();
    let start = Instant::now();
    let img = create_test_image(200, 200).unwrap();
    let faces = detector.perform_mock_detection(img.width, img.height);
    let elapsed = start.elapsed().as_millis() as u64;
    let detection_result = DetectionResult::new(faces, elapsed);
    // Neither side of a 200 by 200 image exceeds the minimum dimension of 200,
    // so the detector places no face here.
    assert_eq!(detection_result.total_faces, 0, "Should detect no face in a 200 by 200 image");
    assert_eq!(detection_result.processing_time_ms, elapsed, "Processing time should be the measured one");
}

#[test]
fn test_mock_detection_medium_image() {
    let detector = FaceDetector::new().unwrap();
    let img = create_test_image(500, 500).unwrap();
    let detection_result = detector.detect_faces(&img, 0);
    assert_eq!(detection_result.total_faces, 2, "Should detect 2 faces in medium image");
}

#[test]
fn test_mock_detection_large_image() {
    let detector = FaceDetector::new().unwrap();
    let img = create_test_image(700, 700).unwrap();
    let detection_result = detector.detect_faces(&img, 0);
    assert_eq!(detection_result.total_faces, 3, "Should detect 3 faces in large image");
}

#[test]
fn test_empty_image_detection() {
    let detector = FaceDetector::new().unwrap();
    let img = create_test_image(50, 50).unwrap();
    let detection_result = detector.detect_faces(&img, 0);
    assert_eq!(detection_result.total_faces, 0, "Should detect 0 faces in very small image");
}

#[test]
fn test_face_detection_confidence() {
    let detector = FaceDetector::new().unwrap();
    let img = create_test_image(400, 400).unwrap();
    let detection_result = detector.detect_faces(&img, 0);
    for face in &detection_result.faces {
        assert!(face.confidence <= 1000, "Confidence should be between 0.0 and 1.0");
        assert!(face.confidence > 500, "Mock confidence should be reasonably high");
    }
}

#[test]
fn test_processing_time_tracking() {
    let detector = FaceDetector::new().unwrap();
    let start = Instant::now();
    let img = create_test_image(300, 300).unwrap();
    let faces = detector.perform_mock_detection(img.width, img.height);
    let detection_result = DetectionResult::new(faces, start.elapsed().as_millis() as u64);
    assert!(
        detection_result.processing_time_ms < 1000,
        "Processing should complete within reasonable time (< 1 second)"
    );
}

#[test]
fn detector_test_bounding_box_drawing() {
    let detector = FaceDetector::new().unwrap();
    let img = Image::new(300, 300);
    let faces = vec![Face::new(50, 50, 100, 100, 900)];
    let result = detector.draw_bounding_boxes(&img, &faces);
    assert!(result.is_ok(), "Should draw bounding boxes successfully");
}

#[test]
fn integration_test_test_bounding_box_drawing() {
    let detector = FaceDetector::new().unwrap();
    let img = create_test_image(300, 300).unwrap();
    let faces = vec![Face { x: 50, y: 50, width: 100, height: 100, confidence: 900 }];
    let result = detector.draw_bounding_boxes(&img, &faces);
    assert!(result.is_ok(), "Drawing bounding boxes should succeed");
    let processed_image = result.unwrap();
    assert_eq!(processed_image.dimensions(), img.dimensions(), "Image dimensions should be preserved");
}

#[test]
fn test_face_cropping() {
    let img = create_test_image(300, 300).unwrap();
    let face = Face { x: 50, y: 50, width: 100, height: 100, confidence: 900 };
    let result = crop_face(&img, &face);
    assert!(result.is_ok(), "Face cropping should succeed");
    let cropped = result.unwrap();
    let (width, height) = cropped.dimensions();
    assert_eq!(width, 100, "Cropped width should match face width");
    assert_eq!(height, 100, "Cropped height should match face height");
}

#[test]
fn test_detector_configuration() {
    let detector = FaceDetector::new()
        .unwrap()
        .with_min_dimension(400)
        .with_confidence_threshold(800);
    assert_eq!(detector.min_dimension(), 400);
    assert_eq!(detector.confidence_threshold(), 800);
}

#[test]
fn confidence_threshold_is_capped() {
    let detector = FaceDetector::new().unwrap().with_confidence_threshold(1500);
    assert_eq!(detector.confidence_threshold(), 1000);
}

#[test]
fn mock_detection_places_faces_from_dimensions() {
    let detector = FaceDetector::new().unwrap();
    let faces = detector.perform_mock_detection(700, 900);
    assert_eq!(faces.len(), 3);
    assert_eq!(faces[0], Face::new(175, 225, 175, 225, 950));
    assert_eq!(faces[1], Face::new(466, 300, 140, 180, 870));
    assert_eq!(faces[2], Face::new(350, 600, 116, 150, 920));
    assert!(detector.perform_mock_detection(200, 1000).is_empty());
}

#[test]
fn high_confidence_faces_filter_in_order() {
    let faces = vec![
        Face::new(0, 0, 10, 10, 950),
        Face::new(0, 0, 10, 10, 800),
        Face::new(0, 0, 10, 10, 870),
    ];
    let result = DetectionResult::new(faces, 5);
    assert_eq!(result.total_faces, 3);
    let high = result.high_confidence_faces();
    assert_eq!(high, vec![Face::new(0, 0, 10, 10, 950), Face::new(0, 0, 10, 10, 870)]);
    assert!(Face::new(0, 0, 1, 1, 801).is_high_confidence());
    assert!(!Face::new(0, 0, 1, 1, 800).is_high_confidence());
}

#[test]
fn face_area_is_width_times_height() {
    assert_eq!(Face::new(0, 0, 100, 50, 900).area(), 5000);
    assert_eq!(Face::new(0, 0, i64::MAX, 2, 900).area(), (i64::MAX as i128) * 2);
}

#[test]
fn crop_face_clamps_into_image() {
    let img = create_test_image(100, 100).unwrap();
    let cropped = crop_face(&img, &Face::new(90, -20, 50, 50, 900)).unwrap();
    assert_eq!(cropped.dimensions(), (10, 50));
    let outside = crop_face(&img, &Face::new(200, 0, 10, 10, 900)).unwrap();
    assert_eq!(outside.dimensions(), (0, 0));
}

#[test]
fn test_pattern_has_face_regions() {
    let img = create_test_image(400, 200).unwrap();
    let at = |x: usize, y: usize| -> [u8; 3] {
        let k = 3 * (y * 400 + x);
        [img.pixels[k], img.pixels[k + 1], img.pixels[k + 2]]
    };
    assert_eq!(img.pixels.len(), 3 * 400 * 200);
    assert_eq!(at(0, 0), [240, 240, 240]);
    assert_eq!(at(120, 150), [200, 180, 160]);
    assert_eq!(at(310, 179), [180, 160, 140]);
    assert_eq!(at(310, 180), [240, 240, 240]);
}

#[test]
fn free_detection_functions_use_default_settings() {
    let img = create_test_image(500, 300).unwrap();
    let result = detect_faces(&img, 3).unwrap();
    assert_eq!(result.total_faces, 1);
    assert_eq!(result.faces[0], Face::new(125, 75, 125, 75, 950));
    assert_eq!(result.processing_time_ms, 3);
    let drawn = visualize_detections(&img, &result.faces).unwrap();
    assert_eq!(drawn.dimensions(), (500, 300));
    let k = 3 * (75 * 500 + 125);
    assert_eq!(&drawn.pixels[k..k + 3], &[0, 255, 0]);
    let labels = FaceDetector::new().unwrap().bounding_box_labels(&img.dims(), &result.faces);
    assert_eq!(labels.len(), 1);
    assert_eq!(labels[0].text, "Face 1: 95.0%");
    assert_eq!((labels[0].x, labels[0].y), (125, 65));
}
