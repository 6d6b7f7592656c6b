use face_detect_rust::annotate::{annotate, labels, label_position, label_text, Annotation};
use face_detect_rust::geometry::{clamp, ClampedRectangle, Dimensions, Rectangle};
use face_detect_rust::raster::{crop, Image};

fn rect(x: i64, y: i64, width: i64, height: i64) -> Rectangle {
    Rectangle { x, y, width, height }
}

#[test]
fn clamp_floors_negative_origin() {
    let d = Dimensions { width: 300, height: 300 };
    let c = clamp(&rect(-10, -10, 150, 150), &d);
    assert_eq!(c, ClampedRectangle { x: 0, y: 0, width: 150, height: 150 });
}

#[test]
fn clamp_caps_extent_at_image_edge() {
    let d = Dimensions { width: 100, height: 100 };
    let c = clamp(&rect(90, 90, 50, 50), &d);
    assert_eq!(c, ClampedRectangle { x: 90, y: 90, width: 10, height: 10 });
}

#[test]
fn clamp_outside_image_is_degenerate_and_skipped() {
    let d = Dimensions { width: 100, height: 100 };
    let c = clamp(&rect(200, 0, 10, 10), &d);
    assert_eq!(c.width, 0);
    assert!(c.is_degenerate());
    let img = Image::new(100, 100);
    let cropped = crop(&img, &c);
    assert_eq!(cropped.dimensions(), (0, 0));
    let boxes = vec![Annotation { rect: c, confidence: 900 }];
    let out = annotate(&img, &boxes);
    assert_eq!(out.pixels, img.pixels);
    assert!(labels(&boxes).is_empty());
}

#[test]
fn clamp_negative_extent_is_degenerate() {
    let d = Dimensions { width: 100, height: 100 };
    assert!(clamp(&rect(10, 10, -5, 20), &d).is_degenerate());
    assert!(clamp(&rect(10, 10, 5, 0), &d).is_degenerate());
}

#[test]
fn clamp_is_idempotent_and_fits() {
    let d = Dimensions { width: 640, height: 480 };
    let cases = [
        rect(-10, -10, 150, 150),
        rect(600, 400, 100, 100),
        rect(i64::MAX, i64::MIN, i64::MAX, i64::MAX),
        rect(5, 5, 0, 7),
    ];
    for r in cases.iter() {
        let c = clamp(r, &d);
        assert!(c.x as u64 + c.width as u64 <= 640);
        assert!(c.y as u64 + c.height as u64 <= 480);
        assert_eq!(clamp(&c.as_rectangle(), &d), c);
    }
}

#[test]
fn crop_has_rectangle_size_and_pixels() {
    let mut img = Image::new(4, 3);
    for (i, p) in img.pixels.iter_mut().enumerate() {
        *p = i as u8;
    }
    let c = ClampedRectangle { x: 1, y: 1, width: 2, height: 2 };
    let out = crop(&img, &c);
    assert_eq!(out.dimensions(), (2, 2));
    assert_eq!(out.pixels, vec![15, 16, 17, 18, 19, 20, 27, 28, 29, 30, 31, 32]);
}

#[test]
fn annotate_outlines_and_keeps_dimensions() {
    let img = Image::new(10, 10);
    let boxes = vec![Annotation { rect: ClampedRectangle { x: 2, y: 2, width: 4, height: 4 }, confidence: 870 }];
    let out = annotate(&img, &boxes);
    assert_eq!(out.dimensions(), (10, 10));
    let at = |x: usize, y: usize| -> (u8, u8, u8) {
        let k = 3 * (y * 10 + x);
        (out.pixels[k], out.pixels[k + 1], out.pixels[k + 2])
    };
    assert_eq!(at(2, 2), (0, 255, 0));
    assert_eq!(at(5, 3), (0, 255, 0));
    assert_eq!(at(3, 5), (0, 255, 0));
    assert_eq!(at(3, 3), (0, 0, 0));
    assert_eq!(at(6, 6), (0, 0, 0));
    assert!(img.pixels.iter().all(|p| *p == 0));
}

#[test]
fn label_text_and_position() {
    assert_eq!(label_text(1, 950), "Face 1: 95.0%");
    assert_eq!(label_text(12, 875), "Face 12: 87.5%");
    assert_eq!(label_text(3, 0), "Face 3: 0.0%");
    assert_eq!(label_position(&ClampedRectangle { x: 50, y: 50, width: 10, height: 10 }), (50, 40));
    assert_eq!(label_position(&ClampedRectangle { x: 5, y: 3, width: 10, height: 10 }), (5, 0));
}

#[test]
fn labels_number_by_input_position() {
    let boxes = vec![
        Annotation { rect: ClampedRectangle { x: 0, y: 0, width: 0, height: 5 }, confidence: 100 },
        Annotation { rect: ClampedRectangle { x: 20, y: 30, width: 5, height: 5 }, confidence: 920 },
    ];
    let ls = labels(&boxes);
    assert_eq!(ls.len(), 1);
    assert_eq!(ls[0].text, "Face 2: 92.0%");
    assert_eq!((ls[0].x, ls[0].y), (20, 20));
}

#[test]
fn annotate_outline_at_image_edges() {
    let img = Image::new(3, 3);
    let whole = vec![Annotation { rect: ClampedRectangle { x: 0, y: 0, width: 3, height: 3 }, confidence: 500 }];
    let out = annotate(&img, &whole);
    for y in 0..3usize {
        for x in 0..3usize {
            let k = 3 * (y * 3 + x);
            let expected = if x == 1 && y == 1 { [0, 0, 0] } else { [0, 255, 0] };
            assert_eq!(&out.pixels[k..k + 3], &expected);
        }
    }
    let dot = vec![Annotation { rect: ClampedRectangle { x: 2, y: 1, width: 1, height: 1 }, confidence: 500 }];
    let out = annotate(&img, &dot);
    let k = 3 * (1 * 3 + 2);
    assert_eq!(&out.pixels[k..k + 3], &[0, 255, 0]);
    assert_eq!(out.pixels.iter().filter(|v| **v == 255).count(), 1);
}
