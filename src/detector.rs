//! Face detection. The detector here is a stand-in that places faces from
//! the image's dimensions alone; a real one would take its place behind the
//! same methods.
use vstd::prelude::*;
use crate::annotate::{annotate, annotated, label_view, labels, labels_spec, Annotation, Label};
use crate::error::ApiError;
use crate::geometry::{clamp, clamp_spec, lemma_clamp_fits, ClampedRectangle, Dimensions, Rectangle};
use crate::raster::{crop, crop_rows, Image};

verus! {

/// A detected face: its rectangle in image pixels, which may reach outside
/// the image, and the confidence of the detection in thousandths (0 to 1000).
#[derive(Debug, Clone, Copy, PartialEq, Eq, Structural)]
pub struct Face {
    pub x: i64,
    pub y: i64,
    pub width: i64,
    pub height: i64,
    pub confidence: u16,
}

/// Confidence above which a detection counts as confident, in thousandths.
pub const HIGH_CONFIDENCE: u16 = 800;

impl Face {
    /// A face with the given rectangle and confidence.
    pub fn new(x: i64, y: i64, width: i64, height: i64, confidence: u16) -> (r: Face)
        ensures
            r == (Face { x, y, width, height, confidence }),
    {
        Face { x, y, width, height, confidence }
    }

    /// Width times height.
    pub fn area(&self) -> (r: i128)
        ensures
            r == self.width * self.height,
    {
        assert(-0x8000_0000_0000_0000 * 0x8000_0000_0000_0000 <= self.width * self.height
            <= 0x8000_0000_0000_0000 * 0x8000_0000_0000_0000) by (nonlinear_arith)
            requires
                -0x8000_0000_0000_0000 <= self.width < 0x8000_0000_0000_0000,
                -0x8000_0000_0000_0000 <= self.height < 0x8000_0000_0000_0000,
        ;
        (self.width as i128) * (self.height as i128)
    }

    pub open spec fn spec_is_high_confidence(&self) -> bool {
        self.confidence > HIGH_CONFIDENCE
    }

    /// Whether the confidence is above `HIGH_CONFIDENCE`.
    #[verifier::when_used_as_spec(spec_is_high_confidence)]
    pub fn is_high_confidence(&self) -> (r: bool)
        ensures
            r == self.spec_is_high_confidence(),
    {
        self.confidence > HIGH_CONFIDENCE
    }

    pub open spec fn spec_rectangle(&self) -> Rectangle {
        Rectangle { x: self.x, y: self.y, width: self.width, height: self.height }
    }

    /// The rectangle of the face.
    #[verifier::when_used_as_spec(spec_rectangle)]
    pub fn rectangle(&self) -> (r: Rectangle)
        ensures
            r == self.spec_rectangle(),
    {
        Rectangle { x: self.x, y: self.y, width: self.width, height: self.height }
    }
}

/// The faces found in one image.
#[derive(Debug, Clone)]
pub struct DetectionResult {
    pub faces: Vec<Face>,
    pub total_faces: usize,
    pub processing_time_ms: u64,
}

impl DetectionResult {
    /// A result holding `faces`, counted, and the time the detection took.
    pub fn new(faces: Vec<Face>, processing_time_ms: u64) -> (r: DetectionResult)
        ensures
            r.faces@ == faces@,
            r.total_faces == faces.len(),
            r.processing_time_ms == processing_time_ms,
    {
        let total_faces = faces.len();
        DetectionResult { faces, total_faces, processing_time_ms }
    }

    /// Whether any face was found.
    pub fn has_faces(&self) -> (r: bool)
        ensures
            r == (self.faces.len() > 0),
    {
        self.faces.len() > 0
    }

    /// The faces whose confidence is above `HIGH_CONFIDENCE`, in order.
    pub fn high_confidence_faces(&self) -> (r: Vec<Face>)
        ensures
            r@ == self.faces@.filter(|f: Face| f.spec_is_high_confidence()),
    {
        let mut out: Vec<Face> = Vec::new();
        let mut i: usize = 0;
        while i < self.faces.len()
            invariant
                i <= self.faces.len(),
                out@ == self.faces@.subrange(0, i as int).filter(|f: Face| f.spec_is_high_confidence()),
            decreases self.faces.len() - i,
        {
            let f = self.faces[i];
            proof {
                reveal(Seq::filter);
                assert(self.faces@.subrange(0, i + 1).drop_last() =~= self.faces@.subrange(0, i as int));
            }
            if f.is_high_confidence() {
                out.push(f);
            }
            i = i + 1;
        }
        proof {
            assert(self.faces@.subrange(0, self.faces.len() as int) =~= self.faces@);
        }
        out
    }
}

/// Settings of the detector.
#[derive(Debug, Clone, Copy, PartialEq, Eq, Structural)]
pub struct FaceDetector {
    min_dimension: u32,
    confidence_threshold: u16,
}

/// The faces that the stand-in detector places in a `w` by `h` image: one
/// when both sides exceed `min_dimension`, a second when both exceed 400,
/// a third when both exceed 600.
pub open spec fn mock_faces(min_dimension: u32, w: u32, h: u32) -> Seq<Face> {
    let first: Seq<Face> = if w > min_dimension && h > min_dimension {
        seq![Face { x: (w / 4) as i64, y: (h / 4) as i64, width: (w / 4) as i64, height: (h / 4) as i64, confidence: 950 }]
    } else {
        Seq::empty()
    };
    let second: Seq<Face> = if w > 400 && h > 400 {
        seq![
            Face {
                x: ((w * 2) / 3) as i64,
                y: (h / 3) as i64,
                width: (w / 5) as i64,
                height: (h / 5) as i64,
                confidence: 870,
            },
        ]
    } else {
        Seq::empty()
    };
    let third: Seq<Face> = if w > 600 && h > 600 {
        seq![
            Face {
                x: (w / 2) as i64,
                y: ((h * 2) / 3) as i64,
                width: (w / 6) as i64,
                height: (h / 6) as i64,
                confidence: 920,
            },
        ]
    } else {
        Seq::empty()
    };
    first + second + third
}

/// The annotations for `faces`: each face clamped into an image of dimensions `d`.
pub open spec fn annotations_of(faces: Seq<Face>, d: Dimensions) -> Seq<Annotation> {
    faces.map_values(
        |f: Face| Annotation { rect: clamp_spec(f.spec_rectangle(), d), confidence: f.confidence },
    )
}

impl FaceDetector {
    pub closed spec fn spec_min_dimension(&self) -> u32 {
        self.min_dimension
    }

    pub closed spec fn spec_confidence_threshold(&self) -> u16 {
        self.confidence_threshold
    }

    /// A detector with the default settings: images must exceed 200 pixels
    /// in both directions, and the threshold is 500 thousandths.
    pub fn new() -> (r: Result<FaceDetector, ApiError>)
        ensures
            r matches Ok(d) && d.spec_min_dimension() == 200 && d.spec_confidence_threshold() == 500,
    {
        Ok(FaceDetector { min_dimension: 200, confidence_threshold: 500 })
    }

    /// Both sides of an image must exceed this for a face to be found.
    #[verifier::when_used_as_spec(spec_min_dimension)]
    pub fn min_dimension(&self) -> (r: u32)
        ensures
            r == self.spec_min_dimension(),
    {
        self.min_dimension
    }

    /// The confidence threshold, in thousandths.
    #[verifier::when_used_as_spec(spec_confidence_threshold)]
    pub fn confidence_threshold(&self) -> (r: u16)
        ensures
            r == self.spec_confidence_threshold(),
    {
        self.confidence_threshold
    }

    /// The same detector with another minimum dimension.
    pub fn with_min_dimension(self, min_dimension: u32) -> (r: FaceDetector)
        ensures
            r.spec_min_dimension() == min_dimension,
            r.spec_confidence_threshold() == self.spec_confidence_threshold(),
    {
        FaceDetector { min_dimension, confidence_threshold: self.confidence_threshold }
    }

    /// The same detector with another confidence threshold, capped at 1000 thousandths.
    pub fn with_confidence_threshold(self, threshold: u16) -> (r: FaceDetector)
        ensures
            r.spec_confidence_threshold() == if threshold > 1000 {
                1000
            } else {
                threshold
            },
            r.spec_min_dimension() == self.spec_min_dimension(),
    {
        let t = if threshold > 1000 {
            1000
        } else {
            threshold
        };
        FaceDetector { min_dimension: self.min_dimension, confidence_threshold: t }
    }

    /// The faces that the stand-in detector places in an image `img_width` by `img_height`.
    pub fn perform_mock_detection(&self, img_width: u32, img_height: u32) -> (r: Vec<Face>)
        ensures
            r@ == mock_faces(self.spec_min_dimension(), img_width, img_height),
    {
        let w = img_width;
        let h = img_height;
        let mut faces: Vec<Face> = Vec::new();
        if w > self.min_dimension && h > self.min_dimension {
            faces.push(
                Face {
                    x: (w / 4) as i64,
                    y: (h / 4) as i64,
                    width: (w / 4) as i64,
                    height: (h / 4) as i64,
                    confidence: 950,
                },
            );
        }
        if w > 400 && h > 400 {
            faces.push(
                Face {
                    x: ((w as u64) * 2 / 3) as i64,
                    y: (h / 3) as i64,
                    width: (w / 5) as i64,
                    height: (h / 5) as i64,
                    confidence: 870,
                },
            );
        }
        if w > 600 && h > 600 {
            faces.push(
                Face {
                    x: (w / 2) as i64,
                    y: ((h as u64) * 2 / 3) as i64,
                    width: (w / 6) as i64,
                    height: (h / 6) as i64,
                    confidence: 920,
                },
            );
        }
        proof {
            let m = mock_faces(self.min_dimension, w, h);
            assert(faces@ =~= m);
        }
        faces
    }

    /// Finds the faces of `image`; `processing_time_ms` is what the caller measured.
    pub fn detect_faces(&self, image: &Image, processing_time_ms: u64) -> (r: DetectionResult)
        ensures
            r.faces@ == mock_faces(self.spec_min_dimension(), image.width, image.height),
            r.total_faces == r.faces.len(),
            r.processing_time_ms == processing_time_ms,
    {
        let faces = self.perform_mock_detection(image.width, image.height);
        DetectionResult::new(faces, processing_time_ms)
    }

    /// Outlines `faces` on a copy of `image`, each clamped into the image
    /// first; faces that clamp to nothing are skipped.
    pub fn draw_bounding_boxes(&self, original_image: &Image, faces: &Vec<Face>) -> (r: Result<Image, ApiError>)
        requires
            original_image.wf(),
        ensures
            r matches Ok(img) && img.wf() && img.width == original_image.width
                && img.height == original_image.height && img.pixels@ == annotated(
                original_image.pixels@,
                original_image.width as nat,
                annotations_of(faces@, original_image.spec_dims()),
            ),
    {
        let boxes = annotations_for(faces, &original_image.dims());
        Ok(annotate(original_image, &boxes))
    }
}

impl FaceDetector {
    /// The labels to write over `draw_bounding_boxes`'s image of `faces` in an
    /// image of dimensions `d`: one per face that does not clamp to nothing.
    pub fn bounding_box_labels(&self, d: &Dimensions, faces: &Vec<Face>) -> (r: Vec<Label>)
        ensures
            r@.map_values(|l: Label| label_view(l)) == labels_spec(annotations_of(faces@, *d)),
    {
        let boxes = annotations_for(faces, d);
        labels(&boxes)
    }
}

/// Finds the faces of `image` with a detector of default settings;
/// `processing_time_ms` is what the caller measured.
pub fn detect_faces(image: &Image, processing_time_ms: u64) -> (r: Result<DetectionResult, ApiError>)
    ensures
        r matches Ok(d) && d.faces@ == mock_faces(200, image.width, image.height)
            && d.total_faces == d.faces.len() && d.processing_time_ms == processing_time_ms,
{
    let detector = match FaceDetector::new() {
        Ok(d) => d,
        Err(e) => {
            return Err(e);
        },
    };
    Ok(detector.detect_faces(image, processing_time_ms))
}

/// Outlines `faces` on a copy of `original_image` with a detector of default settings.
pub fn visualize_detections(original_image: &Image, faces: &Vec<Face>) -> (r: Result<Image, ApiError>)
    requires
        original_image.wf(),
    ensures
        r matches Ok(img) && img.wf() && img.width == original_image.width
            && img.height == original_image.height && img.pixels@ == annotated(
            original_image.pixels@,
            original_image.width as nat,
            annotations_of(faces@, original_image.spec_dims()),
        ),
{
    let detector = match FaceDetector::new() {
        Ok(d) => d,
        Err(e) => {
            return Err(e);
        },
    };
    detector.draw_bounding_boxes(original_image, faces)
}

/// The annotations for `faces` in an image of dimensions `d`.
pub fn annotations_for(faces: &Vec<Face>, d: &Dimensions) -> (r: Vec<Annotation>)
    ensures
        r@ == annotations_of(faces@, *d),
        forall|i: int| 0 <= i < r.len() ==> (#[trigger] r[i]).rect.fits(*d),
{
    let mut out: Vec<Annotation> = Vec::new();
    let mut i: usize = 0;
    while i < faces.len()
        invariant
            i <= faces.len(),
            out@ =~= annotations_of(faces@.subrange(0, i as int), *d),
            forall|j: int| 0 <= j < out.len() ==> (#[trigger] out[j]).rect.fits(*d),
        decreases faces.len() - i,
    {
        let f = faces[i];
        let rect = clamp(&f.rectangle(), d);
        proof {
            lemma_clamp_fits(f.spec_rectangle(), *d);
        }
        out.push(Annotation { rect, confidence: f.confidence });
        i = i + 1;
    }
    proof {
        assert(faces@.subrange(0, faces.len() as int) =~= faces@);
    }
    out
}

/// Cuts `face`, clamped into `image`, out of `image`. A face that clamps to
/// nothing gives a 0 by 0 image.
pub fn crop_face(image: &Image, face: &Face) -> (r: Result<Image, ApiError>)
    requires
        image.wf(),
    ensures
        r matches Ok(img) && img.wf() && ({
            let c = clamp_spec(face.spec_rectangle(), image.spec_dims());
            &&& c.spec_is_degenerate() ==> img.width == 0 && img.height == 0
            &&& !c.spec_is_degenerate() ==> img.width == c.width && img.height == c.height
                && img.pixels@ == crop_rows(image.pixels@, image.width as nat, c, c.height as nat)
        }),
{
    let rect: ClampedRectangle = clamp(&face.rectangle(), &image.dims());
    proof {
        lemma_clamp_fits(face.spec_rectangle(), image.spec_dims());
    }
    Ok(crop(image, &rect))
}

} // verus!
