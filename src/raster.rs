//! Images as RGB pixel buffers: three bytes per pixel, rows from the top,
//! pixels from the left. Reading and writing image files is done by the
//! `image` crate; cropping and the synthetic test image are computed here.
use vstd::prelude::*;
use crate::error::ApiError;
use crate::geometry::{ClampedRectangle, Dimensions};

verus! {

/// An RGB image held as plain bytes.
#[derive(Debug)]
pub struct Image {
    pub width: u32,
    pub height: u32,
    /// Red, green and blue of each pixel, row after row.
    pub pixels: Vec<u8>,
}

/// The colour layout that a decoded image file had.
#[derive(Debug, Clone, Copy, PartialEq, Eq, Structural)]
pub enum ColorKind {
    Grayscale,
    Rgb,
    Rgba,
    Other,
}

/// One channel (0, 1 or 2) of an RGB colour.
pub open spec fn channel(color: (u8, u8, u8), c: int) -> u8 {
    if c == 0 {
        color.0
    } else if c == 1 {
        color.1
    } else {
        color.2
    }
}

impl Image {
    /// The buffer holds exactly three bytes for each pixel.
    pub open spec fn wf(&self) -> bool {
        self.pixels@.len() == 3 * self.width * self.height
    }

    pub open spec fn spec_dims(&self) -> Dimensions {
        Dimensions { width: self.width, height: self.height }
    }

    /// Whether the buffer holds exactly three bytes for each pixel.
    pub fn is_well_formed(&self) -> (r: bool)
        ensures
            r == self.wf(),
    {
        assert((self.width as int) * (self.height as int) <= 0xffff_ffffint * 0xffff_ffffint) by (nonlinear_arith)
            requires
                self.width <= 0xffff_ffff,
                self.height <= 0xffff_ffff,
        ;
        assert(3 * ((self.width as int) * (self.height as int)) == 3 * self.width * self.height) by (nonlinear_arith);
        self.pixels.len() as u128 == 3 * ((self.width as u128) * (self.height as u128))
    }

    /// Width and height.
    pub fn dimensions(&self) -> (r: (u32, u32))
        ensures
            r == (self.width, self.height),
    {
        (self.width, self.height)
    }

    /// Width and height as `Dimensions`.
    pub fn dims(&self) -> (r: Dimensions)
        ensures
            r == self.spec_dims(),
    {
        Dimensions { width: self.width, height: self.height }
    }

    /// An image of the given size whose pixels are all black.
    pub fn new(width: u32, height: u32) -> (r: Image)
        requires
            3 * width * height <= usize::MAX,
        ensures
            r.wf(),
            r.width == width && r.height == height,
            forall|i: int| 0 <= i < r.pixels@.len() ==> r.pixels@[i] == 0,
    {
        assert((width as int) * (height as int) <= 3 * width * height) by (nonlinear_arith);
        assert(3 * ((width as int) * (height as int)) == 3 * width * height) by (nonlinear_arith);
        let n: usize = 3 * ((width as usize) * (height as usize));
        let mut pixels: Vec<u8> = Vec::new();
        while pixels.len() < n
            invariant
                pixels.len() <= n,
                forall|i: int| 0 <= i < pixels@.len() ==> pixels@[i] == 0,
            decreases n - pixels.len(),
        {
            pixels.push(0);
        }
        Image { width, height, pixels }
    }

    /// A copy of this image, with a buffer of its own.
    pub fn duplicate(&self) -> (r: Image)
        ensures
            r.width == self.width && r.height == self.height && r.pixels@ == self.pixels@,
    {
        Image { width: self.width, height: self.height, pixels: self.pixels.clone() }
    }

    /// An image made of the given bytes, when their number is three per pixel.
    pub fn from_raw(width: u32, height: u32, pixels: Vec<u8>) -> (r: Option<Image>)
        ensures
            pixels@.len() == 3 * width * height <==> r is Some,
            r matches Some(img) ==> img.wf() && img.width == width && img.height == height
                && img.pixels@ == pixels@,
    {
        let n: u64 = pixels.len() as u64;
        assert((width as int) * (height as int) <= 0xffff_ffffint * 0xffff_ffffint) by (nonlinear_arith)
            requires
                width <= 0xffff_ffff,
                height <= 0xffff_ffff,
        ;
        let want: u128 = 3 * ((width as u128) * (height as u128));
        assert(3 * ((width as int) * (height as int)) == 3 * width * height) by (nonlinear_arith);
        if n as u128 == want {
            Some(Image { width, height, pixels })
        } else {
            None
        }
    }
}

/// Where row `y`, column `x` starts in the buffer of an image `w` pixels wide.
pub open spec fn offset(w: nat, x: nat, y: nat) -> int {
    (3 * (y * w + x)) as int
}

/// A row segment of `span` pixels from column `x` of row `y` lies inside a `w` by `h` image.
proof fn lemma_segment_inside(w: nat, h: nat, x: nat, y: nat, span: nat)
    requires
        x + span <= w,
        y < h,
    ensures
        0 <= offset(w, x, y),
        offset(w, x, y) + 3 * span <= 3 * w * h,
{
    assert(3 * (y * w + x) + 3 * span <= 3 * w * h) by (nonlinear_arith)
        requires
            y < h,
            x + span <= w,
    ;
}

/// The first `n` rows of the crop of `rect` out of `pixels` (an image `w` pixels wide).
pub open spec fn crop_rows(pixels: Seq<u8>, w: nat, rect: ClampedRectangle, n: nat) -> Seq<u8>
    decreases n,
{
    if n == 0 {
        Seq::empty()
    } else {
        let y = (rect.y + n - 1) as nat;
        crop_rows(pixels, w, rect, (n - 1) as nat) + pixels.subrange(
            offset(w, rect.x as nat, y),
            offset(w, rect.x as nat, y) + 3 * rect.width,
        )
    }
}

proof fn lemma_crop_rows_len(pixels: Seq<u8>, w: nat, rect: ClampedRectangle, n: nat)
    requires
        rect.x + rect.width <= w,
        3 * w * (rect.y + n) <= pixels.len(),
    ensures
        crop_rows(pixels, w, rect, n).len() == 3 * rect.width * n,
    decreases n,
{
    if n > 0 {
        let y = (rect.y + n - 1) as nat;
        assert(3 * w * (rect.y + n - 1) <= 3 * w * (rect.y + n)) by (nonlinear_arith);
        lemma_crop_rows_len(pixels, w, rect, (n - 1) as nat);
        lemma_segment_inside(w, (rect.y + n) as nat, rect.x as nat, y, rect.width as nat);
        let off = offset(w, rect.x as nat, y);
        assert(0 <= off && off + 3 * rect.width <= pixels.len());
        assert(crop_rows(pixels, w, rect, n) == crop_rows(pixels, w, rect, (n - 1) as nat)
            + pixels.subrange(off, off + 3 * rect.width));
        assert(3 * rect.width * (n - 1) + 3 * rect.width == 3 * rect.width * n) by (nonlinear_arith);
    } else {
        assert(3 * rect.width * n == 0) by (nonlinear_arith)
            requires
                n == 0,
        ;
    }
}

/// Cuts `rect` out of `image`. An empty rectangle gives a 0 by 0 image; any
/// other gives an image of the rectangle's size, whose rows are the
/// rectangle's segments of the source rows, top to bottom. No byte outside
/// those segments is read.
pub fn crop(image: &Image, rect: &ClampedRectangle) -> (r: Image)
    requires
        image.wf(),
        rect.fits(image.spec_dims()),
    ensures
        r.wf(),
        rect.is_degenerate() ==> r.width == 0 && r.height == 0,
        !rect.is_degenerate() ==> r.width == rect.width && r.height == rect.height
            && r.pixels@ == crop_rows(image.pixels@, image.width as nat, *rect, rect.height as nat),
{
    if rect.is_degenerate() {
        return Image { width: 0, height: 0, pixels: Vec::new() };
    }
    let ghost src = image.pixels@;
    let w = image.width;
    let plen = image.pixels.len();
    let mut out: Vec<u8> = Vec::new();
    let mut row: u32 = 0;
    while row < rect.height
        invariant
            image.wf(),
            src == image.pixels@,
            w == image.width,
            rect.fits(image.spec_dims()),
            plen == src.len(),
            row <= rect.height,
            out@ == crop_rows(src, w as nat, *rect, row as nat),
        decreases rect.height - row,
    {
        let y: u32 = rect.y + row;
        proof {
            lemma_segment_inside(w as nat, image.height as nat, rect.x as nat, y as nat, rect.width as nat);
            assert(3 * ((y as int) * (w as int) + rect.x) + 3 * rect.width <= src.len());
            assert((y as int) * (w as int) >= 0) by (nonlinear_arith);
        }
        let start: usize = 3 * ((y as usize) * (w as usize) + rect.x as usize);
        let end: usize = start + 3 * (rect.width as usize);
        let ghost before = out@;
        let mut k: usize = start;
        while k < end
            invariant
                src == image.pixels@,
                start <= k <= end,
                end <= src.len(),
                out@ == before + src.subrange(start as int, k as int),
            decreases end - k,
        {
            out.push(image.pixels[k]);
            proof {
                assert(src.subrange(start as int, k + 1) =~= src.subrange(start as int, k as int).push(src[k as int]));
            }
            k = k + 1;
        }
        row = row + 1;
    }
    proof {
        assert(3 * w * (rect.y + rect.height) <= 3 * w * image.height) by (nonlinear_arith)
            requires
                rect.y + rect.height <= image.height,
        ;
        lemma_crop_rows_len(src, w as nat, *rect, rect.height as nat);
    }
    Image { width: rect.width, height: rect.height, pixels: out }
}

/// What `image::load_from_memory` makes of `bytes`: the colour layout of the
/// file, then width, height and RGB bytes of the decoded image; `None` when
/// the bytes are no image that the decoder reads.
pub uninterp spec fn decoded_image(bytes: Seq<u8>) -> Option<(ColorKind, u32, u32, Seq<u8>)>;

/// Relies on `image::load_from_memory` (format guessed from the bytes),
/// `DynamicImage::to_rgb8` and `ImageBuffer::into_raw`.
#[verifier::external_body]
fn decode_file(bytes: &[u8]) -> (r: Result<(ColorKind, u32, u32, Vec<u8>), image::ImageError>)
    ensures
        match r {
            Ok((k, w, h, p)) => decoded_image(bytes@) == Some((k, w, h, p@)),
            Err(_) => decoded_image(bytes@) is None,
        },
{
    let img = image::load_from_memory(bytes)?;
    let kind = match img {
        image::DynamicImage::ImageLuma8(_) => ColorKind::Grayscale,
        image::DynamicImage::ImageRgb8(_) => ColorKind::Rgb,
        image::DynamicImage::ImageRgba8(_) => ColorKind::Rgba,
        _ => ColorKind::Other,
    };
    let rgb = img.to_rgb8();
    Ok((kind, rgb.width(), rgb.height(), rgb.into_raw()))
}

/// The image that `bytes` decode to, when they decode to a well-formed one.
pub open spec fn image_of_bytes(bytes: Seq<u8>) -> Option<(ColorKind, u32, u32, Seq<u8>)> {
    match decoded_image(bytes) {
        Some((k, w, h, p)) => if p.len() == 3 * w * h {
            Some((k, w, h, p))
        } else {
            None
        },
        None => None,
    }
}

/// Decodes an image file held in memory (JPEG or PNG), with the colour layout it had.
pub fn load_image(bytes: &[u8]) -> (r: Result<(ColorKind, Image), ApiError>)
    ensures
        match r {
            Ok((k, img)) => img.wf() && image_of_bytes(bytes@) == Some(
                (k, img.width, img.height, img.pixels@),
            ),
            Err(e) => image_of_bytes(bytes@) is None && e == ApiError::ImageProcessingFailed,
        },
{
    match decode_file(bytes) {
        Ok((k, w, h, p)) => match Image::from_raw(w, h, p) {
            Some(img) => Ok((k, img)),
            None => Err(ApiError::ImageProcessingFailed),
        },
        Err(_) => Err(ApiError::ImageProcessingFailed),
    }
}

/// Whether `bytes` hold an image that can be decoded.
pub fn validate_image_format(bytes: &[u8]) -> (r: Result<bool, ApiError>)
    ensures
        r == Ok::<bool, ApiError>(image_of_bytes(bytes@) is Some),
{
    match load_image(bytes) {
        Ok(_) => Ok(true),
        Err(_) => Ok(false),
    }
}

/// Accepts `bytes` when they hold an image that can be decoded.
pub fn validate_image(bytes: &[u8]) -> (r: Result<(), ApiError>)
    ensures
        r is Ok <==> image_of_bytes(bytes@) is Some,
        r matches Err(e) ==> e == ApiError::InvalidFileFormat,
{
    match load_image(bytes) {
        Ok(_) => Ok(()),
        Err(_) => Err(ApiError::InvalidFileFormat),
    }
}

/// The name that `get_image_info` gives a colour layout.
pub open spec fn color_kind_name(k: ColorKind) -> Seq<char> {
    match k {
        ColorKind::Grayscale => "grayscale"@,
        ColorKind::Rgb => "rgb"@,
        ColorKind::Rgba => "rgba"@,
        ColorKind::Other => "unknown"@,
    }
}

/// Width, height and colour layout of the image that `bytes` hold.
pub fn get_image_info(bytes: &[u8]) -> (r: Result<(u32, u32, String), ApiError>)
    ensures
        match r {
            Ok((w, h, name)) => image_of_bytes(bytes@) matches Some((k, iw, ih, _)) && w == iw
                && h == ih && name@ == color_kind_name(k),
            Err(e) => image_of_bytes(bytes@) is None && e == ApiError::ImageProcessingFailed,
        },
{
    match load_image(bytes) {
        Ok((k, img)) => {
            let name = match k {
                ColorKind::Grayscale => String::from_str("grayscale"),
                ColorKind::Rgb => String::from_str("rgb"),
                ColorKind::Rgba => String::from_str("rgba"),
                ColorKind::Other => String::from_str("unknown"),
            };
            Ok((img.width, img.height, name))
        },
        Err(e) => Err(e),
    }
}

/// The JPEG file that the `image` crate's encoder writes for an RGB image
/// `width` by `height` with bytes `pixels`, at the given quality; `None`
/// when the encoder refuses it.
pub uninterp spec fn jpeg_encoding(quality: u8, width: u32, height: u32, pixels: Seq<u8>) -> Option<Seq<u8>>;

/// Relies on `image::codecs::jpeg::JpegEncoder::encode` writing into a `Vec`:
/// it panics unless the buffer holds three bytes per pixel, and refuses a
/// width or height of zero or above 65535.
#[verifier::external_body]
fn jpeg_bytes(img: &Image, quality: u8) -> (r: Result<Vec<u8>, image::ImageError>)
    requires
        img.wf(),
    ensures
        match r {
            Ok(b) => jpeg_encoding(quality, img.width, img.height, img.pixels@) == Some(b@),
            Err(_) => jpeg_encoding(quality, img.width, img.height, img.pixels@) is None,
        },
        (img.width == 0 || img.height == 0 || img.width > 65535 || img.height > 65535) ==> r is Err,
{
    let mut out = Vec::new();
    let mut encoder = image::codecs::jpeg::JpegEncoder::new_with_quality(&mut out, quality);
    encoder.encode(&img.pixels, img.width, img.height, image::ExtendedColorType::Rgb8)?;
    Ok(out)
}

/// Quality at which images are written as JPEG.
pub const JPEG_QUALITY: u8 = 85;

/// Writes `img` as a JPEG file.
pub fn encode_jpeg(img: &Image) -> (r: Result<Vec<u8>, ApiError>)
    requires
        img.wf(),
    ensures
        match r {
            Ok(b) => jpeg_encoding(JPEG_QUALITY, img.width, img.height, img.pixels@) == Some(b@),
            Err(e) => jpeg_encoding(JPEG_QUALITY, img.width, img.height, img.pixels@) is None
                && e == ApiError::ImageProcessingFailed,
        },
        (img.width == 0 || img.height == 0) ==> r is Err,
{
    match jpeg_bytes(img, JPEG_QUALITY) {
        Ok(b) => Ok(b),
        Err(_) => Err(ApiError::ImageProcessingFailed),
    }
}

/// Colour of pixel (`x`, `y`) of the synthetic test image `w` by `h`: a light
/// background with one skin-coloured 80 by 80 square at (100, 100) when the
/// image is larger than 100 in both directions, and a second, darker one at
/// (300, 100) when it is also wider than 300.
pub open spec fn test_pattern(w: u32, h: u32, x: nat, y: nat) -> (u8, u8, u8) {
    if w > 100 && h > 100 && 100 <= x < 180 && 100 <= y < 180 {
        (200u8, 180u8, 160u8)
    } else if w > 300 && h > 100 && 300 <= x < 380 && 100 <= y < 180 {
        (180u8, 160u8, 140u8)
    } else {
        (240u8, 240u8, 240u8)
    }
}

/// Row `y` of the synthetic test image.
pub open spec fn test_pattern_row(w: u32, h: u32, y: nat) -> Seq<u8> {
    Seq::new(3 * w as nat, |k: int| channel(test_pattern(w, h, (k / 3) as nat, y), k % 3))
}

/// The first `n` rows of the synthetic test image.
pub open spec fn test_pattern_rows(w: u32, h: u32, n: nat) -> Seq<u8>
    decreases n,
{
    if n == 0 {
        Seq::empty()
    } else {
        test_pattern_rows(w, h, (n - 1) as nat) + test_pattern_row(w, h, (n - 1) as nat)
    }
}

proof fn lemma_test_pattern_rows_len(w: u32, h: u32, n: nat)
    ensures
        test_pattern_rows(w, h, n).len() == 3 * w * n,
    decreases n,
{
    if n > 0 {
        lemma_test_pattern_rows_len(w, h, (n - 1) as nat);
        assert(3 * w * (n - 1) + 3 * w == 3 * w * n) by (nonlinear_arith);
    } else {
        assert(3 * w * n == 0) by (nonlinear_arith)
            requires
                n == 0,
        ;
    }
}

fn test_pattern_color(w: u32, h: u32, x: u32, y: u32) -> (r: (u8, u8, u8))
    ensures
        r == test_pattern(w, h, x as nat, y as nat),
{
    if w > 100 && h > 100 && 100 <= x && x < 180 && 100 <= y && y < 180 {
        (200, 180, 160)
    } else if w > 300 && h > 100 && 300 <= x && x < 380 && 100 <= y && y < 180 {
        (180, 160, 140)
    } else {
        (240, 240, 240)
    }
}

/// A synthetic image with regions shaped like faces, for trying out detection.
pub fn create_test_image(width: u32, height: u32) -> (r: Result<Image, ApiError>)
    requires
        3 * width * height <= usize::MAX,
    ensures
        r matches Ok(img) && img.wf() && img.width == width && img.height == height
            && img.pixels@ == test_pattern_rows(width, height, height as nat),
{
    let mut pixels: Vec<u8> = Vec::new();
    let mut y: u32 = 0;
    while y < height
        invariant
            y <= height,
            pixels@ == test_pattern_rows(width, height, y as nat),
        decreases height - y,
    {
        let ghost before = pixels@;
        let mut x: u32 = 0;
        while x < width
            invariant
                x <= width,
                pixels@ == before + test_pattern_row(width, height, y as nat).subrange(0, 3 * x),
            decreases width - x,
        {
            let color = test_pattern_color(width, height, x, y);
            pixels.push(color.0);
            pixels.push(color.1);
            pixels.push(color.2);
            proof {
                let row = test_pattern_row(width, height, y as nat);
                assert((3 * x) / 3 == x && (3 * x + 1) / 3 == x && (3 * x + 2) / 3 == x);
                assert((3 * x) % 3 == 0 && (3 * x + 1) % 3 == 1 && (3 * x + 2) % 3 == 2);
                assert(row.subrange(0, 3 * x + 3) =~= row.subrange(0, 3 * x).push(color.0).push(
                    color.1,
                ).push(color.2));
            }
            x = x + 1;
        }
        proof {
            assert(test_pattern_row(width, height, y as nat).subrange(0, 3 * width) =~= test_pattern_row(
                width,
                height,
                y as nat,
            ));
        }
        y = y + 1;
    }
    proof {
        lemma_test_pattern_rows_len(width, height, height as nat);
    }
    Ok(Image { width, height, pixels })
}

} // verus!
