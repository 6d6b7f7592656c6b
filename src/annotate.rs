//! Annotation of an image: a one-pixel outline around each non-empty
//! rectangle, in input order, and a text label placed just above it.
use vstd::prelude::*;
use vstd::arithmetic::div_mod::{lemma_fundamental_div_mod, lemma_mod_pos_bound};
use crate::geometry::ClampedRectangle;
use crate::raster::{channel, Image};
use crate::text::{decimal, push_decimal, push_str};

verus! {

/// A rectangle to outline, with the confidence of its detection in
/// thousandths (0 to 1000).
#[derive(Debug, Clone, Copy, PartialEq, Eq, Structural)]
pub struct Annotation {
    pub rect: ClampedRectangle,
    pub confidence: u16,
}

/// A label to be written at (`x`, `y`), the top left corner of its text.
#[derive(Debug, Clone)]
pub struct Label {
    pub text: String,
    pub x: i32,
    pub y: i32,
}

/// Colour of outlines and labels.
pub open spec fn spec_box_color() -> (u8, u8, u8) {
    (0u8, 255u8, 0u8)
}

/// Colour of outlines and labels: green.
pub fn box_color() -> (r: (u8, u8, u8))
    ensures
        r == spec_box_color(),
{
    (0, 255, 0)
}

/// Height, in pixels, at which labels are written.
pub const LABEL_SCALE: u32 = 20;

/// How far above its rectangle a label starts.
pub const LABEL_OFFSET: u32 = 10;

/// Pixel (`px`, `py`) lies on the one-pixel border of `r`.
pub open spec fn on_outline(r: ClampedRectangle, px: int, py: int) -> bool {
    &&& r.x <= px < r.x + r.width
    &&& r.y <= py < r.y + r.height
    &&& (px == r.x || px == r.x + r.width - 1 || py == r.y || py == r.y + r.height - 1)
}

/// `pixels` (an image `w` pixels wide) with the border of `r` set to `color`.
pub open spec fn outlined(pixels: Seq<u8>, w: nat, r: ClampedRectangle, color: (u8, u8, u8)) -> Seq<u8> {
    Seq::new(
        pixels.len(),
        |k: int|
            if on_outline(r, (k / 3) % (w as int), (k / 3) / (w as int)) {
                channel(color, k % 3)
            } else {
                pixels[k]
            },
    )
}

/// Pixel `p` of an image `w` pixels wide lies in row `r` or later exactly
/// when `p` is at least `r * w`.
proof fn lemma_row_of_pixel(p: int, w: int, r: int)
    requires
        0 <= p,
        0 < w,
    ensures
        p < r * w ==> p / w < r,
        p >= r * w ==> p / w >= r,
{
    lemma_fundamental_div_mod(p, w);
    lemma_mod_pos_bound(p, w);
    let q = p / w;
    assert(p < r * w ==> q < r) by (nonlinear_arith)
        requires
            p == w * q + p % w,
            0 <= p % w < w,
            0 < w,
    ;
    assert(p >= r * w ==> q >= r) by (nonlinear_arith)
        requires
            p == w * q + p % w,
            0 <= p % w < w,
            0 < w,
    ;
}

/// Sets the one-pixel border of `rect` in `img` to `color`, leaving every
/// other pixel as it was. Only the rows that `rect` spans are visited.
fn draw_outline(img: &mut Image, rect: &ClampedRectangle, color: (u8, u8, u8))
    requires
        old(img).wf(),
        rect.fits(old(img).spec_dims()),
        rect.width > 0,
        rect.height > 0,
    ensures
        final(img).width == old(img).width,
        final(img).height == old(img).height,
        final(img).pixels@ == outlined(old(img).pixels@, old(img).width as nat, *rect, color),
{
    let ghost before = img.pixels@;
    let ghost wi = img.width as int;
    let w: usize = img.width as usize;
    let bottom: u32 = rect.y + rect.height;
    let plen: usize = img.pixels.len();
    proof {
        assert(3 * (bottom as int * wi) <= before.len()) by (nonlinear_arith)
            requires
                bottom <= img.height,
                before.len() == 3 * wi * img.height,
                0 <= wi,
        ;
        assert(rect.y as int * wi <= bottom as int * wi) by (nonlinear_arith)
            requires
                rect.y <= bottom,
                0 <= wi,
        ;
    }
    let start: usize = (rect.y as usize) * w;
    let end: usize = (bottom as usize) * w;
    let left: usize = rect.x as usize;
    let right: usize = (rect.x + rect.width - 1) as usize;
    let top: usize = rect.y as usize;
    let last: usize = (bottom - 1) as usize;
    let mut p: usize = start;
    while p < end
        invariant
            img.width == old(img).width,
            img.height == old(img).height,
            wi == img.width,
            w == wi,
            0 < wi,
            img.pixels@.len() == before.len(),
            plen == before.len(),
            start == rect.y * wi,
            end == bottom * wi,
            3 * end <= before.len(),
            start <= p <= end,
            left == rect.x,
            right == rect.x + rect.width - 1,
            top == rect.y,
            last == rect.y + rect.height - 1,
            forall|k: int|
                0 <= k < before.len() ==> #[trigger] img.pixels@[k] == if 3 * start <= k < 3 * p
                    && on_outline(*rect, (k / 3) % wi, (k / 3) / wi) {
                    channel(color, k % 3)
                } else {
                    before[k]
                },
        decreases end - p,
    {
        let px: usize = p % w;
        let py: usize = p / w;
        let on = left <= px && px <= right && top <= py && py <= last && (px == left || px == right
            || py == top || py == last);
        let ghost prev = img.pixels@;
        if on {
            img.pixels.set(3 * p, color.0);
            img.pixels.set(3 * p + 1, color.1);
            img.pixels.set(3 * p + 2, color.2);
        }
        proof {
            assert forall|k: int| 0 <= k < before.len() implies #[trigger] img.pixels@[k] == if 3
                * start <= k < 3 * (p + 1) && on_outline(*rect, (k / 3) % wi, (k / 3) / wi) {
                channel(color, k % 3)
            } else {
                before[k]
            } by {
                if 3 * p <= k < 3 * p + 3 {
                    assert(k / 3 == p as int);
                    assert(k % 3 == k - 3 * p);
                } else {
                    assert(img.pixels@[k] == prev[k]);
                }
            }
        }
        p = p + 1;
    }
    proof {
        assert forall|k: int| 0 <= k < before.len() implies #[trigger] img.pixels@[k] == outlined(
            before,
            wi as nat,
            *rect,
            color,
        )[k] by {
            let q = k / 3;
            lemma_row_of_pixel(q, wi, rect.y as int);
            lemma_row_of_pixel(q, wi, bottom as int);
            if k < 3 * start {
                assert(q < rect.y * wi);
            } else if k >= 3 * end {
                assert(q >= bottom * wi);
            }
        }
        assert(img.pixels@ =~= outlined(before, wi as nat, *rect, color));
    }
}

/// The image after outlining, in order, every non-empty rectangle of `boxes`.
pub open spec fn annotated(pixels: Seq<u8>, w: nat, boxes: Seq<Annotation>) -> Seq<u8>
    decreases boxes.len(),
{
    if boxes.len() == 0 {
        pixels
    } else {
        let before = annotated(pixels, w, boxes.drop_last());
        let r = boxes.last().rect;
        if r.spec_is_degenerate() {
            before
        } else {
            outlined(before, w, r, spec_box_color())
        }
    }
}

/// Outlines every non-empty rectangle of `boxes` on a copy of `image`, later
/// ones over earlier ones; empty rectangles are skipped. The copy keeps the
/// dimensions of `image`.
pub fn annotate(image: &Image, boxes: &Vec<Annotation>) -> (r: Image)
    requires
        image.wf(),
        forall|i: int| 0 <= i < boxes.len() ==> (#[trigger] boxes[i]).rect.fits(image.spec_dims()),
    ensures
        r.wf(),
        r.width == image.width,
        r.height == image.height,
        r.pixels@ == annotated(image.pixels@, image.width as nat, boxes@),
{
    let mut out = image.duplicate();
    let color = box_color();
    let mut i: usize = 0;
    while i < boxes.len()
        invariant
            image.wf(),
            forall|i: int| 0 <= i < boxes.len() ==> (#[trigger] boxes[i]).rect.fits(image.spec_dims()),
            i <= boxes.len(),
            out.wf(),
            out.width == image.width,
            out.height == image.height,
            color == spec_box_color(),
            out.pixels@ == annotated(
                image.pixels@,
                image.width as nat,
                boxes@.subrange(0, i as int),
            ),
        decreases boxes.len() - i,
    {
        let rect = boxes[i].rect;
        proof {
            assert(boxes@.subrange(0, i + 1).drop_last() =~= boxes@.subrange(0, i as int));
            assert(boxes@.subrange(0, i + 1).last() == boxes@[i as int]);
        }
        if !rect.is_degenerate() {
            draw_outline(&mut out, &rect, color);
        }
        i = i + 1;
    }
    proof {
        assert(boxes@.subrange(0, boxes.len() as int) =~= boxes@);
    }
    out
}

/// The text of the label of detection number `n` with confidence `c` thousandths,
/// as in `Face 2: 87.0%`.
pub open spec fn label_text_spec(n: nat, c: nat) -> Seq<char> {
    "Face "@ + decimal(n) + ": "@ + decimal(c / 10) + "."@ + decimal(c % 10) + "%"@
}

/// The text of the label of detection number `n` with confidence `confidence` thousandths.
pub fn label_text(n: u64, confidence: u16) -> (r: String)
    ensures
        r@ == label_text_spec(n as nat, confidence as nat),
{
    let mut s = String::new();
    push_str(&mut s, "Face ");
    push_decimal(&mut s, n);
    push_str(&mut s, ": ");
    push_decimal(&mut s, (confidence / 10) as u64);
    push_str(&mut s, ".");
    push_decimal(&mut s, (confidence % 10) as u64);
    push_str(&mut s, "%");
    proof {
        assert(s@ =~= label_text_spec(n as nat, confidence as nat));
    }
    s
}

/// Where the label of `r` starts: at its left edge, `LABEL_OFFSET` pixels above
/// its top edge, but never above the top of the image.
pub open spec fn label_position_spec(r: ClampedRectangle) -> (i32, i32) {
    let x: int = if r.x > i32::MAX {
        i32::MAX as int
    } else {
        r.x as int
    };
    let y0: int = if r.y >= LABEL_OFFSET {
        r.y - LABEL_OFFSET
    } else {
        0
    };
    let y: int = if y0 > i32::MAX {
        i32::MAX as int
    } else {
        y0
    };
    (x as i32, y as i32)
}

/// Where the label of `r` starts.
pub fn label_position(r: &ClampedRectangle) -> (p: (i32, i32))
    ensures
        p == label_position_spec(*r),
{
    let x: i32 = if r.x > i32::MAX as u32 {
        i32::MAX
    } else {
        r.x as i32
    };
    let y0: u32 = if r.y >= LABEL_OFFSET {
        r.y - LABEL_OFFSET
    } else {
        0
    };
    let y: i32 = if y0 > i32::MAX as u32 {
        i32::MAX
    } else {
        y0 as i32
    };
    (x, y)
}

/// Text and position of a label.
pub open spec fn label_view(l: Label) -> (Seq<char>, i32, i32) {
    (l.text@, l.x, l.y)
}

/// The labels of `boxes`, one for each non-empty rectangle, numbered from 1 by
/// position in `boxes`.
pub open spec fn labels_spec(boxes: Seq<Annotation>) -> Seq<(Seq<char>, i32, i32)>
    decreases boxes.len(),
{
    if boxes.len() == 0 {
        Seq::empty()
    } else {
        let before = labels_spec(boxes.drop_last());
        let b = boxes.last();
        if b.rect.spec_is_degenerate() {
            before
        } else {
            let p = label_position_spec(b.rect);
            before.push((label_text_spec(boxes.len() as nat, b.confidence as nat), p.0, p.1))
        }
    }
}

/// The labels to write over the image that `annotate` draws for `boxes`.
pub fn labels(boxes: &Vec<Annotation>) -> (r: Vec<Label>)
    ensures
        r@.map_values(|l: Label| label_view(l)) == labels_spec(boxes@),
{
    let mut out: Vec<Label> = Vec::new();
    let mut i: usize = 0;
    while i < boxes.len()
        invariant
            i <= boxes.len(),
            out@.map_values(|l: Label| label_view(l)) == labels_spec(boxes@.subrange(0, i as int)),
        decreases boxes.len() - i,
    {
        let b = boxes[i];
        proof {
            assert(boxes@.subrange(0, i + 1).drop_last() =~= boxes@.subrange(0, i as int));
            assert(boxes@.subrange(0, i + 1).last() == boxes@[i as int]);
        }
        if !b.rect.is_degenerate() {
            let text = label_text((i + 1) as u64, b.confidence);
            let (x, y) = label_position(&b.rect);
            let ghost before = out@;
            out.push(Label { text, x, y });
            proof {
                assert(out@.map_values(|l: Label| label_view(l)) =~= before.map_values(
                    |l: Label| label_view(l),
                ).push((text@, x, y)));
            }
        }
        i = i + 1;
    }
    proof {
        assert(boxes@.subrange(0, boxes.len() as int) =~= boxes@);
    }
    out
}

} // verus!
