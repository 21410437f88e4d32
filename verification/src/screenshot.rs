//! Pixel statistics of screenshots: the average colour of each quadrant, and
//! how many pixels of each quadrant differ from a baseline.
//!
//! Images are RGBA, 8 bits per channel, stored row by row; the pixel at
//! `(x, y)` starts at byte `(y * width + x) * 4`.
use vstd::prelude::*;
use crate::text::owned;

verus! {

/// What `image::load_from_memory` decodes from `bytes`, converted to RGBA
/// with `to_rgba8`: width, height and the pixel bytes, or the error's message.
pub uninterp spec fn decoded_rgba(bytes: Seq<u8>) -> Result<(u32, u32, Seq<u8>), Seq<char>>;

/// An RGBA image.
pub struct RgbaImage {
    pub width: u32,
    pub height: u32,
    pub pixels: Vec<u8>,
}

impl RgbaImage {
    /// The pixel bytes cover every pixel.
    pub open spec fn wf(&self) -> bool {
        self.pixels@.len() >= self.width * self.height * 4
    }
}

/// Decodes an image file held in memory (`image::load_from_memory`, format
/// guessed from the content) and converts it to RGBA (`to_rgba8`).  The
/// result is named, not stated; that the pixel bytes cover the image is the
/// crate's `ImageBuffer` invariant (`from_raw` refuses a smaller buffer).
#[verifier::external_body]
fn decode_rgba(bytes: &[u8]) -> (r: Result<RgbaImage, String>)
    ensures
        match r {
            Ok(img) => decoded_rgba(bytes@) == Ok::<(u32, u32, Seq<u8>), Seq<char>>(
                (img.width, img.height, img.pixels@),
            ) && img.wf(),
            Err(e) => decoded_rgba(bytes@) == Err::<(u32, u32, Seq<u8>), Seq<char>>(e@),
        },
{
    match image::load_from_memory(bytes) {
        Ok(img) => {
            let rgba = img.to_rgba8();
            let (width, height) = rgba.dimensions();
            Ok(RgbaImage { width, height, pixels: rgba.into_raw() })
        },
        Err(e) => Err(format!("{e}")),
    }
}

/// Channel `c` of the pixel at `(x, y)` of a row-major RGBA buffer whose rows
/// are `w` pixels long.
pub open spec fn channel(px: Seq<u8>, w: int, x: int, y: int, c: int) -> int {
    px[(y * w + x) * 4 + c] as int
}

/// Sum of channel `c` over the pixels `x0 <= x < x1` of row `y`.
pub open spec fn row_sum(px: Seq<u8>, w: int, y: int, x0: int, x1: int, c: int) -> int
    decreases x1 - x0,
{
    if x1 <= x0 {
        0
    } else {
        row_sum(px, w, y, x0, x1 - 1, c) + channel(px, w, x1 - 1, y, c)
    }
}

/// Sum of channel `c` over the rectangle `x0 <= x < x1`, `y0 <= y < y1`.
pub open spec fn rect_sum(px: Seq<u8>, w: int, x0: int, x1: int, y0: int, y1: int, c: int) -> int
    decreases y1 - y0,
{
    if y1 <= y0 {
        0
    } else {
        rect_sum(px, w, x0, x1, y0, y1 - 1, c) + row_sum(px, w, y1 - 1, x0, x1, c)
    }
}

/// Whether one of the red, green and blue channels of two pixels differs by
/// more than 10.
pub open spec fn pixel_differs(a: Seq<u8>, aw: int, b: Seq<u8>, bw: int, x: int, y: int) -> bool {
    ||| (channel(a, aw, x, y, 0) - channel(b, bw, x, y, 0) > 10 || channel(b, bw, x, y, 0) - channel(a, aw, x, y, 0) > 10)
    ||| (channel(a, aw, x, y, 1) - channel(b, bw, x, y, 1) > 10 || channel(b, bw, x, y, 1) - channel(a, aw, x, y, 1) > 10)
    ||| (channel(a, aw, x, y, 2) - channel(b, bw, x, y, 2) > 10 || channel(b, bw, x, y, 2) - channel(a, aw, x, y, 2) > 10)
}

/// How many pixels `x0 <= x < x1` of row `y` differ.
pub open spec fn row_diffs(a: Seq<u8>, aw: int, b: Seq<u8>, bw: int, y: int, x0: int, x1: int) -> int
    decreases x1 - x0,
{
    if x1 <= x0 {
        0
    } else {
        row_diffs(a, aw, b, bw, y, x0, x1 - 1) + if pixel_differs(a, aw, b, bw, x1 - 1, y) {
            1int
        } else {
            0int
        }
    }
}

/// How many pixels of the rectangle `x0 <= x < x1`, `y0 <= y < y1` differ.
pub open spec fn rect_diffs(a: Seq<u8>, aw: int, b: Seq<u8>, bw: int, x0: int, x1: int, y0: int, y1: int) -> int
    decreases y1 - y0,
{
    if y1 <= y0 {
        0
    } else {
        rect_diffs(a, aw, b, bw, x0, x1, y0, y1 - 1) + row_diffs(a, aw, b, bw, y1 - 1, x0, x1)
    }
}

/// The four quadrants of a `w` by `h` image, as `(x0, y0, x1, y1)`: top left,
/// top right, bottom left, bottom right (the left and top halves get the
/// smaller share of an odd size).
pub open spec fn quadrant_spec(w: u32, h: u32, q: int) -> (u32, u32, u32, u32) {
    if q == 0 {
        (0, 0, w / 2, h / 2)
    } else if q == 1 {
        (w / 2, 0, w, h / 2)
    } else if q == 2 {
        (0, h / 2, w / 2, h)
    } else {
        (w / 2, h / 2, w, h)
    }
}

/// The names of the quadrants, in order.
pub open spec fn quadrant_name_spec(q: int) -> Seq<char> {
    if q == 0 {
        "top_left"@
    } else if q == 1 {
        "top_right"@
    } else if q == 2 {
        "bottom_left"@
    } else {
        "bottom_right"@
    }
}

fn quadrant(w: u32, h: u32, q: usize) -> (r: (u32, u32, u32, u32))
    requires
        q < 4,
    ensures
        r == quadrant_spec(w, h, q as int),
{
    if q == 0 {
        (0, 0, w / 2, h / 2)
    } else if q == 1 {
        (w / 2, 0, w, h / 2)
    } else if q == 2 {
        (0, h / 2, w / 2, h)
    } else {
        (w / 2, h / 2, w, h)
    }
}

fn quadrant_name(q: usize) -> (r: String)
    requires
        q < 4,
    ensures
        r@ == quadrant_name_spec(q as int),
{
    if q == 0 {
        owned("top_left")
    } else if q == 1 {
        owned("top_right")
    } else if q == 2 {
        owned("bottom_left")
    } else {
        owned("bottom_right")
    }
}

/// The byte position of channel `c` of pixel `(x, y)` lies inside a buffer
/// that covers a `w` by `h` image.
proof fn lemma_pixel_index(w: int, h: int, x: int, y: int, c: int, len: int)
    requires
        0 <= x < w,
        0 <= y < h,
        0 <= c < 4,
        len >= w * h * 4,
    ensures
        0 <= y * w <= y * w + x,
        (y * w + x) * 4 + c < len,
        0 <= (y * w + x) * 4 + c,
{
    assert(0 <= y * w) by (nonlinear_arith)
        requires
            y >= 0,
            w >= 0,
    ;
    assert(y * w + x <= (h - 1) * w + (w - 1)) by (nonlinear_arith)
        requires
            0 <= x < w,
            0 <= y < h,
    ;
    assert((h - 1) * w + (w - 1) == w * h - 1) by (nonlinear_arith);
}

/// Reads channel `c` of pixel `(x, y)`.
fn channel_at(img: &RgbaImage, x: u32, y: u32, c: usize) -> (r: u8)
    requires
        img.wf(),
        x < img.width,
        y < img.height,
        c < 4,
    ensures
        r as int == channel(img.pixels@, img.width as int, x as int, y as int, c as int),
{
    let len = img.pixels.len();
    proof {
        lemma_pixel_index(img.width as int, img.height as int, x as int, y as int, c as int, len as int);
    }
    let row = (y as usize) * (img.width as usize);
    let i = (row + (x as usize)) * 4 + c;
    img.pixels[i]
}

/// A sum of a row never exceeds 255 per pixel.
proof fn lemma_row_sum_bound(px: Seq<u8>, w: int, y: int, x0: int, x1: int, c: int)
    requires
        x0 <= x1,
    ensures
        0 <= row_sum(px, w, y, x0, x1, c) <= 255 * (x1 - x0),
    decreases x1 - x0,
{
    if x1 > x0 {
        lemma_row_sum_bound(px, w, y, x0, x1 - 1, c);
    }
}

/// A sum of a rectangle never exceeds 255 per pixel.
proof fn lemma_rect_sum_bound(px: Seq<u8>, w: int, x0: int, x1: int, y0: int, y1: int, c: int)
    requires
        x0 <= x1,
        y0 <= y1,
    ensures
        0 <= rect_sum(px, w, x0, x1, y0, y1, c) <= 255 * ((x1 - x0) * (y1 - y0)),
    decreases y1 - y0,
{
    if y1 > y0 {
        lemma_rect_sum_bound(px, w, x0, x1, y0, y1 - 1, c);
        lemma_row_sum_bound(px, w, y1 - 1, x0, x1, c);
        assert(255 * ((x1 - x0) * (y1 - 1 - y0)) + 255 * (x1 - x0) == 255 * ((x1 - x0) * (y1 - y0)))
            by (nonlinear_arith);
    }
}

/// Sum of channel `c` over a rectangle of the image.
fn rect_channel_sum(img: &RgbaImage, x0: u32, x1: u32, y0: u32, y1: u32, c: usize) -> (r: u128)
    requires
        img.wf(),
        x0 <= x1 <= img.width,
        y0 <= y1 <= img.height,
        c < 4,
    ensures
        r as int == rect_sum(img.pixels@, img.width as int, x0 as int, x1 as int, y0 as int, y1 as int, c as int),
{
    let ghost px = img.pixels@;
    let ghost w = img.width as int;
    let mut total: u128 = 0;
    let mut y = y0;
    while y < y1
        invariant
            y0 <= y <= y1,
            x0 <= x1 <= img.width,
            y1 <= img.height,
            img.wf(),
            c < 4,
            px == img.pixels@,
            w == img.width as int,
            total as int == rect_sum(px, w, x0 as int, x1 as int, y0 as int, y as int, c as int),
        decreases y1 - y,
    {
        let mut row: u128 = 0;
        let mut x = x0;
        while x < x1
            invariant
                x0 <= x <= x1,
                x1 <= img.width,
                y < img.height,
                img.wf(),
                c < 4,
                px == img.pixels@,
                w == img.width as int,
                row as int == row_sum(px, w, y as int, x0 as int, x as int, c as int),
            decreases x1 - x,
        {
            proof {
                lemma_row_sum_bound(px, w, y as int, x0 as int, x as int, c as int);
                assert(255 * (x - x0) <= 255 * 0x1_0000_0000int);
            }
            let v = channel_at(img, x, y, c);
            row = row + v as u128;
            x = x + 1;
        }
        proof {
            lemma_rect_sum_bound(px, w, x0 as int, x1 as int, y0 as int, y as int, c as int);
            lemma_row_sum_bound(px, w, y as int, x0 as int, x1 as int, c as int);
            assert((x1 - x0) * (y - y0) <= 0x1_0000_0000int * 0x1_0000_0000int) by (nonlinear_arith)
                requires
                    0 <= x1 - x0 <= 0x1_0000_0000int,
                    0 <= y - y0 <= 0x1_0000_0000int,
            ;
        }
        total = total + row;
        y = y + 1;
    }
    total
}

/// The average colour of a quadrant: for each of red, green and blue, the
/// channel's sum over the quadrant divided by its pixel count (by 1 for an
/// empty quadrant), rounded down.
pub struct QuadrantColor {
    pub name: String,
    pub avg_color: [u8; 3],
}

/// The average of channel `c` over the rectangle, as the analysis reports it.
pub open spec fn rect_average(px: Seq<u8>, w: int, r: (u32, u32, u32, u32), c: int) -> int {
    let count = (r.2 - r.0) * (r.3 - r.1);
    rect_sum(px, w, r.0 as int, r.2 as int, r.1 as int, r.3 as int, c) / (if count > 0 {
        count
    } else {
        1
    })
}

fn rect_channel_average(img: &RgbaImage, r: (u32, u32, u32, u32), c: usize) -> (v: u8)
    requires
        img.wf(),
        r.0 <= r.2 <= img.width,
        r.1 <= r.3 <= img.height,
        c < 4,
    ensures
        v as int == rect_average(img.pixels@, img.width as int, r, c as int),
{
    let sum = rect_channel_sum(img, r.0, r.2, r.1, r.3, c);
    let cw = (r.2 - r.0) as u128;
    let ch = (r.3 - r.1) as u128;
    proof {
        lemma_rect_sum_bound(img.pixels@, img.width as int, r.0 as int, r.2 as int, r.1 as int, r.3 as int, c as int);
        assert(cw * ch <= 0x1_0000_0000int * 0x1_0000_0000int) by (nonlinear_arith)
            requires
                cw <= 0x1_0000_0000int,
                ch <= 0x1_0000_0000int,
        ;
    }
    let count = cw * ch;
    let d: u128 = if count > 0 {
        count
    } else {
        1
    };
    let avg = sum / d;
    proof {
        assert(sum <= 255 * d) by {
            if count == 0 {
                assert(sum <= 255 * count);
            }
        }
        assert(avg <= 255) by (nonlinear_arith)
            requires
                avg == sum / d,
                sum <= 255 * d,
                d > 0,
        ;
    }
    avg as u8
}

/// The average colour of each quadrant of an image.
pub open spec fn quadrant_colors_spec(px: Seq<u8>, w: u32, h: u32, out: Seq<QuadrantColor>) -> bool {
    &&& out.len() == 4
    &&& forall|q: int|
        0 <= q < 4 ==> {
            &&& #[trigger] out[q].name@ == quadrant_name_spec(q)
            &&& forall|c: int|
                0 <= c < 3 ==> out[q].avg_color[c] as int == rect_average(px, w as int, quadrant_spec(w, h, q), c)
        }
}

/// The average colour of each quadrant of a decoded image.
pub fn quadrant_colors(img: &RgbaImage) -> (r: Vec<QuadrantColor>)
    requires
        img.wf(),
    ensures
        quadrant_colors_spec(img.pixels@, img.width, img.height, r@),
{
    let mut out: Vec<QuadrantColor> = Vec::new();
    let mut q: usize = 0;
    while q < 4
        invariant
            q <= 4,
            img.wf(),
            out@.len() == q,
            forall|k: int|
                0 <= k < q ==> {
                    &&& #[trigger] out@[k].name@ == quadrant_name_spec(k)
                    &&& forall|c: int|
                        0 <= c < 3 ==> out@[k].avg_color[c] as int == rect_average(
                            img.pixels@,
                            img.width as int,
                            quadrant_spec(img.width, img.height, k),
                            c,
                        )
                },
        decreases 4 - q,
    {
        let r = quadrant(img.width, img.height, q);
        let red = rect_channel_average(img, r, 0);
        let green = rect_channel_average(img, r, 1);
        let blue = rect_channel_average(img, r, 2);
        let ghost before = out@;
        let color = QuadrantColor { name: quadrant_name(q), avg_color: [red, green, blue] };
        assert(color.avg_color[0] == red && color.avg_color[1] == green && color.avg_color[2] == blue);
        out.push(color);
        proof {
            assert forall|k: int|
                0 <= k < q + 1 implies {
                    &&& #[trigger] out@[k].name@ == quadrant_name_spec(k)
                    &&& forall|c: int|
                        0 <= c < 3 ==> out@[k].avg_color[c] as int == rect_average(
                            img.pixels@,
                            img.width as int,
                            quadrant_spec(img.width, img.height, k),
                            c,
                        )
                } by {
                if k < q {
                    assert(out@[k] == before[k]);
                } else {
                    assert forall|c: int| 0 <= c < 3 implies out@[k].avg_color[c] as int == rect_average(
                        img.pixels@,
                        img.width as int,
                        quadrant_spec(img.width, img.height, k),
                        c,
                    ) by {
                        if c == 0 {
                        } else if c == 1 {
                        } else {
                        }
                    }
                }
            }
        }
        q += 1;
    }
    out
}

/// The quadrant colours of an image file held in memory; the error names the
/// decoding failure.
pub fn analyze_screenshot(bytes: &[u8]) -> (r: Result<(u32, u32, Vec<QuadrantColor>), String>)
    ensures
        match decoded_rgba(bytes@) {
            Ok((w, h, px)) => r matches Ok((rw, rh, q)) && rw == w && rh == h && quadrant_colors_spec(px, w, h, q@),
            Err(e) => r matches Err(m) && m@ == "Failed to open screenshot: "@ + e,
        },
{
    match decode_rgba(bytes) {
        Ok(img) => {
            let q = quadrant_colors(&img);
            Ok((img.width, img.height, q))
        },
        Err(e) => {
            let mut m = owned("Failed to open screenshot: ");
            m.append(e.as_str());
            Err(m)
        },
    }
}

fn abs_diff_over(u: u8, v: u8) -> (r: bool)
    ensures
        r == (u - v > 10 || v - u > 10),
{
    if u >= v {
        u - v > 10
    } else {
        v - u > 10
    }
}

fn pixel_differs_at(a: &RgbaImage, b: &RgbaImage, x: u32, y: u32) -> (r: bool)
    requires
        a.wf(),
        b.wf(),
        x < a.width,
        x < b.width,
        y < a.height,
        y < b.height,
    ensures
        r == pixel_differs(a.pixels@, a.width as int, b.pixels@, b.width as int, x as int, y as int),
{
    abs_diff_over(channel_at(a, x, y, 0), channel_at(b, x, y, 0)) || abs_diff_over(
        channel_at(a, x, y, 1),
        channel_at(b, x, y, 1),
    ) || abs_diff_over(channel_at(a, x, y, 2), channel_at(b, x, y, 2))
}

proof fn lemma_row_diffs_bound(a: Seq<u8>, aw: int, b: Seq<u8>, bw: int, y: int, x0: int, x1: int)
    requires
        x0 <= x1,
    ensures
        0 <= row_diffs(a, aw, b, bw, y, x0, x1) <= x1 - x0,
    decreases x1 - x0,
{
    if x1 > x0 {
        lemma_row_diffs_bound(a, aw, b, bw, y, x0, x1 - 1);
    }
}

proof fn lemma_rect_diffs_bound(a: Seq<u8>, aw: int, b: Seq<u8>, bw: int, x0: int, x1: int, y0: int, y1: int)
    requires
        x0 <= x1,
        y0 <= y1,
    ensures
        0 <= rect_diffs(a, aw, b, bw, x0, x1, y0, y1) <= (x1 - x0) * (y1 - y0),
    decreases y1 - y0,
{
    if y1 > y0 {
        lemma_rect_diffs_bound(a, aw, b, bw, x0, x1, y0, y1 - 1);
        lemma_row_diffs_bound(a, aw, b, bw, y1 - 1, x0, x1);
        assert((x1 - x0) * (y1 - 1 - y0) + (x1 - x0) == (x1 - x0) * (y1 - y0)) by (nonlinear_arith);
    }
}

proof fn lemma_area_fits(w: int, h: int)
    requires
        0 <= w <= u32::MAX,
        0 <= h <= u32::MAX,
    ensures
        w * h <= u64::MAX,
{
    assert(w * h <= 0xffff_ffffint * 0xffff_ffffint) by (nonlinear_arith)
        requires
            0 <= w <= 0xffff_ffffint,
            0 <= h <= 0xffff_ffffint,
    ;
}

/// How many pixels of a rectangle differ between two images.
fn rect_diff_count(a: &RgbaImage, b: &RgbaImage, x0: u32, x1: u32, y0: u32, y1: u32) -> (r: u64)
    requires
        a.wf(),
        b.wf(),
        x0 <= x1,
        x1 <= a.width,
        x1 <= b.width,
        y0 <= y1,
        y1 <= a.height,
        y1 <= b.height,
    ensures
        r as int == rect_diffs(a.pixels@, a.width as int, b.pixels@, b.width as int, x0 as int, x1 as int, y0 as int, y1 as int),
{
    let ghost ap = a.pixels@;
    let ghost bp = b.pixels@;
    let ghost aw = a.width as int;
    let ghost bw = b.width as int;
    let mut total: u64 = 0;
    let mut y = y0;
    while y < y1
        invariant
            y0 <= y <= y1,
            x0 <= x1,
            x1 <= a.width,
            x1 <= b.width,
            y1 <= a.height,
            y1 <= b.height,
            a.wf(),
            b.wf(),
            ap == a.pixels@,
            bp == b.pixels@,
            aw == a.width as int,
            bw == b.width as int,
            total as int == rect_diffs(ap, aw, bp, bw, x0 as int, x1 as int, y0 as int, y as int),
        decreases y1 - y,
    {
        let mut row: u64 = 0;
        let mut x = x0;
        while x < x1
            invariant
                x0 <= x <= x1,
                x1 <= a.width,
                x1 <= b.width,
                y < a.height,
                y < b.height,
                a.wf(),
                b.wf(),
                ap == a.pixels@,
                bp == b.pixels@,
                aw == a.width as int,
                bw == b.width as int,
                row as int == row_diffs(ap, aw, bp, bw, y as int, x0 as int, x as int),
            decreases x1 - x,
        {
            proof {
                lemma_row_diffs_bound(ap, aw, bp, bw, y as int, x0 as int, x as int);
            }
            if pixel_differs_at(a, b, x, y) {
                row = row + 1;
            }
            x = x + 1;
        }
        proof {
            lemma_rect_diffs_bound(ap, aw, bp, bw, x0 as int, x1 as int, y0 as int, y as int + 1);
            lemma_rect_diffs_bound(ap, aw, bp, bw, x0 as int, x1 as int, y0 as int, y as int);
            lemma_row_diffs_bound(ap, aw, bp, bw, y as int, x0 as int, x1 as int);
            lemma_area_fits((x1 - x0) as int, (y + 1 - y0) as int);
        }
        total = total + row;
        y = y + 1;
    }
    total
}

/// Differing pixels of one quadrant.
pub struct QuadrantDiffCount {
    pub name: String,
    /// Pixels whose red, green or blue value differs by more than 10.
    pub diff_count: u64,
    /// Pixels in the quadrant.
    pub pixel_count: u64,
}

/// The comparison of a screenshot with a baseline over the area both cover.
pub struct DiffCounts {
    /// Width of the compared area: the smaller of the two widths.
    pub width: u32,
    /// Height of the compared area: the smaller of the two heights.
    pub height: u32,
    /// Differing pixels in all four quadrants together.
    pub total_diff: u64,
    pub quadrants: Vec<QuadrantDiffCount>,
}

/// `d` reports quadrant `q` of the `w` by `h` area compared.
pub open spec fn quadrant_diff_ok(d: QuadrantDiffCount, a: Seq<u8>, aw: int, b: Seq<u8>, bw: int, w: u32, h: u32, q: int) -> bool {
    let r = quadrant_spec(w, h, q);
    &&& d.name@ == quadrant_name_spec(q)
    &&& d.diff_count == rect_diffs(a, aw, b, bw, r.0 as int, r.2 as int, r.1 as int, r.3 as int)
    &&& d.pixel_count == (r.2 - r.0) * (r.3 - r.1)
}

/// The differing pixels of each quadrant of the `w` by `h` area compared.
pub open spec fn diff_counts_spec(a: Seq<u8>, aw: int, b: Seq<u8>, bw: int, w: u32, h: u32, d: DiffCounts) -> bool {
    &&& d.width == w
    &&& d.height == h
    &&& d.quadrants@.len() == 4
    &&& forall|q: int| 0 <= q < 4 ==> quadrant_diff_ok(#[trigger] d.quadrants@[q], a, aw, b, bw, w, h, q)
    &&& d.total_diff == d.quadrants@[0].diff_count + d.quadrants@[1].diff_count + d.quadrants@[2].diff_count
        + d.quadrants@[3].diff_count
}

/// The pixel count of quadrant `q`.
pub open spec fn quadrant_area(w: u32, h: u32, q: int) -> int {
    let r = quadrant_spec(w, h, q);
    (r.2 - r.0) * (r.3 - r.1)
}

/// The pixel counts of the quadrants before `q`, together.
pub open spec fn areas_before(w: u32, h: u32, q: int) -> int
    decreases q,
{
    if q <= 0 {
        0
    } else {
        areas_before(w, h, q - 1) + quadrant_area(w, h, q - 1)
    }
}

/// The quadrants before `q` and quadrant `q` fit in the image.
proof fn lemma_areas_before(w: u32, h: u32, q: int)
    requires
        0 <= q < 4,
    ensures
        areas_before(w, h, q) + quadrant_area(w, h, q) <= w * h,
        areas_before(w, h, q + 1) == areas_before(w, h, q) + quadrant_area(w, h, q),
{
    lemma_quadrant_areas(w, h);
    let a = (w / 2) as int;
    let b = (h / 2) as int;
    assert(0 <= a * b) by (nonlinear_arith)
        requires
            a >= 0,
            b >= 0,
    ;
    assert(0 <= (w - a) * b) by (nonlinear_arith)
        requires
            w - a >= 0,
            b >= 0,
    ;
    assert(0 <= a * (h - b)) by (nonlinear_arith)
        requires
            a >= 0,
            h - b >= 0,
    ;
    assert(0 <= (w - a) * (h - b)) by (nonlinear_arith)
        requires
            w - a >= 0,
            h - b >= 0,
    ;
    reveal_with_fuel(areas_before, 5);
}

/// The four quadrants lie inside the image and together cover each of its
/// pixels once: their pixel counts add up to the image's.
pub proof fn lemma_quadrant_areas(w: u32, h: u32)
    ensures
        forall|q: int| 0 <= q < 4 ==> {
            let r = #[trigger] quadrant_spec(w, h, q);
            r.0 <= r.2 <= w && r.1 <= r.3 <= h
        },
        (w / 2) * (h / 2) + (w - w / 2) * (h / 2) + (w / 2) * (h - h / 2) + (w - w / 2) * (h - h / 2) == w * h,
        quadrant_area(w, h, 0) + quadrant_area(w, h, 1) + quadrant_area(w, h, 2) + quadrant_area(w, h, 3) == w * h,
{
    let a = (w / 2) as int;
    let b = (h / 2) as int;
    let ww = w as int;
    let hh = h as int;
    assert(a * b + (ww - a) * b + a * (hh - b) + (ww - a) * (hh - b) == ww * hh) by (nonlinear_arith);
}

/// Counts the differing pixels of each quadrant over the area both images
/// cover.
pub fn diff_counts(a: &RgbaImage, b: &RgbaImage) -> (r: DiffCounts)
    requires
        a.wf(),
        b.wf(),
    ensures
        diff_counts_spec(
            a.pixels@,
            a.width as int,
            b.pixels@,
            b.width as int,
            if a.width <= b.width { a.width } else { b.width },
            if a.height <= b.height { a.height } else { b.height },
            r,
        ),
{
    let w = if a.width <= b.width {
        a.width
    } else {
        b.width
    };
    let h = if a.height <= b.height {
        a.height
    } else {
        b.height
    };
    proof {
        lemma_quadrant_areas(w, h);
        lemma_area_fits(w as int, h as int);
    }
    let mut quadrants: Vec<QuadrantDiffCount> = Vec::new();
    let mut total: u64 = 0;
    let mut q: usize = 0;
    while q < 4
        invariant
            q <= 4,
            a.wf(),
            b.wf(),
            w <= a.width,
            w <= b.width,
            h <= a.height,
            h <= b.height,
            w * h <= u64::MAX,
            forall|k: int| 0 <= k < 4 ==> {
                let r = #[trigger] quadrant_spec(w, h, k);
                r.0 <= r.2 <= w && r.1 <= r.3 <= h
            },
            (w / 2) * (h / 2) + (w - w / 2) * (h / 2) + (w / 2) * (h - h / 2) + (w - w / 2) * (h - h / 2) == w * h,
            quadrants@.len() == q,
            forall|k: int|
                0 <= k < q ==> quadrant_diff_ok(
                    #[trigger] quadrants@[k],
                    a.pixels@,
                    a.width as int,
                    b.pixels@,
                    b.width as int,
                    w,
                    h,
                    k,
                ) && quadrants@[k].diff_count <= quadrants@[k].pixel_count,
            total == (if q > 0 { quadrants@[0].diff_count as int } else { 0 }) + (if q > 1 { quadrants@[1].diff_count as int } else { 0 })
                + (if q > 2 { quadrants@[2].diff_count as int } else { 0 }) + (if q > 3 { quadrants@[3].diff_count as int } else { 0 }),
            total <= areas_before(w, h, q as int),
        decreases 4 - q,
    {
        let r = quadrant(w, h, q);
        assert(r == quadrant_spec(w, h, q as int));
        let count = rect_diff_count(a, b, r.0, r.2, r.1, r.3);
        proof {
            lemma_rect_diffs_bound(a.pixels@, a.width as int, b.pixels@, b.width as int, r.0 as int, r.2 as int, r.1 as int, r.3 as int);
            lemma_area_fits((r.2 - r.0) as int, (r.3 - r.1) as int);
        }
        let pixels = ((r.2 - r.0) as u64) * ((r.3 - r.1) as u64);
        let ghost before = quadrants@;
        let name = quadrant_name(q);
        proof {
            lemma_areas_before(w, h, q as int);
            assert(pixels == quadrant_area(w, h, q as int));
        }
        quadrants.push(QuadrantDiffCount { name, diff_count: count, pixel_count: pixels });
        assert(quadrants@[q as int].diff_count == count);
        assert(quadrants@[q as int].pixel_count == pixels);
        proof {
            assert forall|k: int| 0 <= k < q + 1 implies quadrant_diff_ok(
                #[trigger] quadrants@[k],
                a.pixels@,
                a.width as int,
                b.pixels@,
                b.width as int,
                w,
                h,
                k,
            ) && quadrants@[k].diff_count <= quadrants@[k].pixel_count by {
                if k < q {
                    assert(quadrants@[k] == before[k]);
                }
            }
        }
        total = total + count;
        q += 1;
    }
    DiffCounts { width: w, height: h, total_diff: total, quadrants }
}

/// The comparison of two image files held in memory; the errors name the
/// image that could not be decoded and why, the baseline first.
pub fn screenshot_diff(baseline: &[u8], current: &[u8]) -> (r: Result<DiffCounts, String>)
    ensures
        match decoded_rgba(baseline@) {
            Err(e) => r matches Err(m) && m@ == "Failed to open baseline: "@ + e,
            Ok((bw, bh, bpx)) => match decoded_rgba(current@) {
                Err(e) => r matches Err(m) && m@ == "Failed to open current screenshot: "@ + e,
                Ok((cw, ch, cpx)) => r matches Ok(d) && diff_counts_spec(
                    bpx,
                    bw as int,
                    cpx,
                    cw as int,
                    if bw <= cw { bw } else { cw },
                    if bh <= ch { bh } else { ch },
                    d,
                ),
            },
        },
{
    let base = match decode_rgba(baseline) {
        Ok(img) => img,
        Err(e) => {
            let mut m = owned("Failed to open baseline: ");
            m.append(e.as_str());
            return Err(m);
        },
    };
    let cur = match decode_rgba(current) {
        Ok(img) => img,
        Err(e) => {
            let mut m = owned("Failed to open current screenshot: ");
            m.append(e.as_str());
            return Err(m);
        },
    };
    Ok(diff_counts(&base, &cur))
}

} // verus!
