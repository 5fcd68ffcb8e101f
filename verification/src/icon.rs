//! Preparing the application icon from its source image: near-white
//! background keyed out, the visible part's bounding box, and the square
//! canvas it is centred on.

use vstd::prelude::*;

verus! {

/// How far below 255 a channel may be and still count as white.
pub const WHITE_TOLERANCE: u8 = 15;

/// The `.ico` sizes written.
pub const ICO_SIZES: [u32; 7] = [16, 24, 32, 48, 64, 128, 256];

/// A pixel whose red, green and blue are all within the tolerance of white.
pub open spec fn near_white(r: u8, g: u8, b: u8) -> bool {
    r >= 255 - WHITE_TOLERANCE && g >= 255 - WHITE_TOLERANCE && b >= 255 - WHITE_TOLERANCE
}

/// RGBA bytes with every near-white pixel made fully transparent black.
pub open spec fn keyed_out(p: Seq<u8>) -> Seq<u8> {
    Seq::new(
        p.len(),
        |k: int|
            {
                let i = k - k % 4;
                if near_white(p[i], p[i + 1], p[i + 2]) {
                    0u8
                } else {
                    p[k]
                }
            },
    )
}

/// Makes every near-white pixel of the RGBA bytes `pixels` transparent.
pub fn key_out_white(pixels: &mut Vec<u8>)
    requires
        old(pixels)@.len() % 4 == 0,
    ensures
        final(pixels)@ == keyed_out(old(pixels)@),
{
    let ghost orig = pixels@;
    let n = pixels.len();
    let white_min: u8 = 255 - WHITE_TOLERANCE;
    let mut i: usize = 0;
    while i < n
        invariant
            n == pixels@.len() == orig.len(),
            n % 4 == 0,
            i % 4 == 0,
            i <= n,
            white_min == 255 - WHITE_TOLERANCE,
            forall|k: int| 0 <= k < i ==> #[trigger] pixels@[k] == keyed_out(orig)[k],
            forall|k: int| i <= k < n ==> #[trigger] pixels@[k] == orig[k],
        decreases n - i,
    {
        let r = pixels[i];
        let g = pixels[i + 1];
        let b = pixels[i + 2];
        if r >= white_min && g >= white_min && b >= white_min {
            pixels.set(i, 0);
            pixels.set(i + 1, 0);
            pixels.set(i + 2, 0);
            pixels.set(i + 3, 0);
        }
        proof {
            assert forall|k: int| i <= k < i + 4 implies #[trigger] pixels@[k] == keyed_out(orig)[k] by {
                assert(k - k % 4 == i);
            }
        }
        i += 4;
    }
    proof {
        assert(pixels@ =~= keyed_out(orig));
    }
}

/// Whether the pixel at column `x`, row `y` of a `w`-wide RGBA image has
/// any opacity.
pub open spec fn opaque_at(p: Seq<u8>, w: int, x: int, y: int) -> bool {
    p[(y * w + x) * 4 + 3] > 0
}

/// The rows before `ry`, and row `ry` up to column `rx`.
pub open spec fn in_region(x: int, y: int, w: int, rx: int, ry: int) -> bool {
    0 <= x < w && 0 <= y && (y < ry || (y == ry && x < rx))
}

/// The smallest box holding every visible pixel.
#[derive(Debug, Clone, Copy, PartialEq, Eq, Structural)]
pub struct PixelBounds {
    pub min_x: u32,
    pub min_y: u32,
    pub max_x: u32,
    pub max_y: u32,
}

/// `b` is the tight box of the visible pixels in the region before
/// (`rx`, `ry`): it holds them all and each edge touches one.
pub open spec fn tight_box(p: Seq<u8>, w: int, b: PixelBounds, rx: int, ry: int) -> bool {
    &&& forall|x: int, y: int|
        in_region(x, y, w, rx, ry) && #[trigger] opaque_at(p, w, x, y) ==> b.min_x <= x <= b.max_x && b.min_y <= y
            <= b.max_y
    &&& exists|x: int, y: int| in_region(x, y, w, rx, ry) && #[trigger] opaque_at(p, w, x, y) && x == b.min_x
    &&& exists|x: int, y: int| in_region(x, y, w, rx, ry) && #[trigger] opaque_at(p, w, x, y) && x == b.max_x
    &&& exists|x: int, y: int| in_region(x, y, w, rx, ry) && #[trigger] opaque_at(p, w, x, y) && y == b.min_y
    &&& exists|x: int, y: int| in_region(x, y, w, rx, ry) && #[trigger] opaque_at(p, w, x, y) && y == b.max_y
}

/// No visible pixel in the region before (`rx`, `ry`).
pub open spec fn none_visible(p: Seq<u8>, w: int, rx: int, ry: int) -> bool {
    forall|x: int, y: int| in_region(x, y, w, rx, ry) ==> !#[trigger] opaque_at(p, w, x, y)
}

/// The tight box of the visible pixels of a `w` by `h` RGBA image, `None`
/// when none is visible.
pub fn opaque_bounds(pixels: &Vec<u8>, w: u32, h: u32) -> (r: Option<PixelBounds>)
    requires
        pixels@.len() == (w as int) * (h as int) * 4,
    ensures
        match r {
            Some(b) => tight_box(pixels@, w as int, b, 0, h as int),
            None => none_visible(pixels@, w as int, 0, h as int),
        },
{
    let p = Ghost(pixels@);
    let ghost wi = w as int;
    let mut b = PixelBounds { min_x: w, min_y: h, max_x: 0, max_y: 0 };
    let mut any = false;
    let n = pixels.len();
    let mut y: u32 = 0;
    let mut idx: usize = 0;
    proof {
        assert(0 * wi == 0) by (nonlinear_arith);
    }
    while y < h
        invariant
            p@ == pixels@,
            wi == w,
            y <= h,
            idx == (y as int) * wi * 4,
            pixels@.len() == wi * (h as int) * 4,
            n == pixels@.len(),
            any ==> tight_box(p@, wi, b, 0, y as int),
            !any ==> none_visible(p@, wi, 0, y as int),
        decreases h - y,
    {
        let mut x: u32 = 0;
        while x < w
            invariant
                p@ == pixels@,
                wi == w,
                y < h,
                x <= w,
                idx == ((y as int) * wi + x) * 4,
                pixels@.len() == wi * (h as int) * 4,
                n == pixels@.len(),
                any ==> tight_box(p@, wi, b, x as int, y as int),
                !any ==> none_visible(p@, wi, x as int, y as int),
            decreases w - x,
        {
            proof {
                assert(((y as int) * wi + x) * 4 + 4 <= wi * (h as int) * 4) by (nonlinear_arith)
                    requires
                        x < wi,
                        y < h,
                ;
            }
            let visible = pixels[idx + 3] > 0;
            let ghost xi = x as int;
            let ghost yi = y as int;
            let ghost b0 = b;
            let ghost any0 = any;
            if visible {
                if !any {
                    b = PixelBounds { min_x: x, min_y: y, max_x: x, max_y: y };
                    any = true;
                } else {
                    if x < b.min_x {
                        b.min_x = x;
                    }
                    if x > b.max_x {
                        b.max_x = x;
                    }
                    if y < b.min_y {
                        b.min_y = y;
                    }
                    if y > b.max_y {
                        b.max_y = y;
                    }
                }
            }
            proof {
                assert(opaque_at(p@, wi, xi, yi) == visible);
                assert forall|x2: int, y2: int| in_region(x2, y2, wi, xi + 1, yi) implies in_region(
                    x2,
                    y2,
                    wi,
                    xi,
                    yi,
                ) || (x2 == xi && y2 == yi) by {}
                if any {
                    assert forall|x2: int, y2: int|
                        in_region(x2, y2, wi, xi + 1, yi) && #[trigger] opaque_at(
                            p@,
                            wi,
                            x2,
                            y2,
                        ) implies b.min_x <= x2 <= b.max_x && b.min_y <= y2 <= b.max_y by {
                        if !(x2 == xi && y2 == yi) {
                            assert(in_region(x2, y2, wi, xi, yi));
                        }
                    }
                    if visible {
                        if any0 {
                            if b.min_x == b0.min_x {
                                let (wx, wy) = choose|x2: int, y2: int|
                                    in_region(x2, y2, wi, xi, yi) && #[trigger] opaque_at(p@, wi, x2, y2) && x2
                                        == b0.min_x;
                                assert(in_region(wx, wy, wi, xi + 1, yi));
                            } else {
                                assert(in_region(xi, yi, wi, xi + 1, yi));
                            }
                            if b.max_x == b0.max_x {
                                let (wx, wy) = choose|x2: int, y2: int|
                                    in_region(x2, y2, wi, xi, yi) && #[trigger] opaque_at(p@, wi, x2, y2) && x2
                                        == b0.max_x;
                                assert(in_region(wx, wy, wi, xi + 1, yi));
                            } else {
                                assert(in_region(xi, yi, wi, xi + 1, yi));
                            }
                            if b.min_y == b0.min_y {
                                let (wx, wy) = choose|x2: int, y2: int|
                                    in_region(x2, y2, wi, xi, yi) && #[trigger] opaque_at(p@, wi, x2, y2) && y2
                                        == b0.min_y;
                                assert(in_region(wx, wy, wi, xi + 1, yi));
                            } else {
                                assert(in_region(xi, yi, wi, xi + 1, yi));
                            }
                            if b.max_y == b0.max_y {
                                let (wx, wy) = choose|x2: int, y2: int|
                                    in_region(x2, y2, wi, xi, yi) && #[trigger] opaque_at(p@, wi, x2, y2) && y2
                                        == b0.max_y;
                                assert(in_region(wx, wy, wi, xi + 1, yi));
                            } else {
                                assert(in_region(xi, yi, wi, xi + 1, yi));
                            }
                        } else {
                            assert(in_region(xi, yi, wi, xi + 1, yi));
                        }
                    } else {
                        let (a1, a2) = choose|x2: int, y2: int|
                            in_region(x2, y2, wi, xi, yi) && #[trigger] opaque_at(p@, wi, x2, y2) && x2 == b.min_x;
                        assert(in_region(a1, a2, wi, xi + 1, yi));
                        let (c1, c2) = choose|x2: int, y2: int|
                            in_region(x2, y2, wi, xi, yi) && #[trigger] opaque_at(p@, wi, x2, y2) && x2 == b.max_x;
                        assert(in_region(c1, c2, wi, xi + 1, yi));
                        let (d1, d2) = choose|x2: int, y2: int|
                            in_region(x2, y2, wi, xi, yi) && #[trigger] opaque_at(p@, wi, x2, y2) && y2 == b.min_y;
                        assert(in_region(d1, d2, wi, xi + 1, yi));
                        let (e1, e2) = choose|x2: int, y2: int|
                            in_region(x2, y2, wi, xi, yi) && #[trigger] opaque_at(p@, wi, x2, y2) && y2 == b.max_y;
                        assert(in_region(e1, e2, wi, xi + 1, yi));
                    }
                } else {
                    assert forall|x2: int, y2: int| in_region(x2, y2, wi, xi + 1, yi) implies !#[trigger] opaque_at(
                        p@,
                        wi,
                        x2,
                        y2,
                    ) by {
                        if !(x2 == xi && y2 == yi) {
                            assert(in_region(x2, y2, wi, xi, yi));
                        }
                    }
                }
                assert((yi * wi + (xi + 1)) * 4 == (yi * wi + xi) * 4 + 4) by (nonlinear_arith);
            }
            idx = idx + 4;
            x = x + 1;
        }
        proof {
            let yi = y as int;
            assert((yi * wi + wi) * 4 == (yi + 1) * wi * 4) by (nonlinear_arith);
            assert forall|x2: int, y2: int| in_region(x2, y2, wi, 0, yi + 1) == in_region(x2, y2, wi, wi, yi) by {}
            if any {
                let (a1, a2) = choose|x2: int, y2: int|
                    in_region(x2, y2, wi, wi, yi) && #[trigger] opaque_at(p@, wi, x2, y2) && x2 == b.min_x;
                assert(in_region(a1, a2, wi, 0, yi + 1));
                let (c1, c2) = choose|x2: int, y2: int|
                    in_region(x2, y2, wi, wi, yi) && #[trigger] opaque_at(p@, wi, x2, y2) && x2 == b.max_x;
                assert(in_region(c1, c2, wi, 0, yi + 1));
                let (d1, d2) = choose|x2: int, y2: int|
                    in_region(x2, y2, wi, wi, yi) && #[trigger] opaque_at(p@, wi, x2, y2) && y2 == b.min_y;
                assert(in_region(d1, d2, wi, 0, yi + 1));
                let (e1, e2) = choose|x2: int, y2: int|
                    in_region(x2, y2, wi, wi, yi) && #[trigger] opaque_at(p@, wi, x2, y2) && y2 == b.max_y;
                assert(in_region(e1, e2, wi, 0, yi + 1));
            }
        }
        y = y + 1;
    }
    if any {
        Some(b)
    } else {
        None
    }
}

/// Where the visible part goes: the crop rectangle, the side of the square
/// canvas, and the offset that centres the crop on it.
#[derive(Debug, Clone, Copy, PartialEq, Eq, Structural)]
pub struct SquareLayout {
    pub crop_x: u32,
    pub crop_y: u32,
    pub crop_w: u32,
    pub crop_h: u32,
    pub side: u32,
    pub offset_x: u32,
    pub offset_y: u32,
}

/// The square layout for the box `b`: the crop is the box, the side its
/// longer edge, the offsets half the slack (rounded down) on each axis.
pub open spec fn spec_square_layout(b: PixelBounds) -> SquareLayout {
    let cw = b.max_x + 1 - b.min_x;
    let ch = b.max_y + 1 - b.min_y;
    let side = if cw >= ch { cw } else { ch };
    SquareLayout {
        crop_x: b.min_x,
        crop_y: b.min_y,
        crop_w: cw as u32,
        crop_h: ch as u32,
        side: side as u32,
        offset_x: ((side - cw) / 2) as u32,
        offset_y: ((side - ch) / 2) as u32,
    }
}

/// The square canvas layout for the visible box `b`.
pub fn square_layout(b: PixelBounds) -> (r: SquareLayout)
    requires
        b.min_x <= b.max_x < u32::MAX,
        b.min_y <= b.max_y < u32::MAX,
    ensures
        r == spec_square_layout(b),
{
    let cw = b.max_x + 1 - b.min_x;
    let ch = b.max_y + 1 - b.min_y;
    let side = if cw >= ch {
        cw
    } else {
        ch
    };
    SquareLayout {
        crop_x: b.min_x,
        crop_y: b.min_y,
        crop_w: cw,
        crop_h: ch,
        side,
        offset_x: (side - cw) / 2,
        offset_y: (side - ch) / 2,
    }
}

/// The canvas is the crop's longer edge square, and the crop sits centred
/// on it: the slack left and right (above and below) differs by at most one
/// pixel, the extra one going right (below).
pub proof fn lemma_square_layout_centres(b: PixelBounds)
    requires
        b.min_x <= b.max_x < u32::MAX,
        b.min_y <= b.max_y < u32::MAX,
    ensures
        ({
            let l = spec_square_layout(b);
            &&& l.side >= l.crop_w && l.side >= l.crop_h
            &&& (l.side == l.crop_w || l.side == l.crop_h)
            &&& 0 <= (l.side - l.offset_x - l.crop_w) - l.offset_x <= 1
            &&& 0 <= (l.side - l.offset_y - l.crop_h) - l.offset_y <= 1
        }),
{
}

/// Why the icon source cannot be used.
#[derive(Debug, Clone, Copy, PartialEq, Eq, Structural)]
pub enum IconError {
    /// Nothing is left visible once the background is keyed out.
    FullyTransparent,
}

impl IconError {
    /// The message reported for this error.
    pub fn message(&self) -> (s: String)
        ensures
            s@ == "source image is fully transparent after cleanup"@,
    {
        String::from_str("source image is fully transparent after cleanup")
    }
}

/// Cleans the `w` by `h` RGBA source in place (near-white keyed out) and
/// lays its visible part out on a square canvas.
pub fn clean_icon(pixels: &mut Vec<u8>, w: u32, h: u32) -> (r: Result<SquareLayout, IconError>)
    requires
        old(pixels)@.len() == (w as int) * (h as int) * 4,
    ensures
        final(pixels)@ == keyed_out(old(pixels)@),
        match r {
            Ok(l) => exists|b: PixelBounds|
                tight_box(final(pixels)@, w as int, b, 0, h as int) && l == spec_square_layout(b),
            Err(_) => none_visible(final(pixels)@, w as int, 0, h as int),
        },
{
    proof {
        assert((w as int) * (h as int) * 4 % 4 == 0) by (nonlinear_arith);
    }
    key_out_white(pixels);
    match opaque_bounds(pixels, w, h) {
        None => Err(IconError::FullyTransparent),
        Some(b) => {
            proof {
                // The right and bottom edges touch visible pixels, so they lie inside the image.
                let (a1, a2) = choose|x2: int, y2: int|
                    in_region(x2, y2, w as int, 0, h as int) && #[trigger] opaque_at(pixels@, w as int, x2, y2)
                        && x2 == b.max_x;
                let (c1, c2) = choose|x2: int, y2: int|
                    in_region(x2, y2, w as int, 0, h as int) && #[trigger] opaque_at(pixels@, w as int, x2, y2)
                        && y2 == b.max_y;
                assert(b.max_x == a1 < w && b.max_y == c2 < h);
            }
            Ok(square_layout(b))
        },
    }
}

} // verus!
