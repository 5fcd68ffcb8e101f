//! The icon files: the cleaned source cropped onto its square canvas, then
//! resampled to each size that the macOS `.icns` and Windows `.ico` files
//! hold, and encoded.

use vstd::prelude::*;

use crate::icon::{clean_icon, in_region, keyed_out, none_visible, opaque_at, spec_square_layout, tight_box, IconError, PixelBounds, SquareLayout, ICO_SIZES};

verus! {

/// The standard library's I/O error, which the icon encoders report.
#[verifier::external_type_specification]
#[verifier::external_body]
pub struct ExIoError(std::io::Error);

/// The four bytes of the pixel at column `x`, row `y` of a `w`-wide RGBA
/// image.
pub open spec fn pixel_at(p: Seq<u8>, w: int, x: int, y: int) -> Seq<u8> {
    p.subrange((y * w + x) * 4, (y * w + x) * 4 + 4)
}

/// The `cw` by `ch` rectangle of the `w`-wide RGBA image `p` whose top left
/// corner is (`x`, `y`), row by row.
pub open spec fn cropped(p: Seq<u8>, w: int, x: int, y: int, cw: int, ch: int) -> Seq<u8> {
    Seq::new((cw * ch * 4) as nat, |k: int| p[((y + (k / 4) / cw) * w + x + (k / 4) % cw) * 4 + k % 4])
}

/// `image::imageops::crop_imm` on the `w` by `h` RGBA image, copied out
/// with `to_image`. Claimed: the result is the rectangle's pixels, row by
/// row, when the rectangle lies inside the image.
#[verifier::external_body]
fn crop_rgba(pixels: &Vec<u8>, w: u32, h: u32, x: u32, y: u32, cw: u32, ch: u32) -> (r: Vec<u8>)
    requires
        pixels@.len() == (w as int) * (h as int) * 4,
        x + cw <= w,
        y + ch <= h,
    ensures
        r@ == cropped(pixels@, w as int, x as int, y as int, cw as int, ch as int),
{
    let image = image::RgbaImage::from_raw(w, h, pixels.clone()).unwrap();
    image::imageops::crop_imm(&image, x, y, cw, ch).to_image().into_raw()
}

/// What `image::imageops::overlay` makes of the `bw` by `bh` RGBA image
/// `bottom` with the `tw` by `th` image `top` laid over it at (`x`, `y`).
pub uninterp spec fn rgba_overlaid(bottom: Seq<u8>, bw: u32, bh: u32, top: Seq<u8>, tw: u32, th: u32, x: u32, y: u32) -> Seq<u8>;

/// `image::imageops::overlay` of `top` onto `bottom` at (`x`, `y`). Claimed,
/// for a `top` that lies inside `bottom`: pixels outside it are unchanged;
/// under a fully transparent pixel of `top` the pixel is unchanged, under a
/// fully opaque one it becomes that pixel. The blend of partly transparent
/// pixels, which the crate computes in floating point, is named and not
/// stated.
#[verifier::external_body]
fn overlay_rgba(bottom: &mut Vec<u8>, bw: u32, bh: u32, top: &Vec<u8>, tw: u32, th: u32, x: u32, y: u32)
    requires
        old(bottom)@.len() == (bw as int) * (bh as int) * 4,
        top@.len() == (tw as int) * (th as int) * 4,
        x + tw <= bw,
        y + th <= bh,
    ensures
        final(bottom)@ == rgba_overlaid(old(bottom)@, bw, bh, top@, tw, th, x, y),
        final(bottom)@.len() == old(bottom)@.len(),
        forall|px: int, py: int|
            0 <= px < bw && 0 <= py < bh && !(x <= px < x + tw && y <= py < y + th) ==> #[trigger] pixel_at(
                final(bottom)@,
                bw as int,
                px,
                py,
            ) == pixel_at(old(bottom)@, bw as int, px, py),
        forall|px: int, py: int|
            x <= px < x + tw && y <= py < y + th && pixel_at(top@, tw as int, px - x, py - y)[3] == 0 ==> #[trigger] pixel_at(
                final(bottom)@,
                bw as int,
                px,
                py,
            ) == pixel_at(old(bottom)@, bw as int, px, py),
        forall|px: int, py: int|
            x <= px < x + tw && y <= py < y + th && pixel_at(top@, tw as int, px - x, py - y)[3] == 255
                ==> #[trigger] pixel_at(final(bottom)@, bw as int, px, py) == pixel_at(top@, tw as int, px - x, py - y),
{
    let mut canvas = image::RgbaImage::from_raw(bw, bh, std::mem::take(bottom)).unwrap();
    let layer = image::RgbaImage::from_raw(tw, th, top.clone()).unwrap();
    image::imageops::overlay(&mut canvas, &layer, x as i64, y as i64);
    *bottom = canvas.into_raw();
}

/// `n` zero bytes: a fully transparent RGBA canvas.
pub open spec fn zeros(n: nat) -> Seq<u8> {
    Seq::new(n, |i: int| 0u8)
}

/// A fully transparent canvas of `n` bytes.
fn transparent_canvas(n: usize) -> (r: Vec<u8>)
    ensures
        r@ == zeros(n as nat),
{
    let mut v: Vec<u8> = Vec::new();
    let mut i: usize = 0;
    while i < n
        invariant
            i <= n,
            v@ == zeros(i as nat),
        decreases n - i,
    {
        v.push(0);
        i += 1;
        proof {
            assert(v@ =~= zeros(i as nat));
        }
    }
    v
}

/// The layout lies inside the `w` by `h` source, its crop inside the
/// canvas, and the canvas's length fits in memory.
pub open spec fn layout_fits(w: u32, h: u32, l: SquareLayout) -> bool {
    &&& l.crop_x + l.crop_w <= w
    &&& l.crop_y + l.crop_h <= h
    &&& l.offset_x + l.crop_w <= l.side
    &&& l.offset_y + l.crop_h <= l.side
    &&& (l.side as int) * (l.side as int) * 4 <= usize::MAX
}

/// The square master: the crop of the `w`-wide source laid over a fully
/// transparent square canvas at the layout's offset.
pub open spec fn spec_square_master(p: Seq<u8>, w: u32, l: SquareLayout) -> Seq<u8> {
    rgba_overlaid(
        zeros((l.side * l.side * 4) as nat),
        l.side,
        l.side,
        cropped(p, w as int, l.crop_x as int, l.crop_y as int, l.crop_w as int, l.crop_h as int),
        l.crop_w,
        l.crop_h,
        l.offset_x,
        l.offset_y,
    )
}

/// Whether (`px`, `py`) lies in the box where the layout pastes the crop.
pub open spec fn in_pasted_box(px: int, py: int, l: SquareLayout) -> bool {
    l.offset_x <= px < l.offset_x + l.crop_w && l.offset_y <= py < l.offset_y + l.crop_h
}

/// A fully transparent black pixel.
pub open spec fn clear_pixel() -> Seq<u8> {
    seq![0u8, 0u8, 0u8, 0u8]
}

/// What the square master `m` of the `w`-wide source `p` holds: `side` by
/// `side` RGBA pixels, fully transparent black outside the pasted box and
/// under fully transparent source pixels, and the source pixel itself under
/// a fully opaque one.
pub open spec fn master_shape(m: Seq<u8>, p: Seq<u8>, w: u32, l: SquareLayout) -> bool {
    let side = l.side as int;
    &&& m.len() == side * side * 4
    &&& forall|px: int, py: int|
        0 <= px < side && 0 <= py < side && !in_pasted_box(px, py, l) ==> #[trigger] pixel_at(m, side, px, py)
            == clear_pixel()
    &&& forall|px: int, py: int|
        in_pasted_box(px, py, l) ==> {
            let s = pixel_at(p, w as int, l.crop_x + px - l.offset_x, l.crop_y + py - l.offset_y);
            &&& s[3] == 0 ==> #[trigger] pixel_at(m, side, px, py) == clear_pixel()
            &&& s[3] == 255 ==> pixel_at(m, side, px, py) == s
        }
}

/// Every pixel of a zero canvas is fully transparent black.
proof fn lemma_zeros_pixel(n: nat, side: int, px: int, py: int)
    requires
        0 <= px < side,
        0 <= py < side,
        n == side * side * 4,
    ensures
        pixel_at(zeros(n), side, px, py) == clear_pixel(),
{
    assert((py * side + px) * 4 + 4 <= side * side * 4) by (nonlinear_arith)
        requires
            0 <= px < side,
            0 <= py < side,
    ;
    assert(0 <= (py * side + px) * 4) by (nonlinear_arith)
        requires
            0 <= px,
            0 <= py,
            0 <= side,
    ;
    assert(pixel_at(zeros(n), side, px, py) =~= clear_pixel());
}

/// A pixel of the crop is the source pixel it was cut from.
proof fn lemma_cropped_pixel(p: Seq<u8>, w: int, x: int, y: int, cw: int, ch: int, qx: int, qy: int)
    requires
        0 <= qx < cw,
        0 <= qy < ch,
        0 <= x,
        0 <= y,
        0 <= w,
        ((y + qy) * w + x + qx) * 4 + 4 <= p.len(),
    ensures
        pixel_at(cropped(p, w, x, y, cw, ch), cw, qx, qy) == pixel_at(p, w, x + qx, y + qy),
{
    let c = cropped(p, w, x, y, cw, ch);
    let k0 = (qy * cw + qx) * 4;
    assert((qy * cw + qx) * 4 + 4 <= cw * ch * 4) by (nonlinear_arith)
        requires
            0 <= qx < cw,
            0 <= qy < ch,
    ;
    assert(0 <= (qy * cw + qx) * 4) by (nonlinear_arith)
        requires
            0 <= qx,
            0 <= qy,
            0 <= cw,
    ;
    assert(0 <= ((y + qy) * w + x + qx) * 4) by (nonlinear_arith)
        requires
            0 <= qx,
            0 <= qy,
            0 <= x,
            0 <= y,
            0 <= w,
    ;
    assert forall|j: int| 0 <= j < 4 implies #[trigger] pixel_at(c, cw, qx, qy)[j] == pixel_at(p, w, x + qx, y + qy)[j] by {
        let k = k0 + j;
        vstd::arithmetic::div_mod::lemma_fundamental_div_mod_converse(k, 4, qy * cw + qx, j);
        vstd::arithmetic::div_mod::lemma_fundamental_div_mod_converse(qy * cw + qx, cw, qy, qx);
        assert(c[k] == p[((y + (k / 4) / cw) * w + x + (k / 4) % cw) * 4 + k % 4]);
    }
    assert(pixel_at(c, cw, qx, qy) =~= pixel_at(p, w, x + qx, y + qy));
}

/// Lays the crop of the `w` by `h` RGBA source out on its square canvas.
pub fn square_master(pixels: &Vec<u8>, w: u32, h: u32, layout: SquareLayout) -> (r: Vec<u8>)
    requires
        pixels@.len() == (w as int) * (h as int) * 4,
        layout_fits(w, h, layout),
    ensures
        r@ == spec_square_master(pixels@, w, layout),
        r@.len() == (layout.side as int) * (layout.side as int) * 4,
        master_shape(r@, pixels@, w, layout),
{
    let crop = crop_rgba(pixels, w, h, layout.crop_x, layout.crop_y, layout.crop_w, layout.crop_h);
    let n = layout.side as usize * layout.side as usize * 4;
    let mut canvas = transparent_canvas(n);
    proof {
        assert(crop@.len() == (layout.crop_w as int) * (layout.crop_h as int) * 4);
    }
    let ghost before = canvas@;
    overlay_rgba(&mut canvas, layout.side, layout.side, &crop, layout.crop_w, layout.crop_h, layout.offset_x, layout.offset_y);
    proof {
        let side = layout.side as int;
        let l = layout;
        assert forall|px: int, py: int|
            0 <= px < side && 0 <= py < side && !in_pasted_box(px, py, l) implies #[trigger] pixel_at(canvas@, side, px, py)
                == clear_pixel() by {
            lemma_zeros_pixel(n as nat, side, px, py);
        }
        assert forall|px: int, py: int| in_pasted_box(px, py, l) implies {
            let s = pixel_at(pixels@, w as int, l.crop_x + px - l.offset_x, l.crop_y + py - l.offset_y);
            &&& s[3] == 0 ==> #[trigger] pixel_at(canvas@, side, px, py) == clear_pixel()
            &&& s[3] == 255 ==> pixel_at(canvas@, side, px, py) == s
        } by {
            let qx = px - l.offset_x;
            let qy = py - l.offset_y;
            assert(((l.crop_y + qy) * w + l.crop_x + qx) * 4 + 4 <= (w as int) * (h as int) * 4) by (nonlinear_arith)
                requires
                    0 <= qx < l.crop_w,
                    0 <= qy < l.crop_h,
                    l.crop_x + l.crop_w <= w,
                    l.crop_y + l.crop_h <= h,
            ;
            lemma_cropped_pixel(
                pixels@,
                w as int,
                l.crop_x as int,
                l.crop_y as int,
                l.crop_w as int,
                l.crop_h as int,
                qx,
                qy,
            );
            lemma_zeros_pixel(n as nat, side, px, py);
        }
    }
    canvas
}

/// What `image::imageops::resize` with the Lanczos3 filter makes of the `w`
/// by `h` RGBA image `pixels` at `size` by `size`.
pub uninterp spec fn lanczos3_resized(pixels: Seq<u8>, w: u32, h: u32, size: u32) -> Seq<u8>;

/// `image::imageops::resize` to `size` by `size` with `FilterType::Lanczos3`.
/// Claimed: the result holds `size` by `size` RGBA pixels, and is a copy of
/// the source when the size is unchanged. The resampled values, which the
/// crate computes in floating point, are named and not stated.
#[verifier::external_body]
fn resize_rgba(pixels: &Vec<u8>, w: u32, h: u32, size: u32) -> (r: Vec<u8>)
    requires
        pixels@.len() == (w as int) * (h as int) * 4,
        (size as int) * (size as int) * 4 <= usize::MAX,
    ensures
        r@ == lanczos3_resized(pixels@, w, h, size),
        r@.len() == (size as int) * (size as int) * 4,
        size == w && size == h ==> r@ == pixels@,
{
    let image = image::RgbaImage::from_raw(w, h, pixels.clone()).unwrap();
    image::imageops::resize(&image, size, size, image::imageops::FilterType::Lanczos3).into_raw()
}

/// The icon types of the `.icns` file, each with its logical size; the
/// `Retina` ones hold an image of twice that size.
#[derive(Debug, Clone, Copy, PartialEq, Eq, Structural)]
pub enum IcnsSlot {
    Rgba16,
    Rgba16Retina,
    Rgba32,
    Rgba32Retina,
    Rgba128,
    Rgba128Retina,
    Rgba256,
    Rgba256Retina,
    Rgba512,
    Rgba512Retina,
}

impl IcnsSlot {
    /// The side, in pixels, of the image the slot holds.
    pub open spec fn spec_pixel_size(self) -> u32 {
        match self {
            IcnsSlot::Rgba16 => 16,
            IcnsSlot::Rgba16Retina => 32,
            IcnsSlot::Rgba32 => 32,
            IcnsSlot::Rgba32Retina => 64,
            IcnsSlot::Rgba128 => 128,
            IcnsSlot::Rgba128Retina => 256,
            IcnsSlot::Rgba256 => 256,
            IcnsSlot::Rgba256Retina => 512,
            IcnsSlot::Rgba512 => 512,
            IcnsSlot::Rgba512Retina => 1024,
        }
    }

    /// The side, in pixels, of the image the slot holds.
    pub fn pixel_size(self) -> (r: u32)
        ensures
            r == self.spec_pixel_size(),
    {
        match self {
            IcnsSlot::Rgba16 => 16,
            IcnsSlot::Rgba16Retina => 32,
            IcnsSlot::Rgba32 => 32,
            IcnsSlot::Rgba32Retina => 64,
            IcnsSlot::Rgba128 => 128,
            IcnsSlot::Rgba128Retina => 256,
            IcnsSlot::Rgba256 => 256,
            IcnsSlot::Rgba256Retina => 512,
            IcnsSlot::Rgba512 => 512,
            IcnsSlot::Rgba512Retina => 1024,
        }
    }
}

/// The `.icns` slots written, in order.
pub const ICNS_SLOTS: [IcnsSlot; 10] = [
    IcnsSlot::Rgba16,
    IcnsSlot::Rgba16Retina,
    IcnsSlot::Rgba32,
    IcnsSlot::Rgba32Retina,
    IcnsSlot::Rgba128,
    IcnsSlot::Rgba128Retina,
    IcnsSlot::Rgba256,
    IcnsSlot::Rgba256Retina,
    IcnsSlot::Rgba512,
    IcnsSlot::Rgba512Retina,
];

/// An `.icns` icon family being assembled.
#[verifier::external_type_specification]
#[verifier::external_body]
pub struct ExIconFamily(icns::IconFamily);

/// The images added to the family, in order, each with its slot.
pub uninterp spec fn icns_images(family: icns::IconFamily) -> Seq<(IcnsSlot, Seq<u8>)>;

/// The `.icns` file that `icns::IconFamily::write` writes for a family of
/// these images.
pub uninterp spec fn icns_file(images: Seq<(IcnsSlot, Seq<u8>)>) -> Seq<u8>;

/// `icns::IconFamily::new`. Claimed: the family holds no image.
#[verifier::external_body]
fn icns_family_new() -> (r: icns::IconFamily)
    ensures
        icns_images(r) == Seq::<(IcnsSlot, Seq<u8>)>::empty(),
{
    icns::IconFamily::new()
}

/// `icns::Image::from_data` with RGBA pixels `size` by `size`, added by
/// `icns::IconFamily::add_icon_with_type` under the slot's icon type.
/// Claimed: on success the image was appended, its size is the slot's and
/// its length fits that size; on failure the family is unchanged (these
/// RGBA types carry no mask, so nothing is appended before the encoding).
/// It succeeds when the size is the slot's and the length fits it: then
/// `from_data` accepts the data, `encode_image_with_type` accepts the
/// dimensions, and the PNG it writes goes into a `Vec` with a valid header
/// and exactly the image's bytes. The crate computes the data length in
/// 32-bit arithmetic, which the size bound keeps from overflowing.
#[verifier::external_body]
fn icns_add_image(family: &mut icns::IconFamily, slot: IcnsSlot, size: u32, rgba: Vec<u8>) -> (r: Result<(), std::io::Error>)
    requires
        (size as int) * (size as int) * 32 + 7 <= u32::MAX,
    ensures
        r is Ok ==> icns_images(*final(family)) == icns_images(*old(family)).push((slot, rgba@)),
        r is Ok ==> size == slot.spec_pixel_size() && rgba@.len() == (size as int) * (size as int) * 4,
        size == slot.spec_pixel_size() && rgba@.len() == (size as int) * (size as int) * 4 ==> r is Ok,
        r is Err ==> icns_images(*final(family)) == icns_images(*old(family)),
{
    let icon_type = match slot {
        IcnsSlot::Rgba16 => icns::IconType::RGBA32_16x16,
        IcnsSlot::Rgba16Retina => icns::IconType::RGBA32_16x16_2x,
        IcnsSlot::Rgba32 => icns::IconType::RGBA32_32x32,
        IcnsSlot::Rgba32Retina => icns::IconType::RGBA32_32x32_2x,
        IcnsSlot::Rgba128 => icns::IconType::RGBA32_128x128,
        IcnsSlot::Rgba128Retina => icns::IconType::RGBA32_128x128_2x,
        IcnsSlot::Rgba256 => icns::IconType::RGBA32_256x256,
        IcnsSlot::Rgba256Retina => icns::IconType::RGBA32_256x256_2x,
        IcnsSlot::Rgba512 => icns::IconType::RGBA32_512x512,
        IcnsSlot::Rgba512Retina => icns::IconType::RGBA32_512x512_2x,
    };
    let image = icns::Image::from_data(icns::PixelFormat::RGBA, size, size, rgba)?;
    family.add_icon_with_type(&image, icon_type)
}

/// `icns::IconFamily::write` into memory. Claimed: what it writes is the
/// `.icns` file of the family's images, and it succeeds, since its only
/// errors are those of the writer and writing into a `Vec` does not fail.
#[verifier::external_body]
fn icns_bytes(family: &icns::IconFamily) -> (r: Result<Vec<u8>, std::io::Error>)
    ensures
        r is Ok,
        r matches Ok(b) ==> b@ == icns_file(icns_images(*family)),
{
    let mut out = Vec::new();
    family.write(&mut out)?;
    Ok(out)
}

/// An `.ico` directory being assembled.
#[verifier::external_type_specification]
#[verifier::external_body]
pub struct ExIconDir(ico::IconDir);

/// The images added to the directory, in order, each with its side.
pub uninterp spec fn ico_images(dir: ico::IconDir) -> Seq<(u32, Seq<u8>)>;

/// Whether the directory was made for icons (not cursors).
pub uninterp spec fn ico_holds_icons(dir: ico::IconDir) -> bool;

/// The `.ico` file that `ico::IconDir::write` writes for an icon directory
/// (not a cursor directory) of these images.
pub uninterp spec fn ico_file(images: Seq<(u32, Seq<u8>)>) -> Seq<u8>;

/// `ico::IconDir::new(ResourceType::Icon)`. Claimed: an icon directory
/// holding no image.
#[verifier::external_body]
fn ico_dir_new() -> (r: ico::IconDir)
    ensures
        ico_images(r) == Seq::<(u32, Seq<u8>)>::empty(),
        ico_holds_icons(r),
{
    ico::IconDir::new(ico::ResourceType::Icon)
}

/// `ico::IconImage::from_rgba_data` with RGBA pixels `size` by `size`,
/// encoded by `ico::IconDirEntry::encode` and added by
/// `ico::IconDir::add_entry`. Claimed: on success the image was appended,
/// on failure the directory is unchanged. The image has no cursor hotspot,
/// so its entry is an icon, as the directory needs. It succeeds: the entry
/// is encoded as BMP or PNG into a `Vec`, whose writes do not fail, and the
/// PNG header and data are valid for a side of 1 to 256 and this length. Sides go up to 256,
/// the largest an `.ico` entry records.
#[verifier::external_body]
fn ico_add_image(dir: &mut ico::IconDir, size: u32, rgba: Vec<u8>) -> (r: Result<(), std::io::Error>)
    requires
        ico_holds_icons(*old(dir)),
        1 <= size <= 256,
        rgba@.len() == (size as int) * (size as int) * 4,
    ensures
        ico_holds_icons(*final(dir)),
        r is Ok,
        ico_images(*final(dir)) == ico_images(*old(dir)).push((size, rgba@)),
{
    let image = ico::IconImage::from_rgba_data(size, size, rgba);
    let entry = ico::IconDirEntry::encode(&image)?;
    dir.add_entry(entry);
    Ok(())
}

/// `ico::IconDir::write` into memory, for an icon directory of at most 16
/// images of sides 1 to 256. Claimed: what it writes is the `.ico` file of
/// the directory's images (the header's resource type is the icon type, and
/// each entry's planes and bit count are those of an icon), and it
/// succeeds: the count fits its 16-bit field, the data offsets, added in
/// 32-bit arithmetic, stay far below overflow for so few entries of at most
/// 256 by 256 pixels, and writing into a `Vec` does not fail.
#[verifier::external_body]
fn ico_bytes(dir: &ico::IconDir) -> (r: Result<Vec<u8>, std::io::Error>)
    requires
        ico_holds_icons(*dir),
        ico_images(*dir).len() <= 16,
        forall|i: int| 0 <= i < ico_images(*dir).len() ==> 1 <= #[trigger] ico_images(*dir)[i].0 <= 256,
    ensures
        r is Ok,
        r matches Ok(b) ==> b@ == ico_file(ico_images(*dir)),
{
    let mut out = Vec::new();
    dir.write(&mut out)?;
    Ok(out)
}

/// The images of the `.icns` file: the master resampled to each slot's size.
pub open spec fn icns_set(master: Seq<u8>, side: u32) -> Seq<(IcnsSlot, Seq<u8>)> {
    Seq::new(
        10,
        |i: int| (ICNS_SLOTS@[i], lanczos3_resized(master, side, side, ICNS_SLOTS@[i].spec_pixel_size())),
    )
}

/// The images of the `.ico` file: the master resampled to each of its sizes.
pub open spec fn ico_set(master: Seq<u8>, side: u32) -> Seq<(u32, Seq<u8>)> {
    Seq::new(7, |i: int| (ICO_SIZES@[i], lanczos3_resized(master, side, side, ICO_SIZES@[i])))
}

/// The two icon files and the side of the square master they were made from.
#[derive(Debug, Clone)]
pub struct IconFiles {
    pub side: u32,
    pub icns: Vec<u8>,
    pub ico: Vec<u8>,
}

/// Why the icon files could not be made.
#[derive(Debug, Clone)]
pub enum IconFileError {
    /// The source has nothing visible once cleaned.
    Clean(IconError),
    /// The source file is not a PNG image that decodes.
    Decode,
    /// The square canvas of the decoded image would not fit in memory.
    TooLarge,
}

impl IconFileError {
    /// The message reported for this error.
    pub fn message(&self) -> (s: String)
        ensures
            self matches IconFileError::Clean(_) ==> s@ == "source image is fully transparent after cleanup"@,
            self matches IconFileError::Decode ==> s@ == "source image could not be decoded as PNG"@,
            self matches IconFileError::TooLarge ==> s@ == "source image is too large for a square canvas"@,
    {
        match self {
            IconFileError::Clean(e) => e.message(),
            IconFileError::Decode => String::from_str("source image could not be decoded as PNG"),
            IconFileError::TooLarge => String::from_str("source image is too large for a square canvas"),
        }
    }
}

/// Every square canvas that the cleaned `w` by `h` source can need fits in
/// memory.
pub open spec fn canvas_fits(p: Seq<u8>, w: u32, h: u32) -> bool {
    forall|b: PixelBounds|
        #[trigger] tight_box(keyed_out(p), w as int, b, 0, h as int) ==> {
            let side = spec_square_layout(b).side as int;
            side * side * 4 <= usize::MAX
        }
}

/// The `.icns` file of the master.
fn encode_icns(master: &Vec<u8>, side: u32) -> (r: Vec<u8>)
    requires
        master@.len() == (side as int) * (side as int) * 4,
    ensures
        r@ == icns_file(icns_set(master@, side)),
{
    let mut family = icns_family_new();
    let mut i: usize = 0;
    while i < 10
        invariant
            i <= 10,
            master@.len() == (side as int) * (side as int) * 4,
            icns_images(family) == icns_set(master@, side).take(i as int),
        decreases 10 - i,
    {
        let slot = ICNS_SLOTS[i];
        let size = slot.pixel_size();
        let resized = resize_rgba(master, side, side, size);
        icns_add_image(&mut family, slot, size, resized).unwrap();
        proof {
            assert(icns_images(family) =~= icns_set(master@, side).take(i + 1));
        }
        i += 1;
    }
    proof {
        assert(icns_set(master@, side).take(10) =~= icns_set(master@, side));
    }
    icns_bytes(&family).unwrap()
}

/// The `.ico` file of the master.
fn encode_ico(master: &Vec<u8>, side: u32) -> (r: Vec<u8>)
    requires
        master@.len() == (side as int) * (side as int) * 4,
    ensures
        r@ == ico_file(ico_set(master@, side)),
{
    let mut dir = ico_dir_new();
    let mut i: usize = 0;
    while i < 7
        invariant
            i <= 7,
            master@.len() == (side as int) * (side as int) * 4,
            ico_holds_icons(dir),
            ico_images(dir) == ico_set(master@, side).take(i as int),
        decreases 7 - i,
    {
        let size = ICO_SIZES[i];
        assert(1 <= size <= 256);
        assert((size as int) * (size as int) * 4 <= usize::MAX) by (nonlinear_arith)
            requires
                size <= 256,
        ;
        let resized = resize_rgba(master, side, side, size);
        ico_add_image(&mut dir, size, resized).unwrap();
        proof {
            assert(ico_images(dir) =~= ico_set(master@, side).take(i + 1));
        }
        i += 1;
    }
    proof {
        assert(ico_set(master@, side).take(7) =~= ico_set(master@, side));
    }
    ico_bytes(&dir).unwrap()
}

/// What making the icon files of the `w` by `h` RGBA source `p` gives:
/// when something stays visible once near-white is keyed out, the files of
/// the square master laid out around its tight box (transparent outside
/// the pasted crop), resampled to each size; otherwise the error that the
/// source is fully transparent.
pub open spec fn icon_files_outcome(r: Result<IconFiles, IconFileError>, p: Seq<u8>, w: u32, h: u32) -> bool {
    &&& r is Ok <==> !none_visible(keyed_out(p), w as int, 0, h as int)
    &&& match r {
        Ok(f) => exists|b: PixelBounds|
            {
                let l = spec_square_layout(b);
                let master = spec_square_master(keyed_out(p), w, l);
                &&& #[trigger] tight_box(keyed_out(p), w as int, b, 0, h as int)
                &&& f.side == l.side
                &&& master_shape(master, keyed_out(p), w, l)
                &&& f.icns@ == icns_file(icns_set(master, l.side))
                &&& f.ico@ == ico_file(ico_set(master, l.side))
            },
        Err(e) => e == IconFileError::Clean(IconError::FullyTransparent),
    }
}

/// Makes the `.icns` and `.ico` files from the `w` by `h` RGBA source:
/// near-white keyed out, the visible part cropped and centred on a square
/// canvas, resampled to each size and encoded.
pub fn icon_files(pixels: Vec<u8>, w: u32, h: u32) -> (r: Result<IconFiles, IconFileError>)
    requires
        pixels@.len() == (w as int) * (h as int) * 4,
        canvas_fits(pixels@, w, h),
    ensures
        icon_files_outcome(r, pixels@, w, h),
{
    let mut pixels = pixels;
    let ghost source = pixels@;
    let layout = match clean_icon(&mut pixels, w, h) {
        Ok(l) => l,
        Err(e) => {
            proof {
                assert(e == IconError::FullyTransparent);
            }
            return Err(IconFileError::Clean(e));
        },
    };
    let ghost b = choose|b: PixelBounds|
        tight_box(pixels@, w as int, b, 0, h as int) && layout == spec_square_layout(b);
    proof {
        assert(tight_box(keyed_out(source), w as int, b, 0, h as int));
        let (x0, y0) = choose|x: int, y: int|
            in_region(x, y, w as int, 0, h as int) && #[trigger] opaque_at(pixels@, w as int, x, y) && x == b.min_x;
        assert(!none_visible(pixels@, w as int, 0, h as int));
    }
    let master = square_master(&pixels, w, h, layout);
    let icns = encode_icns(&master, layout.side);
    let ico = encode_ico(&master, layout.side);
    Ok(IconFiles { side: layout.side, icns, ico })
}

/// What the `image` crate decodes the PNG file `bytes` to: its RGBA 8-bit
/// pixels row by row, its width and its height; `None` when it refuses them.
pub uninterp spec fn decoded_rgba8(bytes: Seq<u8>) -> Option<(Seq<u8>, u32, u32)>;

/// `image::load_from_memory_with_format(bytes, ImageFormat::Png)` converted
/// with `to_rgba8`, then taken apart by `dimensions` and `into_raw`.
/// Claimed: the result is a function of the bytes, and the pixel buffer of
/// an RGBA image holds four bytes for each of its width times height
/// pixels.
#[verifier::external_body]
fn decode_rgba8(bytes: &[u8]) -> (r: Option<(Vec<u8>, u32, u32)>)
    ensures
        match r {
            Some((p, w, h)) => decoded_rgba8(bytes@) == Some((p@, w, h)),
            None => decoded_rgba8(bytes@) is None,
        },
        r matches Some((p, w, h)) ==> p@.len() == (w as int) * (h as int) * 4,
{
    match image::load_from_memory_with_format(bytes, image::ImageFormat::Png) {
        Ok(image) => {
            let rgba = image.to_rgba8();
            let (w, h) = rgba.dimensions();
            Some((rgba.into_raw(), w, h))
        },
        Err(_) => None,
    }
}

/// The longer edge of a `w` by `h` image, squared, fits in memory as RGBA.
pub open spec fn longest_fits(w: u32, h: u32) -> bool {
    let longest: int = if w >= h { w as int } else { h as int };
    longest * longest * 4 <= usize::MAX
}

/// A square canvas no longer than the image's longer edge fits when that
/// edge does.
proof fn lemma_longest_fits_canvas(p: Seq<u8>, w: u32, h: u32)
    requires
        longest_fits(w, h),
    ensures
        canvas_fits(p, w, h),
{
    assert forall|b: PixelBounds| #[trigger] tight_box(keyed_out(p), w as int, b, 0, h as int) implies {
        let side = spec_square_layout(b).side as int;
        side * side * 4 <= usize::MAX
    } by {
        let q = keyed_out(p);
        let (x1, y1) = choose|x: int, y: int|
            in_region(x, y, w as int, 0, h as int) && #[trigger] opaque_at(q, w as int, x, y) && x == b.max_x;
        let (x2, y2) = choose|x: int, y: int|
            in_region(x, y, w as int, 0, h as int) && #[trigger] opaque_at(q, w as int, x, y) && y == b.max_y;
        assert(b.min_x <= x1 && b.min_y <= y2);
        let cw = b.max_x + 1 - b.min_x;
        let ch = b.max_y + 1 - b.min_y;
        let longest: int = if w >= h { w as int } else { h as int };
        let side: int = if cw >= ch { cw } else { ch };
        assert(0 < side <= longest);
        assert(side * side <= longest * longest) by (nonlinear_arith)
            requires
                0 < side <= longest,
        ;
        assert(spec_square_layout(b).side as int == side);
    }
}

/// Makes the `.icns` and `.ico` files from the PNG file `bytes`: decoded
/// to RGBA, then as `icon_files` does. A source that does not decode, or
/// whose longer edge squared would not fit in memory, gives an error.
pub fn icon_files_from_source(bytes: &[u8]) -> (r: Result<IconFiles, IconFileError>)
    ensures
        match decoded_rgba8(bytes@) {
            None => r == Err::<IconFiles, IconFileError>(IconFileError::Decode),
            Some((p, w, h)) => if longest_fits(w, h) {
                icon_files_outcome(r, p, w, h)
            } else {
                r == Err::<IconFiles, IconFileError>(IconFileError::TooLarge)
            },
        },
{
    match decode_rgba8(bytes) {
        None => Err(IconFileError::Decode),
        Some((pixels, w, h)) => {
            let longest: u128 = if w >= h {
                w as u128
            } else {
                h as u128
            };
            assert(longest * longest * 4 <= u128::MAX) by (nonlinear_arith)
                requires
                    longest <= u32::MAX,
            ;
            if longest * longest * 4 > usize::MAX as u128 {
                return Err(IconFileError::TooLarge);
            }
            proof {
                lemma_longest_fits_canvas(pixels@, w, h);
            }
            icon_files(pixels, w, h)
        },
    }
}

} // verus!
