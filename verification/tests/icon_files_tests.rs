use garlemald_client::icon::{clean_icon, IconError};
use garlemald_client::icon_files::{icon_files, icon_files_from_source, square_master, IcnsSlot, IconFileError, ICNS_SLOTS};

const RED: [u8; 4] = [200, 10, 10, 255];
const BLUE: [u8; 4] = [10, 10, 200, 255];
const WHITE: [u8; 4] = [250, 250, 250, 255];

fn image(w: u32, h: u32, colored: &[((u32, u32), [u8; 4])]) -> Vec<u8> {
    let mut p = Vec::new();
    for y in 0..h {
        for x in 0..w {
            match colored.iter().find(|(at, _)| *at == (x, y)) {
                Some((_, c)) => p.extend_from_slice(c),
                None => p.extend_from_slice(&WHITE),
            }
        }
    }
    p
}

#[test]
fn tall_crop_is_centred_on_its_square() {
    let mut p = image(4, 3, &[((1, 0), RED), ((1, 2), BLUE)]);
    let layout = clean_icon(&mut p, 4, 3).unwrap();
    assert_eq!((layout.crop_w, layout.crop_h, layout.side, layout.offset_x, layout.offset_y), (1, 3, 3, 1, 0));
    let master = square_master(&p, 4, 3, layout);
    let mut expected = vec![0u8; 3 * 3 * 4];
    expected[4..8].copy_from_slice(&RED);
    expected[(2 * 3 + 1) * 4..(2 * 3 + 1) * 4 + 4].copy_from_slice(&BLUE);
    assert_eq!(master, expected);
}

#[test]
fn wide_crop_keeps_its_rows() {
    let mut p = image(5, 4, &[((1, 1), RED), ((3, 1), BLUE), ((2, 2), RED)]);
    let layout = clean_icon(&mut p, 5, 4).unwrap();
    assert_eq!((layout.crop_x, layout.crop_y, layout.crop_w, layout.crop_h), (1, 1, 3, 2));
    assert_eq!((layout.side, layout.offset_x, layout.offset_y), (3, 0, 0));
    let master = square_master(&p, 5, 4, layout);
    let mut expected = vec![0u8; 3 * 3 * 4];
    expected[0..4].copy_from_slice(&RED);
    expected[8..12].copy_from_slice(&BLUE);
    expected[(3 + 1) * 4..(3 + 1) * 4 + 4].copy_from_slice(&RED);
    assert_eq!(master, expected);
}

#[test]
fn icon_files_hold_every_size() {
    let p = image(6, 6, &[((2, 2), RED), ((3, 3), BLUE), ((2, 3), RED)]);
    let files = icon_files(p, 6, 6).unwrap();
    assert_eq!(files.side, 2);
    // ICO header: reserved, type 1 (icon), seven images.
    assert_eq!(&files.ico[0..6], &[0, 0, 1, 0, 7, 0]);
    // The first directory entry is the 16 by 16 image.
    assert_eq!((files.ico[6], files.ico[7]), (16, 16));
    // The 256 by 256 image is written with a zero width and height byte.
    let last = 6 + 16 * 6;
    assert_eq!((files.ico[last], files.ico[last + 1]), (0, 0));
    // ICNS header: magic, then the file's length, big-endian.
    assert_eq!(&files.icns[0..4], b"icns");
    let len = u32::from_be_bytes([files.icns[4], files.icns[5], files.icns[6], files.icns[7]]);
    assert_eq!(len as usize, files.icns.len());
    // The first element is the 16 by 16 RGBA icon.
    assert_eq!(&files.icns[8..12], b"icp4");
}

#[test]
fn icns_slots_in_order() {
    let sizes: Vec<u32> = ICNS_SLOTS.iter().map(|s| s.pixel_size()).collect();
    assert_eq!(sizes, vec![16, 32, 32, 64, 128, 256, 256, 512, 512, 1024]);
    assert_eq!(ICNS_SLOTS[1], IcnsSlot::Rgba16Retina);
}

#[test]
fn an_all_white_source_gives_no_files() {
    let p = image(2, 2, &[]);
    match icon_files(p, 2, 2) {
        Err(IconFileError::Clean(e)) => assert_eq!(e, IconError::FullyTransparent),
        other => panic!("unexpected result: {:?}", other.map(|f| f.side)),
    }
    let err = icon_files(image(1, 1, &[]), 1, 1).unwrap_err();
    assert_eq!(err.message(), "source image is fully transparent after cleanup");
}

fn png_bytes(w: u32, h: u32, pixels: &[u8]) -> Vec<u8> {
    let img = image::RgbaImage::from_raw(w, h, pixels.to_vec()).unwrap();
    let mut out = std::io::Cursor::new(Vec::new());
    img.write_to(&mut out, image::ImageFormat::Png).unwrap();
    out.into_inner()
}

#[test]
fn files_from_a_png_source_match_files_from_its_pixels() {
    let p = image(6, 6, &[((2, 2), RED), ((3, 3), BLUE), ((2, 3), RED)]);
    let from_pixels = icon_files(p.clone(), 6, 6).unwrap();
    let from_source = icon_files_from_source(&png_bytes(6, 6, &p)).unwrap();
    assert_eq!(from_source.side, from_pixels.side);
    assert_eq!(from_source.icns, from_pixels.icns);
    assert_eq!(from_source.ico, from_pixels.ico);
}

#[test]
fn a_source_that_is_not_png_is_refused() {
    match icon_files_from_source(b"not a png file") {
        Err(IconFileError::Decode) => {}
        other => panic!("unexpected result: {:?}", other.map(|f| f.side)),
    }
    assert_eq!(IconFileError::Decode.message(), "source image could not be decoded as PNG");
    let white = image(3, 2, &[]);
    match icon_files_from_source(&png_bytes(3, 2, &white)) {
        Err(IconFileError::Clean(e)) => assert_eq!(e, IconError::FullyTransparent),
        other => panic!("unexpected result: {:?}", other.map(|f| f.side)),
    }
}
