use garlemald_client::icon::{clean_icon, key_out_white, opaque_bounds, square_layout, IconError, PixelBounds, ICO_SIZES};

fn image(w: u32, h: u32, colored: &[(u32, u32)]) -> Vec<u8> {
    let mut p = Vec::new();
    for y in 0..h {
        for x in 0..w {
            if colored.contains(&(x, y)) {
                p.extend_from_slice(&[200, 10, 10, 255]);
            } else {
                p.extend_from_slice(&[250, 250, 250, 255]);
            }
        }
    }
    p
}

#[test]
fn near_white_becomes_transparent() {
    let mut p = vec![240, 240, 240, 255, 239, 255, 255, 255];
    key_out_white(&mut p);
    assert_eq!(p, vec![0, 0, 0, 0, 239, 255, 255, 255]);
}

#[test]
fn bounds_of_the_visible_part() {
    let mut p = image(5, 4, &[(1, 1), (3, 2)]);
    key_out_white(&mut p);
    assert_eq!(opaque_bounds(&p, 5, 4), Some(PixelBounds { min_x: 1, min_y: 1, max_x: 3, max_y: 2 }));
}

#[test]
fn crop_is_centred_on_a_square() {
    let layout = square_layout(PixelBounds { min_x: 1, min_y: 1, max_x: 3, max_y: 2 });
    assert_eq!((layout.crop_w, layout.crop_h, layout.side), (3, 2, 3));
    assert_eq!((layout.offset_x, layout.offset_y), (0, 0));
    let layout = square_layout(PixelBounds { min_x: 0, min_y: 0, max_x: 0, max_y: 4 });
    assert_eq!((layout.side, layout.offset_x, layout.offset_y), (5, 2, 0));
}

#[test]
fn an_all_white_source_is_refused() {
    let mut p = image(3, 3, &[]);
    let err = clean_icon(&mut p, 3, 3).unwrap_err();
    assert_eq!(err, IconError::FullyTransparent);
    assert_eq!(err.message(), "source image is fully transparent after cleanup");
    let mut p = image(3, 3, &[(2, 0)]);
    let layout = clean_icon(&mut p, 3, 3).unwrap();
    assert_eq!((layout.crop_x, layout.crop_y, layout.side), (2, 0, 1));
    assert_eq!(ICO_SIZES.len(), 7);
}
