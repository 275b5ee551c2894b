use sprite_backend::export::rasterize;
use sprite_backend::scale::scale_nearest;
use sprite_backend::sprite::Sprite;

#[test]
fn from_pixels_accepts_matching_buffer() {
    let s = Sprite::from_pixels(1, 1, vec![10, 20, 30, 40]).unwrap();
    assert_eq!(s.width, 1);
    assert_eq!(s.height, 1);
    assert_eq!(s.pixels, vec![10, 20, 30, 40]);
}

#[test]
fn from_pixels_rejects_short_buffer() {
    assert!(Sprite::from_pixels(1, 1, vec![10, 20, 30]).is_none());
}

#[test]
fn from_pixels_truncates_long_buffer() {
    let s = Sprite::from_pixels(1, 1, vec![1, 2, 3, 4, 5, 6, 7, 8]).unwrap();
    assert_eq!(s.pixels, vec![1, 2, 3, 4]);
}

#[test]
fn from_pixels_accepts_empty_sprite() {
    let s = Sprite::from_pixels(0, 5, vec![]).unwrap();
    assert_eq!(s.pixels.len(), 0);
    assert_eq!(s.height, 5);
}

#[test]
fn scale_doubles_a_single_pixel() {
    let s = Sprite::from_pixels(1, 1, vec![10, 20, 30, 40]).unwrap();
    let r = scale_nearest(&s, 2);
    assert_eq!(r.width, 2);
    assert_eq!(r.height, 2);
    assert_eq!(
        r.pixels,
        vec![10, 20, 30, 40, 10, 20, 30, 40, 10, 20, 30, 40, 10, 20, 30, 40]
    );
}

#[test]
fn scale_replicates_blocks_in_a_row() {
    // two pixels side by side: a and b
    let a = [1, 2, 3, 4];
    let b = [5, 6, 7, 8];
    let mut buf = Vec::new();
    buf.extend_from_slice(&a);
    buf.extend_from_slice(&b);
    let s = Sprite::from_pixels(2, 1, buf).unwrap();
    let r = scale_nearest(&s, 2);
    assert_eq!(r.width, 4);
    assert_eq!(r.height, 2);
    let mut row = Vec::new();
    row.extend_from_slice(&a);
    row.extend_from_slice(&a);
    row.extend_from_slice(&b);
    row.extend_from_slice(&b);
    let mut want = row.clone();
    want.extend_from_slice(&row);
    assert_eq!(r.pixels, want);
}

#[test]
fn scale_by_one_keeps_the_buffer() {
    let s = Sprite::from_pixels(2, 2, (0..16).collect()).unwrap();
    let r = scale_nearest(&s, 1);
    assert_eq!(r.width, 2);
    assert_eq!(r.height, 2);
    assert_eq!(r.pixels, (0..16).collect::<Vec<u8>>());
}

#[test]
fn rasterize_upscales_with_factor_above_one() {
    let img = rasterize(1, 2, 3, vec![9, 9, 9, 9, 7, 7, 7, 7]).unwrap();
    assert_eq!(img.width, 3);
    assert_eq!(img.height, 6);
    let mut want = vec![9u8; 4 * 9];
    want.extend_from_slice(&[7; 4 * 9]);
    assert_eq!(img.pixels, want);
}

#[test]
fn rasterize_keeps_size_with_factor_one() {
    let img = rasterize(2, 1, 1, vec![1, 2, 3, 4, 5, 6, 7, 8]).unwrap();
    assert_eq!(img.width, 2);
    assert_eq!(img.height, 1);
    assert_eq!(img.pixels, vec![1, 2, 3, 4, 5, 6, 7, 8]);
}

#[test]
fn rasterize_keeps_size_with_factor_zero() {
    let img = rasterize(1, 1, 0, vec![1, 2, 3, 4]).unwrap();
    assert_eq!(img.width, 1);
    assert_eq!(img.height, 1);
    assert_eq!(img.pixels, vec![1, 2, 3, 4]);
}

#[test]
fn rasterize_ignores_extra_bytes() {
    let img = rasterize(1, 1, 1, vec![1, 2, 3, 4, 9, 9]).unwrap();
    assert_eq!(img.pixels, vec![1, 2, 3, 4]);
}

#[test]
fn rasterize_ignores_extra_bytes_when_scaling() {
    let img = rasterize(1, 1, 2, vec![5, 6, 7, 8, 0]).unwrap();
    assert_eq!(img.width, 2);
    assert_eq!(img.height, 2);
    assert_eq!(img.pixels, vec![5, 6, 7, 8, 5, 6, 7, 8, 5, 6, 7, 8, 5, 6, 7, 8]);
}

#[test]
fn rasterize_rejects_short_buffer() {
    let err = rasterize(2, 2, 1, vec![1, 2, 3, 4]).unwrap_err();
    assert_eq!(err, "Failed to create original image buffer from pixels");
}

#[test]
fn rasterize_rejects_empty_buffer_for_nonempty_sprite() {
    let err = rasterize(1, 1, 5, vec![]).unwrap_err();
    assert_eq!(err, "Failed to create original image buffer from pixels");
}
