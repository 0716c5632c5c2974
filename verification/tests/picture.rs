use termshell::picture::{can_resample_sizes, load_picture, needs_downscale, resize_image, Pixels};

#[test]
fn downscale_only_when_larger_than_the_window() {
    assert!(needs_downscale(200, 50, 100, 100));
    assert!(needs_downscale(50, 200, 100, 100));
    assert!(!needs_downscale(100, 100, 100, 100));
    assert!(!needs_downscale(10, 10, 100, 100));
}

#[test]
fn resize_changes_the_size() {
    let image = Pixels { width: 2, height: 2, data: vec![200; 16] };
    let small = resize_image(image, 1, 1);
    assert_eq!((small.width, small.height), (1, 1));
    assert_eq!(small.data.len(), 4);
    assert_eq!(small.data, vec![200, 200, 200, 200]);
}

#[test]
fn resize_to_the_same_size_keeps_the_pixels() {
    let data: Vec<u8> = (0..24).collect();
    let image = Pixels { width: 3, height: 2, data: data.clone() };
    let same = resize_image(image, 3, 2);
    assert_eq!(same.data, data);
}

#[test]
fn resize_of_an_empty_side() {
    let image = Pixels { width: 0, height: 5, data: vec![] };
    let r = resize_image(image, 0, 2);
    assert_eq!((r.width, r.height), (0, 2));
    assert!(r.data.is_empty());
}

#[test]
fn load_picture_decodes_by_extension() {
    // A 1x1 PNG, one opaque red pixel, written by the `image` crate itself.
    let mut png: Vec<u8> = Vec::new();
    let red = image::RgbaImage::from_raw(1, 1, vec![255, 0, 0, 255]).unwrap();
    red.write_to(&mut std::io::Cursor::new(&mut png), image::ImageFormat::Png).unwrap();
    let p = load_picture(&png, "/home/bob/red.png").unwrap();
    assert_eq!((p.width, p.height), (1, 1));
    assert_eq!(p.data, vec![255, 0, 0, 255]);
    assert!(load_picture(&png, "/home/bob/red").is_none());
    assert!(load_picture(&[1, 2, 3], "/home/bob/bad.png").is_none());
}

#[test]
fn resize_to_an_empty_height() {
    let image = Pixels { width: 0, height: 3, data: vec![] };
    let r = resize_image(image, 4, 0);
    assert_eq!((r.width, r.height), (4, 0));
    assert!(r.data.is_empty());
}

#[test]
fn can_resample_sizes_cases() {
    assert!(can_resample_sizes(2, 2, 1, 1));
    assert!(can_resample_sizes(0, 3, 0, 2));
    assert!(can_resample_sizes(0, 3, 4, 0));
    assert!(!can_resample_sizes(0, 3, 4, 2));
    assert!(!can_resample_sizes(3, 0, 2, 2));
    assert!(!can_resample_sizes(3, 0, 0, 2));
    assert!(can_resample_sizes(5, 5, 5, 5));
    assert!(!can_resample_sizes(1, 1, u32::MAX, u32::MAX));
}

#[test]
fn load_picture_succeeds_on_what_decodes() {
    let mut gif: Vec<u8> = Vec::new();
    let px = image::RgbaImage::from_raw(2, 1, vec![0, 0, 255, 255, 0, 255, 0, 255]).unwrap();
    px.write_to(&mut std::io::Cursor::new(&mut gif), image::ImageFormat::Gif).unwrap();
    let p = load_picture(&gif, "two.gif").unwrap();
    assert_eq!((p.width, p.height), (2, 1));
    assert_eq!(p.data.len(), 8);
    assert!(load_picture(&gif, "two.png").is_none());
    assert!(load_picture(&[], "empty.png").is_none());
}
