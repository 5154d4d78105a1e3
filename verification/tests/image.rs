use tilecap::image::{bgrx_to_rgb, encode_png, frame_to_image, root_image_to_rgb, EncodeError, ImageData, PixelFormat};

#[test]
fn bgrx_rows_and_padding() {
    // Two rows of two 4-byte pixels, rows 10 bytes apart (2 bytes of padding).
    let data = [1, 2, 3, 0, 4, 5, 6, 0, 9, 9, 7, 8, 9, 0, 10, 11, 12, 0, 9, 9];
    assert_eq!(bgrx_to_rgb(&data, 2, 2, 10, 4), vec![3, 2, 1, 6, 5, 4, 9, 8, 7, 12, 11, 10]);
}

#[test]
fn bgrx_skips_pixels_past_the_end() {
    let data = [1, 2, 3, 0, 4, 5];
    assert_eq!(bgrx_to_rgb(&data, 2, 1, 8, 4), vec![3, 2, 1]);
    assert_eq!(bgrx_to_rgb(&data, 2, 2, usize::MAX, 4), vec![3, 2, 1]);
    assert_eq!(bgrx_to_rgb(&[], 3, 3, 9, 3), Vec::<u8>::new());
}

#[test]
fn x11_reply_conversion() {
    // 2 x 1 area, 4 bytes per pixel inferred from the reply's length.
    let img = root_image_to_rgb(&[10, 20, 30, 255, 40, 50, 60, 255], 2, 1);
    assert_eq!((img.width, img.height), (2, 1));
    assert_eq!(img.data, vec![30, 20, 10, 60, 50, 40]);
    // 3 bytes per pixel.
    let img = root_image_to_rgb(&[1, 2, 3, 4, 5, 6], 2, 1);
    assert_eq!(img.data, vec![3, 2, 1, 6, 5, 4]);
    // An empty area.
    let img = root_image_to_rgb(&[1, 2, 3, 4], 0, 5);
    assert_eq!(img.data, Vec::<u8>::new());
}

#[test]
fn wayland_frame_conversion() {
    let mem = [1, 2, 3, 4, 5, 6, 7, 8];
    let img = frame_to_image(&mem, 1, 2, 4, PixelFormat::Xrgb8888);
    assert_eq!(img.data, vec![3, 2, 1, 7, 6, 5]);
    let img = frame_to_image(&mem, 2, 1, 8, PixelFormat::Rgb888);
    assert_eq!(img.data, vec![3, 2, 1, 6, 5, 4]);
    assert_eq!(PixelFormat::Argb8888.bytes_per_pixel(), 4);
    assert_eq!(PixelFormat::Other.bytes_per_pixel(), 4);
}

#[test]
fn png_encoding() {
    let img = ImageData { data: vec![255, 0, 0, 0, 255, 0], width: 2, height: 1 };
    let png = encode_png(&img).unwrap();
    assert_eq!(&png[..8], &[137, 80, 78, 71, 13, 10, 26, 10]);
    assert!(png.len() > 8 + 25);
    // Same input, same file.
    assert_eq!(encode_png(&img).unwrap(), png);
}

#[test]
fn png_refusals() {
    let short = ImageData { data: vec![0; 5], width: 2, height: 1 };
    assert!(matches!(encode_png(&short), Err(EncodeError::BufferSize)));
    let empty = ImageData { data: vec![], width: 0, height: 4 };
    assert!(matches!(encode_png(&empty), Err(EncodeError::Png(_))));
}
