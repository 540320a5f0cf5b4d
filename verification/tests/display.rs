use kiosk::display::{
    convert_frame_16, convert_frame_32, frame_layout, pack_pixel_16, pack_pixel_32,
    put_image_chunks,
};

#[test]
fn pixels_32() {
    assert_eq!(pack_pixel_32(0x00112233, 16, 8, 0), 0x00112233);
    assert_eq!(pack_pixel_32(0x00112233, 0, 8, 16), 0x00332211);
    assert_eq!(pack_pixel_32(0xFF112233, 16, 8, 0), 0x00112233);
    let out = convert_frame_32(&[0x00FF0000, 0x000000FF, 7], 2, 1, 0, 8, 16);
    assert_eq!(out, vec![0x000000FF, 0x00FF0000]);
}

#[test]
fn pixels_16() {
    assert_eq!(pack_pixel_16(0x00FFFFFF, 11, 5, 0), 0xFFFF);
    assert_eq!(pack_pixel_16(0x00FF0000, 11, 5, 0), 0xF800);
    assert_eq!(pack_pixel_16(0x0000FF00, 11, 5, 0), 0x07E0);
    assert_eq!(pack_pixel_16(0x000000FF, 11, 5, 0), 0x001F);
    assert_eq!(convert_frame_16(&[0x00FF0000], 1, 1, 11, 5, 0), vec![0xF800]);
}

#[test]
fn layouts() {
    assert_eq!(frame_layout(32, 800, 480), Ok((800, 800 * 480 * 4)));
    assert_eq!(frame_layout(16, 1024, 1200), Ok((1024, 1024 * 1200 * 2)));
    assert_eq!(
        frame_layout(24, 800, 480),
        Err("Unsupported framebuffer depth 24bpp (need 16 or 32)".to_string())
    );
}

#[test]
fn image_chunks_cover_all_rows() {
    // 100 pixels per row = 400 bytes; 64 + 1000 bytes allow 2 rows per request.
    let c = put_image_chunks(100, 5, 1064);
    assert_eq!(c, vec![(0, 2), (2, 2), (4, 1)]);
    // A tiny limit still sends one row at a time.
    assert_eq!(put_image_chunks(100, 2, 10), vec![(0, 1), (1, 1)]);
    // A large limit sends everything at once.
    assert_eq!(put_image_chunks(100, 3, 1 << 30), vec![(0, 3)]);
    assert!(put_image_chunks(100, 0, 1 << 30).is_empty());
}

