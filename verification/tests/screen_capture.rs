use base64::Engine;
use project_commentator::capture::{
    finish_capture, is_blank_frame, process_capture, rgba_to_rgb, thumbnail_height, Frame,
};

fn frame(w: u32, h: u32, rgba: Vec<u8>) -> Frame {
    Frame::from_raw(w, h, rgba).expect("buffer holds the image")
}

fn set_pixel(buf: &mut [u8], w: u32, x: u32, y: u32, px: [u8; 4]) {
    let o = ((y * w + x) * 4) as usize;
    buf[o..o + 4].copy_from_slice(&px);
}

#[test]
fn from_raw_checks_the_buffer() {
    assert!(Frame::from_raw(2, 2, vec![0; 15]).is_none());
    assert!(Frame::from_raw(2, 2, vec![0; 16]).is_some());
    assert!(Frame::from_raw(2, 2, vec![0; 20]).is_some());
    assert!(Frame::from_raw(0, 5, vec![]).is_some());
}

#[test]
fn black_frame_is_blank() {
    assert!(is_blank_frame(&frame(8, 8, vec![0; 8 * 8 * 4])));
    assert!(is_blank_frame(&frame(16, 9, vec![7; 16 * 9 * 4])));
}

#[test]
fn empty_frame_is_blank() {
    assert!(is_blank_frame(&frame(0, 4, vec![])));
    assert!(is_blank_frame(&frame(4, 0, vec![])));
}

#[test]
fn one_bright_sample_makes_a_frame_not_blank() {
    let mut buf = vec![0u8; 16 * 16 * 4];
    set_pixel(&mut buf, 16, 2, 0, [200, 0, 0, 255]);
    assert!(!is_blank_frame(&frame(16, 16, buf)));
    // The last grid line is clamped to the last column and row.
    let mut buf = vec![0u8; 16 * 16 * 4];
    set_pixel(&mut buf, 16, 15, 15, [0, 0, 8, 255]);
    assert!(!is_blank_frame(&frame(16, 16, buf)));
}

#[test]
fn unsampled_pixels_do_not_count() {
    let mut buf = vec![0u8; 16 * 16 * 4];
    set_pixel(&mut buf, 16, 1, 0, [255, 255, 255, 255]);
    assert!(is_blank_frame(&frame(16, 16, buf)));
}

#[test]
fn alpha_does_not_count() {
    let mut buf = vec![0u8; 8 * 8 * 4];
    for i in 0..64 {
        buf[i * 4 + 3] = 255;
    }
    assert!(is_blank_frame(&frame(8, 8, buf)));
}

#[test]
fn rgb_drops_alpha() {
    assert_eq!(rgba_to_rgb(&vec![1, 2, 3, 4, 5, 6, 7, 8]), vec![1, 2, 3, 5, 6, 7]);
    assert_eq!(rgba_to_rgb(&vec![1, 2, 3, 4, 9, 9, 9]), vec![1, 2, 3, 9, 9, 9]);
    assert_eq!(rgba_to_rgb(&vec![]), Vec::<u8>::new());
}

#[test]
fn thumbnail_keeps_aspect() {
    assert_eq!(thumbnail_height(1920, 1080), 202);
    assert_eq!(thumbnail_height(2560, 1600), 225);
    assert_eq!(thumbnail_height(0, 10), 3600);
    assert_eq!(thumbnail_height(1000, 1), 1);
    assert_eq!(thumbnail_height(1, u32::MAX), 4294966936);
}

#[test]
fn short_buffer_is_refused() {
    let r = process_capture(4, 4, vec![255; 10]);
    assert_eq!(
        r.err(),
        Some("capture produced an image whose buffer did not match its dimensions".to_string())
    );
}

#[test]
fn blank_capture_reports_missing_permission() {
    let r = process_capture(8, 8, vec![0; 8 * 8 * 4]);
    assert_eq!(
        r.err(),
        Some(
            "Screen Recording permission not granted. Open System Settings → Privacy & Security \
             → Screen Recording, enable Project Commentator, then restart the app."
                .to_string()
        )
    );
}

#[test]
fn capture_yields_rgb_and_thumbnail() {
    let (w, h) = (12u32, 6u32);
    let mut raw = Vec::new();
    for i in 0..(w * h) {
        raw.extend_from_slice(&[(i * 3) as u8, (i * 5) as u8, 200, 255]);
    }
    let cap = process_capture(w, h, raw.clone()).expect("capture succeeds");
    assert_eq!((cap.nx, cap.ny), (w, h));
    assert_eq!(cap.rgb.len(), (w * h * 3) as usize);
    assert_eq!(&cap.rgb[0..6], &[0, 0, 200, 3, 5, 200]);

    let img = image::RgbaImage::from_raw(w, h, raw).unwrap();
    let small = image::imageops::resize(&img, 360, 180, image::imageops::FilterType::Triangle);
    let mut png = Vec::new();
    image::DynamicImage::ImageRgba8(small)
        .write_to(&mut std::io::Cursor::new(&mut png), image::ImageFormat::Png)
        .unwrap();
    let expected = base64::engine::general_purpose::STANDARD.encode(&png);
    assert_eq!(cap.thumb_base64, expected);
    assert!(cap.thumb_base64.starts_with("iVBORw0KGgo"));
}

#[test]
fn finished_capture_encodes_thumbnail_in_base64() {
    let cap = finish_capture(vec![1, 2, 3], 1, 1, &vec![0x89, b'P', b'N', b'G', 0, 255]);
    assert_eq!(cap.thumb_base64, "iVBORwD/");
    assert_eq!(cap.rgb, vec![1, 2, 3]);
    assert_eq!((cap.nx, cap.ny), (1, 1));
    let empty = finish_capture(vec![], 0, 0, &vec![]);
    assert_eq!(empty.thumb_base64, "");
    let padded = finish_capture(vec![], 0, 0, &b"ab".to_vec());
    assert_eq!(padded.thumb_base64, "YWI=");
}

#[test]
fn ragged_buffers_still_get_the_early_errors() {
    // Short buffer whose length leaves a group of one byte.
    assert_eq!(
        process_capture(4, 4, vec![255; 13]).err().as_deref(),
        Some("capture produced an image whose buffer did not match its dimensions")
    );
    // Blank frame with one byte to spare.
    let r = process_capture(8, 8, vec![0; 8 * 8 * 4 + 1]);
    assert!(r.err().unwrap().starts_with("Screen Recording permission not granted."));
}
