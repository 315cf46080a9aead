use wprs::protocols::image::png::encode_png_rgba;

#[test]
fn png_round_trip_rgba() {
    let width = 16;
    let height = 8;

    let mut rgba = vec![0u8; width * height * 4];
    for y in 0..height {
        for x in 0..width {
            let idx = (y * width + x) * 4;
            rgba[idx + 0] = (x * 13) as u8;
            rgba[idx + 1] = (y * 29) as u8;
            rgba[idx + 2] = ((x ^ y) * 7) as u8;
            rgba[idx + 3] = 255;
        }
    }

    let encoded = encode_png_rgba(&rgba, width as u32, height as u32).unwrap();

    let decoder = png::Decoder::new(std::io::Cursor::new(encoded));
    let mut reader = decoder.read_info().unwrap();
    let info = reader.info();
    assert!(info.width == width as u32, "png decode: width mismatch");
    assert!(info.height == height as u32, "png decode: height mismatch");
    assert!(
        info.color_type == png::ColorType::Rgba,
        "png decode: color type mismatch"
    );
    assert!(
        info.bit_depth == png::BitDepth::Eight,
        "png decode: bit depth mismatch"
    );

    let out_len = reader
        .output_buffer_size()
        .expect("png decode: unknown output size");
    let mut decoded = vec![0u8; out_len];
    let frame = reader.next_frame(&mut decoded).unwrap();
    decoded.truncate(frame.buffer_size());

    assert!(decoded == rgba, "png decode: payload mismatch");
}

#[test]
fn png_rejects_length_mismatch() {
    let err = encode_png_rgba(&[0u8; 3], 1, 1).unwrap_err();
    let msg = err.display_message();
    assert!(msg.contains("length mismatch"));
}

#[test]
fn png_rejects_zero_dimensions() {
    let err = encode_png_rgba(&[], 0, 1).unwrap_err();
    let msg = err.display_message();
    assert!(msg.contains("non-zero"));
}
