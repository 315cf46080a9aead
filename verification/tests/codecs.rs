use wprs::error::Error;
use wprs::models::surface::WlSurfaceId;
use wprs::protocols::image::codecs::{JpegImage, JpegInfo, PngFrame, PNG_RGBA};
use wprs::protocols::video::h264::{
    avcc_extradata_to_annexb, avcc_packet_to_annexb, bit_rate, decoded_frame, encoder_rows,
    looks_like_annexb, H264Stream,
};
use wprs::protocols::wprs::frame_codecs::{
    decode_jpeg_to_bgra, decode_png_to_bgra, encode_jpeg_from_bgra,
    encode_jpeg_from_bgra_with_quality, encode_png_from_bgra, jpeg_decoded_to_bgra,
    jpeg_pixels_to_bgra, png_frame_to_bgra,
};
use wprs::protocols::wprs::framing::Framed;
use wprs::protocols::wprs::raw_buffer::{
    extract_single_uncompressed_shard, CompressedShard, CompressedShards, RawBufferHeader,
    RawBufferKind, RawBufferPayload,
};
use wprs::protocols::wprs::serializer::{
    message_head, new_inproc_serializer_pair, next_backoff, on_connect_object,
    socket_buffer_limits, write_step, Attempt, MessageHead, MessageType, OnConnectMessages,
    Reconnection, RecvType, SendType, Version, Waited, WriteStep,
};
use wprs::utils::filtering::{filter, unfilter, unfilter_to_buffer};
use wprs::utils::vec4u8::Vec4u8s;

#[test]
fn filter_round_trip() {
    let bgra: Vec<u8> = (0..4 * 37).map(|i: u32| (i * i * 7 % 251) as u8).collect();
    let filtered = filter(&bgra);
    assert_ne!(filtered.bytes, bgra);
    assert_eq!(unfilter_to_buffer(&filtered, bgra.len()), bgra);
}

#[test]
fn unfilter_stops_at_the_shorter_end() {
    let filtered = filter(&[1, 2, 3, 4, 5, 6, 7, 8]);
    assert_eq!(unfilter_to_buffer(&filtered, 6), vec![1, 2, 3, 4, 0, 0]);
    let mut out = vec![9u8; 12];
    unfilter(&filtered, &mut out);
    assert_eq!(out, vec![1, 2, 3, 4, 5, 6, 7, 8, 9, 9, 9, 9]);
}

#[test]
fn filtered_planes_hold_differences() {
    let filtered = filter(&[10, 20, 30, 40, 11, 22, 33, 44]);
    assert_eq!(filtered.len(), 2);
    let restored = unfilter_to_buffer(&Vec4u8s::from_bytes(filtered.bytes), 8);
    assert_eq!(restored, vec![10, 20, 30, 40, 11, 22, 33, 44]);
}

#[test]
fn png_frames_survive() {
    let bgra: Vec<u8> = (0..3 * 2 * 4).map(|i: u32| (i * 11) as u8).collect();
    let file = encode_png_from_bgra(3, 2, 12, &bgra).unwrap();
    assert_eq!(decode_png_to_bgra(&file).unwrap(), (3, 2, bgra.clone()));
    let mut padded = bgra[0..12].to_vec();
    padded.extend_from_slice(&[7, 7, 7, 7]);
    padded.extend_from_slice(&bgra[12..24]);
    padded.extend_from_slice(&[7, 7, 7, 7]);
    let file = encode_png_from_bgra(3, 2, 16, &padded).unwrap();
    assert_eq!(decode_png_to_bgra(&file).unwrap(), (3, 2, bgra));
}

#[test]
fn png_pixels_change_order() {
    let frame = PngFrame {
        width: 1,
        height: 1,
        color_type: PNG_RGBA,
        bit_depth: 8,
        data: vec![1, 2, 3, 4],
    };
    assert_eq!(png_frame_to_bgra(frame).unwrap(), (1, 1, vec![3, 2, 1, 4]));
    let frame = PngFrame {
        width: 1,
        height: 1,
        color_type: 2,
        bit_depth: 8,
        data: vec![1, 2, 3],
    };
    assert_eq!(png_frame_to_bgra(frame).unwrap(), (1, 1, vec![3, 2, 1, 255]));
    let frame = PngFrame { width: 1, height: 1, color_type: 0, bit_depth: 8, data: vec![1] };
    assert!(matches!(png_frame_to_bgra(frame), Err(Error::Unsupported(_))));
}

#[test]
fn broken_pictures_are_refused() {
    assert!(matches!(decode_png_to_bgra(&[1, 2, 3]), Err(Error::Codec(_))));
    assert!(matches!(decode_jpeg_to_bgra(&[1, 2, 3]), Err(Error::Codec(_))));
    assert!(encode_png_from_bgra(0, 1, 0, &[]).is_err());
    assert!(encode_jpeg_from_bgra(1, 1, 4, &[1, 2, 3]).is_err());
}

#[test]
fn jpeg_keeps_flat_pictures() {
    let bgra: Vec<u8> = vec![100u8; 16 * 16 * 4];
    let file = encode_jpeg_from_bgra(16, 16, 64, &bgra).unwrap();
    let (width, height, pixels) = decode_jpeg_to_bgra(&file).unwrap();
    assert_eq!((width, height, pixels.len()), (16, 16, 16 * 16 * 4));
    for pixel in pixels.chunks(4) {
        assert!(pixel[0].abs_diff(100) < 4);
        assert_eq!(pixel[3], 255);
    }
    let coarse = encode_jpeg_from_bgra_with_quality(16, 16, 64, &bgra, 1).unwrap();
    assert_ne!(coarse, file);
    let wide = vec![0u8; 65_536 * 4];
    assert!(matches!(
        encode_jpeg_from_bgra(65_536, 1, 65_536 * 4, &wide),
        Err(Error::Codec(_))
    ));
}

#[test]
fn decoded_jpeg_images() {
    let info = JpegInfo { width: 2, height: 1, pixel_bytes: 3 };
    let image = |pixels, info| Ok(JpegImage { pixels, info });
    assert_eq!(
        jpeg_decoded_to_bgra(image(vec![1, 2, 3, 4, 5, 6], Some(info))).unwrap(),
        (2, 1, vec![3, 2, 1, 255, 6, 5, 4, 255])
    );
    let gray = JpegInfo { pixel_bytes: 1, ..info };
    assert_eq!(
        jpeg_decoded_to_bgra(image(vec![1, 2], Some(gray))).unwrap(),
        (2, 1, vec![0; 8])
    );
    let inks = JpegInfo { width: 3, pixel_bytes: 4, ..info };
    assert!(matches!(
        jpeg_decoded_to_bgra(image(vec![0; 12], Some(inks))),
        Err(Error::Unsupported(text)) if text == "unsupported JPEG pixel format"
    ));
    assert!(matches!(
        jpeg_decoded_to_bgra(image(vec![], None)),
        Err(Error::Missing(text)) if text == "JPEG info"
    ));
    assert!(matches!(
        jpeg_decoded_to_bgra(Err("no".to_string())),
        Err(Error::Codec(err)) if err.message == "no"
    ));
}

#[test]
fn jpeg_images_have_a_largest_size() {
    let decoded = |height: u32| {
        let bgra = vec![9u8; height as usize * 4];
        decode_jpeg_to_bgra(&encode_jpeg_from_bgra(1, height, 4, &bgra).unwrap())
    };
    let (width, height, pixels) = decoded(65_528).unwrap();
    assert_eq!((width, height, pixels.len()), (1, 65_528, 65_528 * 4));
    for height in [65_529, 65_535] {
        assert!(matches!(
            decoded(height),
            Err(Error::Codec(err)) if err.message == "JPEG image too large"
        ));
    }
}

#[test]
fn jpeg_pixels_change_order() {
    assert_eq!(
        jpeg_pixels_to_bgra(&vec![1, 2, 3, 4, 5, 6], 2, 1),
        (2, 1, vec![3, 2, 1, 255, 6, 5, 4, 255])
    );
}

#[test]
fn start_codes_are_seen() {
    assert!(looks_like_annexb(&[0, 0, 0, 1, 9]));
    assert!(looks_like_annexb(&[0, 0, 1]));
    assert!(!looks_like_annexb(&[0, 0, 2]));
    assert!(!looks_like_annexb(&[0, 0]));
}

#[test]
fn packets_get_start_codes() {
    let packet = [0, 0, 0, 2, 7, 8, 0, 0, 0, 0, 0, 0, 0, 1, 9];
    assert_eq!(
        avcc_packet_to_annexb(&packet, 4).unwrap(),
        vec![0, 0, 0, 1, 7, 8, 0, 0, 0, 1, 9]
    );
    assert_eq!(avcc_packet_to_annexb(&[1, 5], 1).unwrap(), vec![0, 0, 0, 1, 5]);
    assert_eq!(
        avcc_packet_to_annexb(&[0, 5, 1], 2).unwrap_err().display_message(),
        "invalid argument: truncated avcc packet"
    );
    assert_eq!(
        avcc_packet_to_annexb(&[0, 1, 5, 1], 2).unwrap_err().display_message(),
        "invalid argument: trailing avcc bytes"
    );
    assert_eq!(
        avcc_packet_to_annexb(&[], 5).unwrap_err().display_message(),
        "invalid argument: invalid nal length size 5"
    );
}

#[test]
fn stream_descriptions_are_converted() {
    let data = [1, 0x64, 0, 0x1f, 0xff, 0xe1, 0, 2, 0x67, 0x64, 1, 0, 1, 0x68];
    assert_eq!(
        avcc_extradata_to_annexb(&data),
        Some((Some(4), vec![0, 0, 0, 1, 0x67, 0x64, 0, 0, 0, 1, 0x68]))
    );
    assert_eq!(avcc_extradata_to_annexb(&data[0..9]), None);
    assert_eq!(avcc_extradata_to_annexb(&[2, 0, 0, 0, 0, 0, 0]), None);
    assert_eq!(
        avcc_extradata_to_annexb(&[1, 0, 0, 0, 0xfd, 0xe0, 0]),
        Some((Some(2), vec![]))
    );
}

#[test]
fn streams_send_parameters_once() {
    let data = [1, 0x64, 0, 0x1f, 0xff, 0xe1, 0, 1, 0x67, 0];
    let mut stream = H264Stream::new(Some(&data));
    let mut out = Vec::new();
    stream.push_packet(&[0, 0, 0, 1, 0x65], &mut out);
    stream.push_packet(&[0, 0, 0, 2, 0x41, 0x42], &mut out);
    assert_eq!(
        out,
        vec![0, 0, 0, 1, 0x67, 0, 0, 0, 1, 0x65, 0, 0, 0, 1, 0x41, 0x42]
    );
    let mut plain = H264Stream::new(None);
    let mut out = Vec::new();
    plain.push_packet(&[5, 6], &mut out);
    assert_eq!(out, vec![5, 6]);
}

#[test]
fn video_rows_and_rates() {
    assert_eq!(bit_rate(10, 10, 10), 500_000);
    assert_eq!(bit_rate(1000, 1000, 30), 30_000_000);
    assert_eq!(
        encoder_rows(&[1, 2, 3, 4, 5, 6, 7, 8], 0, 1, 2, 6),
        vec![1, 2, 3, 4, 0, 0, 5, 6, 7, 8, 0, 0]
    );
    let frame = decoded_frame(1, 2, 5, &[1, 2, 3, 4, 0, 5, 6, 7, 8]);
    assert_eq!(frame.stride, 4);
    assert_eq!(frame.bgra, vec![1, 2, 3, 4, 5, 6, 7, 8]);
}

fn payload(data: Vec<u8>, compression: bool) -> RawBufferPayload {
    let uncompressed_size = data.len();
    RawBufferPayload {
        surface: WlSurfaceId(5),
        kind: RawBufferKind::Png,
        shards: CompressedShards {
            shards: vec![CompressedShard { idx: 0, compression, uncompressed_size, data }],
        },
    }
}

#[test]
fn message_heads_are_read_back() {
    let msg: SendType<u8> = SendType::RawBuffer(payload(vec![1], false));
    let bytes = message_head(&msg);
    let (head, used) = MessageHead::framed_read(&bytes, 0).unwrap();
    assert_eq!(used, bytes.len());
    let MessageHead::RawBuffer(header) = head else {
        panic!("no frame");
    };
    assert_eq!(header.surface, Some(WlSurfaceId(5)));
    assert_eq!(header.kind, RawBufferKind::Png);
    assert_eq!(header.version, RawBufferHeader::V2);
    assert!(MessageHead::framed_read(&bytes, 1).is_err());
    assert!(MessageType::from_number(9).is_err());
    assert!(RawBufferKind::from_number(9).is_err());
}

#[test]
fn single_plain_shards_are_taken_as_they_are() {
    let bytes = extract_single_uncompressed_shard(payload(vec![1, 2], false).shards);
    assert_eq!(bytes.unwrap(), vec![1, 2]);
    assert!(extract_single_uncompressed_shard(payload(vec![1, 2], true).shards).is_err());
}

#[test]
fn inproc_pairs_deliver_in_order() {
    let mut pair = new_inproc_serializer_pair::<u32, u8>();
    pair.send_to_b(SendType::Object(1), None);
    pair.send_to_b(SendType::RawBuffer(payload(vec![4], false)), None);
    pair.send_to_b(SendType::RawBuffer(payload(vec![4], true)), Some(vec![6, 7]));
    pair.send_to_b(SendType::RawBuffer(payload(vec![4], true)), None);
    pair.send_to_a(SendType::Object(9), None);
    assert!(matches!(pair.recv_b(), Some(RecvType::Object(1))));
    let Some(RecvType::RawBuffer(frame)) = pair.recv_b() else {
        panic!("no frame");
    };
    assert_eq!(frame.bytes, vec![4]);
    let Some(RecvType::RawBuffer(frame)) = pair.recv_b() else {
        panic!("no frame");
    };
    assert_eq!(frame.bytes, vec![6, 7]);
    assert!(pair.recv_b().is_none());
    assert!(matches!(pair.recv_a(), Some(RecvType::Object(9))));
}

#[test]
fn pauses_double_up_to_five_seconds() {
    assert_eq!(next_backoff(100), 200);
    assert_eq!(next_backoff(3200), 5000);
    let mut client = Reconnection::new();
    let mut pauses = vec![];
    for _ in 0..8 {
        pauses.push(client.attempted(Attempt::Refused).unwrap());
    }
    assert_eq!(pauses, vec![100, 200, 400, 800, 1600, 3200, 5000, 5000]);
    assert!(!client.other_end_connected);
    assert_eq!(client.attempted(Attempt::Connected), None);
    assert!(client.other_end_connected);
    assert_eq!(client.attempted(Attempt::Disconnected), None);
    assert_eq!(client.attempted(Attempt::Refused), Some(100));
}

#[test]
fn writers_stop_when_nobody_is_left() {
    assert!(matches!(write_step::<u8>(Waited::Closed, true), WriteStep::Stop));
    assert!(matches!(write_step::<u8>(Waited::TimedOut, true), WriteStep::WaitAgain));
    assert!(matches!(write_step::<u8>(Waited::TimedOut, false), WriteStep::Stop));
    let msg = Waited::Message(SendType::Object(3u8));
    assert!(matches!(write_step(msg, false), WriteStep::Write(SendType::Object(3))));
}

#[test]
fn buffer_limits_of_the_system() {
    let limits = socket_buffer_limits(Some("100".to_string()), Some("x".to_string()));
    assert_eq!(limits, (100, 4 * 1024 * 1024));
    assert_eq!(
        socket_buffer_limits(Some("100".to_string()), None),
        (4 * 1024 * 1024, 4 * 1024 * 1024)
    );
}

#[test]
fn only_objects_are_sent_on_connect() {
    assert_eq!(on_connect_object(SendType::Object(7u8)).unwrap(), 7);
    let frame: SendType<u8> = SendType::RawBuffer(payload(vec![], false));
    assert_eq!(
        on_connect_object(frame).unwrap_err().display_message(),
        "RawBuffer payloads are not allowed in on_connect frames"
    );
}

#[test]
fn every_connection_starts_with_the_same_messages() {
    let first = vec![SendType::Object(1u8), SendType::Object(2)];
    let mut messages = OnConnectMessages::from_messages(first).unwrap();
    assert_eq!(messages.on_connection(), &[1, 2]);
    messages.add_on_connect_message(SendType::Object(3)).unwrap();
    assert_eq!(messages.on_connection(), &[1, 2, 3]);
    assert_eq!(messages.on_connection(), &[1, 2, 3]);
    let frame: SendType<u8> = SendType::RawBuffer(payload(vec![], false));
    assert!(messages.add_on_connect_message(frame).is_err());
    assert_eq!(messages.on_connection(), &[1, 2, 3]);
    let mixed = vec![SendType::Object(1), SendType::RawBuffer(payload(vec![], false))];
    assert_eq!(
        OnConnectMessages::<u8>::from_messages(mixed).unwrap_err().display_message(),
        "RawBuffer payloads are not allowed in on_connect frames"
    );
}

#[test]
fn versions_are_compared() {
    let a = Version("a".to_string());
    assert!(a.compare_and_warn(&Version("a".to_string())).is_none());
    let text = a.compare_and_warn(&Version("b".to_string())).unwrap();
    assert!(text.starts_with(
        "Self version is Version(\"a\"), while other version is Version(\"b\"). These"
    ));
}
