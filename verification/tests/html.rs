use wprs::client::backends::html::{encode_frame_message, surface_event_json, EncodedFrame};
use wprs::models::surface::WlSurfaceId;

#[test]
fn frame_message_format() {
    let id = WlSurfaceId(42);
    let frame = EncodedFrame {
        width: 10,
        height: 20,
        stride: 12,
        bgra: vec![1, 2, 3],
    };
    let msg = encode_frame_message(id, frame);
    assert_eq!(msg.len(), 21 + 3);
    assert_eq!(msg[0], 1);
    assert_eq!(&msg[1..9], &42u64.to_le_bytes());
    assert_eq!(&msg[9..13], &10u32.to_le_bytes());
    assert_eq!(&msg[13..17], &20u32.to_le_bytes());
    assert_eq!(&msg[17..21], &12u32.to_le_bytes());
    assert_eq!(&msg[21..], &[1, 2, 3]);
}

#[test]
fn surface_json_includes_title_when_present() {
    let id = WlSurfaceId(7);
    let msg = surface_event_json(id, Some("demo"), Some("app"));
    assert!(msg.contains("\"type\":\"surface\""));
    assert!(msg.contains("\"id\":\"7\""));
    assert!(msg.contains("\"title\":\"demo\""));
    assert!(msg.contains("\"app_id\":\"app\""));
}
