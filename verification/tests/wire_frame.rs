use project_pilot::frame::{encode_frame, decode_frame};
use project_pilot::wire::{decode_request, encode_response, props_json};

#[test]
fn frame_round_trip() {
    let payload: Vec<u8> = vec![10, 20, 30, 40, 50];
    let mut framed = encode_frame(&payload);
    assert_eq!(framed.len(), 9);
    assert_eq!(&framed[0..4], &[0, 0, 0, 5]);
    framed.push(99);
    let (decoded, consumed) = decode_frame(&framed).unwrap();
    assert_eq!(decoded, payload);
    assert_eq!(consumed, 9);
}

#[test]
fn frame_incomplete_needs_more() {
    let buf: Vec<u8> = vec![0, 0, 0, 5, 1, 2];
    assert!(decode_frame(&buf).is_none());
    let buf: Vec<u8> = vec![0, 0];
    assert!(decode_frame(&buf).is_none());
    let buf: Vec<u8> = vec![0, 0, 0, 0];
    let (decoded, consumed) = decode_frame(&buf).unwrap();
    assert!(decoded.is_empty());
    assert_eq!(consumed, 4);
}

#[test]
fn request_decoding() {
    let text = "{\"subject\":\"project\",\"command\":\"add\",\"params\":{\"project-name\":\"demo\"}}";
    let req = decode_request(text).unwrap();
    assert_eq!(req.subject, "project");
    assert_eq!(req.command, "add");
    assert_eq!(req.params, vec![("project-name".to_string(), "demo".to_string())]);

    assert!(decode_request("not json").is_none());
    assert!(decode_request("{\"subject\":\"project\"}").is_none());
    assert!(
        decode_request("{\"subject\":\"a\",\"command\":\"b\",\"params\":{\"n\":3}}").is_none()
    );
    assert!(decode_request("{\"subject\":1,\"command\":\"b\",\"params\":{}}").is_none());
}

#[test]
fn response_encoding() {
    assert_eq!(encode_response("hello"), "{\"lines\":\"hello\"}");
    assert_eq!(encode_response("a\"b\\c"), "{\"lines\":\"a\\\"b\\\\c\"}");
    assert_eq!(encode_response("line\nbreak"), "{\"lines\":\"line\\nbreak\"}");
}

#[test]
fn properties_listing_as_json() {
    let props: Vec<(String, String)> = vec![
        ("path".to_string(), "/tmp/x".to_string()),
        ("odd\"key".to_string(), "v".to_string()),
    ];
    assert_eq!(
        props_json(&props),
        "[{\"property\":\"path\",\"value\":\"/tmp/x\"},{\"property\":\"odd\\\"key\",\"value\":\"v\"}]"
    );
    let empty: Vec<(String, String)> = Vec::new();
    assert_eq!(props_json(&empty), "[]");
}
