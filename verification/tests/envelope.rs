use exchanger::envelope::R;

#[test]
fn serialize_ok_frame() {
    let out = R::ok().serialize();
    assert_eq!(
        out,
        b"{\"success\":true,\"error\":null,\"error_description\":null}".to_vec()
    );
}

#[test]
fn serialize_err_frame() {
    let out = R::err("boom").serialize();
    assert_eq!(
        out,
        b"{\"success\":false,\"error\":\"boom\",\"error_description\":\"boom\"}".to_vec()
    );
}

#[test]
fn serialize_error_frame_with_description() {
    let out = R::error("missing header(x-sc)", "no service code").serialize();
    assert_eq!(
        out,
        b"{\"success\":false,\"error\":\"missing header(x-sc)\",\"error_description\":\"no service code\"}"
            .to_vec()
    );
}

#[test]
fn serialize_escapes_quotes_backslashes_and_controls() {
    let out = R::err("a\"b\\c\nd\te\u{1}f").serialize();
    let text = String::from_utf8(out).unwrap();
    assert!(text.contains("a\\\"b\\\\c\\nd\\te\\u0001f"));
}

#[test]
fn serialized_frames_parse_as_json() {
    let out = R::error("err-token", "\u{7f}\u{0}编码 \"x\"\\").serialize();
    let v: serde_json::Value = serde_json::from_slice(&out).unwrap();
    assert_eq!(v["success"], serde_json::Value::Bool(false));
    assert_eq!(v["error"].as_str().unwrap(), "err-token");
    assert_eq!(v["error_description"].as_str().unwrap(), "\u{7f}\u{0}编码 \"x\"\\");
}

#[test]
fn serialized_frame_round_trips_through_serde() {
    let out = R::new(false, Some("e".to_string()), None).serialize();
    let v: serde_json::Value = serde_json::from_slice(&out).unwrap();
    assert_eq!(v["error"].as_str().unwrap(), "e");
    assert!(v["error_description"].is_null());
}
