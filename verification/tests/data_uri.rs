use wasm_image_validator::data_uri::{data_uri_payload, find_marker, MARKER_LEN};

#[test]
fn marker_is_seven_bytes() {
    assert_eq!(MARKER_LEN, "base64,".len());
}

#[test]
fn payload_follows_the_marker() {
    assert_eq!(data_uri_payload(b"data:image/png;base64,iVBORw0KGgo="), b"iVBORw0KGgo=");
    assert_eq!(data_uri_payload(b"data:image/jpeg;base64,/9j/4AAQ"), b"/9j/4AAQ");
}

#[test]
fn text_without_marker_is_kept_whole() {
    assert_eq!(data_uri_payload(b"iVBORw0KGgo="), b"iVBORw0KGgo=");
    assert_eq!(data_uri_payload(b""), b"");
    assert_eq!(data_uri_payload(b"base64"), b"base64");
    assert_eq!(data_uri_payload(b"base64;abc"), b"base64;abc");
    assert_eq!(data_uri_payload(b"Base64,abc"), b"Base64,abc");
    assert_eq!(data_uri_payload(b"base6,4abc"), b"base6,4abc");
}

#[test]
fn whatever_stands_before_the_marker_goes() {
    assert_eq!(data_uri_payload(b"base64,QUJD"), b"QUJD");
    assert_eq!(data_uri_payload(b"anything at all base64,QUJD"), b"QUJD");
    assert_eq!(data_uri_payload("データbase64,QUJD".as_bytes()), b"QUJD");
    assert_eq!(data_uri_payload(b"bbase64,QUJD"), b"QUJD");
    assert_eq!(data_uri_payload(b"basebase64,QUJD"), b"QUJD");
}

#[test]
fn the_first_marker_counts() {
    assert_eq!(data_uri_payload(b"base64,base64,QUJD"), b"base64,QUJD");
    assert_eq!(data_uri_payload(b"xbase64,ybase64,z"), b"ybase64,z");
}

#[test]
fn marker_at_the_end_leaves_nothing() {
    assert_eq!(data_uri_payload(b"data:image/png;base64,"), b"");
    assert_eq!(data_uri_payload(b"base64,"), b"");
}

#[test]
fn find_marker_gives_the_first_offset() {
    assert_eq!(find_marker(b"base64,abc"), Some(0));
    assert_eq!(find_marker(b"data:image/png;base64,abc"), Some(15));
    assert_eq!(find_marker(b"xxbase64,base64,"), Some(2));
    assert_eq!(find_marker(b"abcbase64,"), Some(3));
    assert_eq!(find_marker(b"abcbase64"), None);
    assert_eq!(find_marker(b"base64"), None);
    assert_eq!(find_marker(b""), None);
    assert_eq!(find_marker(b"ase64,b"), None);
}
