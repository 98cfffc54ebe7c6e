use poly_ob::transport::{body_len, frame, unframe, FrameError};

#[test]
fn frame_layout() {
    let f = frame(b"{\"tokens\":[]}").unwrap();
    assert_eq!(&f[..4], &[0, 0, 0, 13]);
    assert_eq!(&f[4..], b"{\"tokens\":[]}");
    let big = vec![7u8; 70000];
    let f = frame(&big).unwrap();
    assert_eq!(&f[..4], &[0, 1, 0x11, 0x70]);
    assert_eq!(f.len(), 70004);
}

#[test]
fn frame_round_trip() {
    for body in [&b""[..], &b"{}"[..], &b"{\"tokens\":[\"A\",\"B\"],\"trigger\":true}"[..]] {
        assert_eq!(unframe(&frame(body).unwrap()).unwrap(), body.to_vec());
    }
}

#[test]
fn header_is_big_endian() {
    assert_eq!(body_len(&[0, 0, 1, 2]), 258);
    assert_eq!(body_len(&[1, 0, 0, 0]), 16777216);
    assert_eq!(body_len(&[255, 255, 255, 255]), u32::MAX);
}

#[test]
fn unframe_errors() {
    assert_eq!(unframe(&[]), Err(FrameError::Empty));
    assert_eq!(unframe(&[0, 0]), Err(FrameError::ShortHeader));
    assert_eq!(unframe(&[0, 0, 0, 3, b'a']), Err(FrameError::Truncated));
    assert_eq!(unframe(&[0, 0, 0, 1, b'a', b'b']), Ok(vec![b'a']));
}
