use cyan_backend::frame::{
    chat_too_large, decode_frame, dm_too_large, encode_frame, frame_length, FrameStep,
    CHAT_FRAME_LIMIT, DM_FRAME_LIMIT,
};

#[test]
fn a_frame_comes_back() {
    let bytes = encode_frame(&b"hello".to_vec());
    assert_eq!(bytes, [0, 0, 0, 5, b'h', b'e', b'l', b'l', b'o']);
    let mut more = bytes.clone();
    more.push(1);
    match decode_frame(&more, CHAT_FRAME_LIMIT) {
        FrameStep::Frame { payload, used } => {
            assert_eq!(payload, b"hello".to_vec());
            assert_eq!(used, 9);
        }
        _ => panic!("no frame"),
    }
    assert!(matches!(decode_frame(&bytes[..8].to_vec(), CHAT_FRAME_LIMIT), FrameStep::Incomplete));
    assert!(matches!(decode_frame(&vec![0, 0], CHAT_FRAME_LIMIT), FrameStep::Incomplete));
}

#[test]
fn a_frame_over_the_limit_is_refused() {
    assert_eq!(frame_length(&[0, 0, 1, 0], 255), Err(256));
    assert_eq!(frame_length(&[0, 0, 1, 0], 256), Ok(256));
    assert!(matches!(decode_frame(&vec![0xff, 0, 0, 0], DM_FRAME_LIMIT), FrameStep::TooLarge(_)));
    assert!(chat_too_large(2_000_000).contains("2000000"));
    assert!(dm_too_large(20_000_000).contains("20000000"));
}
