use simpleweb::exec::model::Response;
use simpleweb::exec::reply::{
    encode_response, frame_response, response_head, REPLY_ERROR, REPLY_HEAD, REPLY_LAST,
    REPLY_PART,
};
use simpleweb::websocket::frame::Opcode;
use simpleweb::websocket::framer::{FrameError, Framer};

#[test]
fn result_bytes_follow_the_stream_id_and_the_mark() {
    let r = Response::Data { connection: 3, streamid: 7, bytes: vec![0xaa, 0xbb], complete: true };
    assert_eq!(encode_response(&r), vec![7, 0, 0, 0, 0, 0, 0, 0, 1, 0xaa, 0xbb]);
    let r = Response::Data {
        connection: 3,
        streamid: 0x0102_0304_0506_0708,
        bytes: Vec::new(),
        complete: false,
    };
    assert_eq!(encode_response(&r), vec![8, 7, 6, 5, 4, 3, 2, 1, 0]);
}

#[test]
fn an_error_code_is_four_bytes_in_twos_complement() {
    let e = |code: i32| encode_response(&Response::Error { connection: 0, streamid: 1, code });
    assert_eq!(e(22), vec![1, 0, 0, 0, 0, 0, 0, 0, 2, 22, 0, 0, 0]);
    assert_eq!(e(0), vec![1, 0, 0, 0, 0, 0, 0, 0, 2, 0, 0, 0, 0]);
    assert_eq!(e(-1), vec![1, 0, 0, 0, 0, 0, 0, 0, 2, 0xff, 0xff, 0xff, 0xff]);
    assert_eq!(e(-13)[9..], (-13i32).to_le_bytes());
    assert_eq!(e(i32::MAX)[9..], i32::MAX.to_le_bytes());
    assert_eq!(e(i32::MIN)[9..], i32::MIN.to_le_bytes());
    assert_eq!(e(0x0102_0304)[9..], [4, 3, 2, 1]);
}

#[test]
fn the_head_of_a_response_is_read_back() {
    assert_eq!((REPLY_PART, REPLY_LAST, REPLY_ERROR, REPLY_HEAD), (0, 1, 2, 9));
    for &streamid in [0u64, 1, 255, 256, 0xdead_beef, u64::MAX].iter() {
        let r = Response::Data { connection: 0, streamid, bytes: vec![5, 6, 7], complete: true };
        let bytes = encode_response(&r);
        assert_eq!(response_head(&bytes), Some((streamid, REPLY_LAST)));
        assert_eq!(&bytes[REPLY_HEAD..], &[5, 6, 7]);
        let r = Response::Error { connection: 0, streamid, code: -5 };
        assert_eq!(response_head(&encode_response(&r)), Some((streamid, REPLY_ERROR)));
    }
    assert_eq!(response_head(&[0; 8]), None);
    assert_eq!(response_head(&[]), None);
    assert_eq!(response_head(&[1, 0, 0, 0, 0, 0, 0, 0, 0]), Some((1, 0)));
}

#[test]
fn a_response_is_framed_as_one_binary_message() {
    let r = Response::Data { connection: 0, streamid: 2, bytes: vec![0x61, 0x62], complete: true };
    let mut framer = Framer::new();
    let mut out = vec![0xee];
    assert_eq!(frame_response(&mut framer, &r, None, &mut out), Ok(()));
    assert_eq!(out, vec![0xee, 0x82, 11, 2, 0, 0, 0, 0, 0, 0, 0, 1, 0x61, 0x62]);
    // A reader gets the response's bytes back as one message.
    let mut reader = Framer::new();
    let mut message = Vec::new();
    let read = reader.read_some(&out[1..], &mut message, 64).unwrap();
    assert!(read.message_ended);
    assert_eq!(read.opcode, Opcode::Binary);
    assert_eq!(message, encode_response(&r));
    assert_eq!(response_head(&message), Some((2, REPLY_LAST)));
    // Masked, the same bytes arrive.
    let mut masked = Vec::new();
    assert_eq!(frame_response(&mut framer, &r, Some([1, 2, 3, 4]), &mut masked), Ok(()));
    let mut again = Vec::new();
    assert!(Framer::new().read_some(&masked, &mut again, 64).unwrap().message_ended);
    assert_eq!(again, message);
}

#[test]
fn a_response_cannot_cut_into_a_streamed_message() {
    let r = Response::Error { connection: 0, streamid: 2, code: 22 };
    let mut framer = Framer::new();
    let mut out = Vec::new();
    framer.write_message_chunk(Opcode::Text, b"part", None, &mut out).unwrap();
    let before = out.clone();
    assert_eq!(frame_response(&mut framer, &r, None, &mut out), Err(FrameError::Protocol));
    assert_eq!(out, before);
}
