use taskpool::wire::{frame_payload, vec_to_data_proto};

#[test]
fn frame_prefixes_little_endian_length() {
    let payload: Vec<u8> = vec![9, 8, 7, 6, 5];
    let framed = frame_payload(&payload);
    assert_eq!(framed, vec![5, 0, 0, 0, 9, 8, 7, 6, 5]);
}

#[test]
fn frame_length_spans_all_four_bytes() {
    let payload: Vec<u8> = vec![0xaa; 0x01020304];
    let framed = frame_payload(&payload);
    assert_eq!(framed.len(), payload.len() + 4);
    assert_eq!(&framed[..4], &[0x04, 0x03, 0x02, 0x01]);
}

#[test]
fn round_trip_returns_payload() {
    let payload: Vec<u8> = vec![1, 2, 3, 4, 5, 6, 7];
    let framed = frame_payload(&payload);
    assert_eq!(vec_to_data_proto(framed), Ok(payload));
}

#[test]
fn trailing_bytes_are_ignored() {
    let mut framed = frame_payload(&vec![1, 2, 3]);
    framed.push(0xff);
    framed.push(0xee);
    assert_eq!(vec_to_data_proto(framed), Ok(vec![1, 2, 3]));
}

#[test]
fn short_buffers_are_rejected() {
    assert_eq!(vec_to_data_proto(vec![]), Err(()));
    assert_eq!(vec_to_data_proto(vec![1, 0, 0]), Err(()));
    // Exactly the prefix and no payload byte is still too short.
    assert_eq!(vec_to_data_proto(vec![0, 0, 0, 0]), Err(()));
}

#[test]
fn truncated_payload_is_rejected() {
    // The prefix announces five bytes but only three follow.
    assert_eq!(vec_to_data_proto(vec![5, 0, 0, 0, 1, 2, 3]), Err(()));
}
