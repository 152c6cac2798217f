//! Requests and answers on the wire.
use yabai::wire::{encode_answer, payload_error, payload_size};

#[test]
fn a_length_is_not_negative() {
    assert_eq!(payload_size(12), Ok(12));
    assert_eq!(payload_size(0), Ok(0));
    assert_eq!(payload_size(-1), Err("negative IPC payload size".to_string()));
    assert_eq!(payload_error(), "invalid IPC payload");
}

#[test]
fn answers_are_read_back() {
    let text = encode_answer(&Ok(Some("8\né".to_string())), 7);
    assert_eq!(String::from_utf8(text).unwrap(), "8\né");
    assert!(encode_answer(&Ok(None), 7).is_empty());
    let failure = encode_answer(&Err("no focused window".to_string()), 7);
    assert_eq!(failure[0], 7);
    assert_eq!(failure[1..], *b"no focused window\n");
}
