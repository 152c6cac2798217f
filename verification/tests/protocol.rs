//! Messages of the scripting addition.
use yabai::sa::{
    classify, frame_message, handshake_request, is_healthy, parse_handshake, socket_path_for_user,
    split_handshake, status_report, HandshakeError, MessageError, Payload, SaOpcode, SaRequest,
    ScriptingAddition, ScriptingAdditionStatus,
};
use yabai::types::Real;

const OSAX_VERSION: &str = "2.1.30";
const OSAX_ATTRIB_ALL: u32 = 0x7f;
const BUFFER: usize = 0x1000;

fn number(value: f32) -> Real {
    Real { bits: value.to_bits(), text: format!("{value:.4}") }
}

/// The bytes of a request, with a number that stands for its opcode.
fn sent(request: &SaRequest, number: u8) -> Vec<u8> {
    frame_message(number, request.payload.as_bytes(), BUFFER).expect("send")
}

fn client() -> ScriptingAddition {
    ScriptingAddition::new("/tmp/test.socket".to_string())
}

fn reply(version: &str, attributes: u32) -> Vec<u8> {
    let mut ack = Vec::new();
    ack.extend_from_slice(version.as_bytes());
    ack.push(0);
    ack.extend_from_slice(&attributes.to_le_bytes());
    ack
}

#[test]
fn send_message_frames_length_opcode_and_payload() {
    let request = client().focus_space(0x0102_0304_0506_0708);
    assert_eq!(request.opcode, SaOpcode::SpaceFocus);
    let frame = sent(&request, 2);

    assert_eq!(&frame[0..2], &9u16.to_le_bytes());
    assert_eq!(frame[2], 2);
    assert_eq!(&frame[3..11], &0x0102_0304_0506_0708u64.to_le_bytes());
    assert_eq!(frame.len(), 11);
}

#[test]
fn move_window_packs_signed_coordinates() {
    let request = client().move_window(42, -5, 300);
    assert_eq!(request.opcode, SaOpcode::WindowMove);
    let frame = sent(&request, 6);

    assert_eq!(frame[2], 6);
    assert_eq!(&frame[3..7], &42u32.to_le_bytes());
    assert_eq!(&frame[7..11], &(-5i32).to_le_bytes());
    assert_eq!(&frame[11..15], &300i32.to_le_bytes());
}

#[test]
fn set_opacity_selects_fade_opcode_by_duration() {
    let plain = client().set_opacity(7, &number(0.5), &number(0.0));
    assert_eq!(plain.opcode, SaOpcode::WindowOpacity);

    let fade = client().set_opacity(7, &number(0.5), &number(0.25));
    assert_eq!(fade.opcode, SaOpcode::WindowOpacityFade);
    assert_eq!(&fade.payload.as_bytes()[4..8], &0.5f32.to_le_bytes());
    assert_eq!(&fade.payload.as_bytes()[8..12], &0.25f32.to_le_bytes());
}

#[test]
fn handshake_parses_version_and_attrib() {
    let ack = reply(OSAX_VERSION, OSAX_ATTRIB_ALL);
    let (version, attrib) = parse_handshake(&ack).expect("handshake");

    assert_eq!(version, OSAX_VERSION);
    assert_eq!(attrib, OSAX_ATTRIB_ALL);
    assert_eq!(handshake_request(1), vec![0x01, 0x00, 1]);
}

#[test]
fn status_classifies_handshake_results() {
    let sa = client();
    let status = |ack: Option<&Vec<u8>>| sa.status(ack, OSAX_VERSION, OSAX_ATTRIB_ALL);

    assert_eq!(
        status(Some(&reply(OSAX_VERSION, OSAX_ATTRIB_ALL))),
        ScriptingAdditionStatus::Healthy {
            payload_version: OSAX_VERSION.to_string()
        }
    );
    assert_eq!(
        status(Some(&reply("0.0.1", OSAX_ATTRIB_ALL))),
        ScriptingAdditionStatus::Outdated {
            payload_version: "0.0.1".to_string()
        }
    );
    assert_eq!(
        status(Some(&reply(OSAX_VERSION, 1))),
        ScriptingAdditionStatus::MissingSupport { attributes: 1 }
    );
    assert_eq!(status(None), ScriptingAdditionStatus::NotLoaded);
}

#[test]
fn socket_path_uses_common_protocol_constant() {
    assert_eq!(socket_path_for_user("eric"), "/tmp/yabai-sa_eric.socket");
}

#[test]
fn health_is_explicit() {
    assert!(is_healthy(&ScriptingAdditionStatus::Healthy {
        payload_version: OSAX_VERSION.to_string(),
    }));
    assert!(!is_healthy(&ScriptingAdditionStatus::NotLoaded));
}

#[test]
fn a_client_for_a_user_knows_its_socket() {
    assert_eq!(ScriptingAddition::for_user("eric").socket_path(), "/tmp/yabai-sa_eric.socket");
    assert_eq!(client().socket_path(), "/tmp/test.socket");
}

#[test]
fn a_payload_packs_its_fields_in_order() {
    let payload = Payload::new().u32(1).u64(2).i32(-1).float(&number(1.0)).bool(true);
    let mut bytes = Vec::new();
    bytes.extend_from_slice(&1u32.to_le_bytes());
    bytes.extend_from_slice(&2u64.to_le_bytes());
    bytes.extend_from_slice(&(-1i32).to_le_bytes());
    bytes.extend_from_slice(&1.0f32.to_le_bytes());
    bytes.push(1);
    assert_eq!(payload.as_bytes(), &bytes[..]);
}

#[test]
fn a_message_that_does_not_fit_is_refused() {
    let payload = vec![0u8; 16];
    assert_eq!(frame_message(2, &payload, 18), Err(MessageError::ExceedsBuffer));
    assert!(frame_message(2, &payload, 19).is_ok());
    let long = vec![0u8; 0x1_0000];
    assert_eq!(frame_message(2, &long, 0x10_0000), Err(MessageError::TooLarge));
}

#[test]
fn a_broken_handshake_is_told_apart() {
    assert_eq!(parse_handshake(&Vec::new()), Err(HandshakeError::NoResponse));
    assert_eq!(
        parse_handshake(&b"2.1.30".to_vec()),
        Err(HandshakeError::MissingTerminator)
    );
    assert_eq!(
        parse_handshake(&b"2.1.30\0\x01\x02".to_vec()),
        Err(HandshakeError::MissingAttributes)
    );
    assert_eq!(client().status(Some(&Vec::new()), OSAX_VERSION, 1), ScriptingAdditionStatus::NotLoaded);
}

#[test]
fn a_handshake_reads_back_what_was_written() {
    let (version, attributes) = split_handshake(&reply("9.9", 0xdead_beef)).unwrap();
    assert_eq!(version, b"9.9".to_vec());
    assert_eq!(attributes, 0xdead_beef);
}

#[test]
fn versions_that_are_no_text_are_made_readable() {
    let (version, _) = parse_handshake(&b"2\xff1\0\0\0\0\0".to_vec()).unwrap();
    assert_eq!(version, "2\u{fffd}1");
}

#[test]
fn an_outdated_payload_is_told_before_missing_support() {
    assert_eq!(
        classify(Some(("1".to_string(), 0)), "2", 3),
        ScriptingAdditionStatus::Outdated { payload_version: "1".to_string() }
    );
    assert_eq!(
        classify(Some(("2".to_string(), 7)), "2", 3),
        ScriptingAdditionStatus::Healthy { payload_version: "2".to_string() }
    );
}

#[test]
fn window_lists_carry_their_length() {
    let request = client().move_window_list_to_space(5, &vec![7, 8]);
    assert_eq!(request.opcode, SaOpcode::WindowListToSpace);
    let mut bytes = Vec::new();
    bytes.extend_from_slice(&5u64.to_le_bytes());
    bytes.extend_from_slice(&2u32.to_le_bytes());
    bytes.extend_from_slice(&7u32.to_le_bytes());
    bytes.extend_from_slice(&8u32.to_le_bytes());
    assert_eq!(request.payload.as_bytes(), &bytes[..]);
}

#[test]
fn a_status_is_reported() {
    let said = |s| status_report(&s, "/s", "2");
    assert_eq!(
        said(ScriptingAdditionStatus::NotLoaded),
        "scripting-addition: NOT loaded (no response on /s)"
    );
    assert_eq!(
        said(ScriptingAdditionStatus::Outdated { payload_version: "1".to_string() }),
        "scripting-addition: loaded but OUTDATED (payload v1, this build expects v2)"
    );
    assert_eq!(
        said(ScriptingAdditionStatus::MissingSupport { attributes: 0xab }),
        "scripting-addition: loaded but missing support for this macOS (attrib 0xAB)"
    );
    assert_eq!(
        said(ScriptingAdditionStatus::Healthy { payload_version: "2".to_string() }),
        "scripting-addition: loaded and healthy (payload v2)"
    );
}

#[test]
fn spaces_and_windows_are_named_in_requests() {
    let request = client().move_space_after_space(5, 6, true);
    assert_eq!(request.opcode, SaOpcode::SpaceMove);
    let mut bytes = Vec::new();
    bytes.extend_from_slice(&5u64.to_le_bytes());
    bytes.extend_from_slice(&6u64.to_le_bytes());
    bytes.extend_from_slice(&0u64.to_le_bytes());
    bytes.push(1);
    assert_eq!(request.payload.as_bytes(), &bytes[..]);

    let request = client().focus_window(9);
    assert_eq!(request.opcode, SaOpcode::WindowFocus);
    assert_eq!(request.payload.as_bytes(), &9u32.to_le_bytes());
}
