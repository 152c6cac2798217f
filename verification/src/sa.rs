//! Messages to the scripting addition, and what its handshake tells.
//!
//! A message is a 16-bit length, which counts the bytes that follow it, an
//! opcode byte and a payload. All numbers are packed with the lowest byte first.
use vstd::prelude::*;

use crate::bytes;
use crate::text;
use crate::types::Real;

verus! {

/// The bytes of a message behind the opcode.
#[derive(Debug)]
pub struct Payload {
    bytes: Vec<u8>,
}

impl View for Payload {
    type V = Seq<u8>;

    closed spec fn view(&self) -> Seq<u8> {
        self.bytes@
    }
}

/// The two's complement of a 32-bit number.
pub open spec fn pattern(value: i32) -> nat {
    if value < 0 {
        (value + 0x1_0000_0000) as nat
    } else {
        value as nat
    }
}

/// Whether a 32-bit float pattern is that of a number above zero.
pub open spec fn is_positive(bits: u32) -> bool {
    0 < bits <= 0x7f80_0000
}

impl Payload {
    /// An empty payload.
    pub fn new() -> (r: Self)
        ensures
            r@ == Seq::<u8>::empty(),
    {
        Payload { bytes: Vec::new() }
    }

    /// Pack a 32-bit number.
    pub fn u32(self, value: u32) -> (r: Self)
        ensures
            r@ == self@ + bytes::le_bytes(value as nat, 4),
    {
        let mut bytes = self.bytes;
        bytes::push_le(&mut bytes, value as u64, 4);
        Payload { bytes }
    }

    /// Pack a 64-bit number.
    pub fn u64(self, value: u64) -> (r: Self)
        ensures
            r@ == self@ + bytes::le_bytes(value as nat, 8),
    {
        let mut bytes = self.bytes;
        bytes::push_le(&mut bytes, value, 8);
        Payload { bytes }
    }

    /// Pack a signed 32-bit number.
    pub fn i32(self, value: i32) -> (r: Self)
        ensures
            r@ == self@ + bytes::le_bytes(pattern(value), 4),
    {
        let pattern: i64 = if value < 0 {
            value as i64 + 0x1_0000_0000
        } else {
            value as i64
        };
        let mut bytes = self.bytes;
        bytes::push_le(&mut bytes, pattern as u64, 4);
        Payload { bytes }
    }

    /// Pack a 32-bit float.
    pub fn float(self, value: &Real) -> (r: Self)
        ensures
            r@ == self@ + bytes::le_bytes(value.bits as nat, 4),
    {
        self.u32(value.bits)
    }

    /// Pack a truth value as one byte.
    pub fn bool(self, value: bool) -> (r: Self)
        ensures
            r@ == self@.push(
                if value {
                    1u8
                } else {
                    0u8
                },
            ),
    {
        let mut bytes = self.bytes;
        bytes.push(
            if value {
                1u8
            } else {
                0u8
            },
        );
        Payload { bytes }
    }

    /// The bytes packed so far.
    pub fn as_bytes(&self) -> (r: &[u8])
        ensures
            r@ == self@,
    {
        self.bytes.as_slice()
    }
}

/// What can be asked of the scripting addition.
#[derive(Debug, Clone, Copy, PartialEq, Eq, Structural)]
pub enum SaOpcode {
    Handshake,
    SpaceFocus,
    SpaceCreate,
    SpaceDestroy,
    SpaceMove,
    WindowMove,
    WindowOpacity,
    WindowOpacityFade,
    WindowLayer,
    WindowSticky,
    WindowShadow,
    WindowFocus,
    WindowScale,
    WindowOrder,
    WindowOrderIn,
    WindowToSpace,
    WindowListToSpace,
}

/// A request to the scripting addition.
#[derive(Debug)]
pub struct SaRequest {
    pub opcode: SaOpcode,
    pub payload: Payload,
}

/// Why a message cannot be sent.
#[derive(Debug, Clone, Copy, PartialEq, Eq, Structural)]
pub enum MessageError {
    ExceedsBuffer,
    TooLarge,
}

impl MessageError {
    /// The error in words.
    pub open spec fn text(self) -> Seq<char> {
        match self {
            MessageError::ExceedsBuffer => "scripting-addition payload exceeds socket buffer"@,
            MessageError::TooLarge => "payload too large"@,
        }
    }

    /// The error in words.
    pub fn message(self) -> (r: &'static str)
        ensures
            r@ == self.text(),
    {
        match self {
            MessageError::ExceedsBuffer => "scripting-addition payload exceeds socket buffer",
            MessageError::TooLarge => "payload too large",
        }
    }
}

/// The message with an opcode and a payload.
pub open spec fn message(opcode: u8, payload: Seq<u8>) -> Seq<u8> {
    bytes::le_bytes(1 + payload.len(), 2) + seq![opcode] + payload
}

/// The message with an opcode and a payload, for a socket buffer of the given
/// size.
pub fn frame_message(opcode: u8, payload: &[u8], buffer: usize) -> (r: Result<Vec<u8>, MessageError>)
    ensures
        payload@.len() + 3 > buffer ==> r == Err::<Vec<u8>, MessageError>(
            MessageError::ExceedsBuffer,
        ),
        payload@.len() + 3 <= buffer && payload@.len() + 1 > 0xffff ==> r == Err::<
            Vec<u8>,
            MessageError,
        >(MessageError::TooLarge),
        payload@.len() + 3 <= buffer && payload@.len() + 1 <= 0xffff ==> r is Ok && r->Ok_0@
            == message(opcode, payload@),
{
    if buffer < 3 || payload.len() > buffer - 3 {
        return Err(MessageError::ExceedsBuffer);
    }
    if payload.len() > 0xfffe {
        return Err(MessageError::TooLarge);
    }
    let mut frame: Vec<u8> = Vec::new();
    bytes::push_le(&mut frame, 1 + payload.len() as u64, 2);
    frame.push(opcode);
    let ghost head = frame@;
    let mut i: usize = 0;
    while i < payload.len()
        invariant
            i <= payload@.len(),
            frame@ == head + payload@.take(i as int),
        decreases payload@.len() - i,
    {
        frame.push(payload[i]);
        assert(payload@.take(i + 1) =~= payload@.take(i as int).push(payload@[i as int]));
        i += 1;
    }
    assert(payload@.take(payload@.len() as int) =~= payload@);
    assert(frame@ =~= message(opcode, payload@));
    Ok(frame)
}

/// A message tells its own length, its opcode and its payload.
pub proof fn law_message_reads_back(opcode: u8, payload: Seq<u8>)
    requires
        payload.len() + 1 <= 0xffff,
    ensures
        message(opcode, payload).len() == payload.len() + 3,
        bytes::le_value(message(opcode, payload).take(2)) == message(opcode, payload).len() - 2,
        message(opcode, payload)[2] == opcode,
        message(opcode, payload).skip(3) == payload,
{
    assert(bytes::limit(2) == 0x1_0000) by {
        reveal_with_fuel(bytes::limit, 3);
    }
    bytes::law_bytes_read_back(1 + payload.len(), 2);
    let m = message(opcode, payload);
    assert(m.take(2) =~= bytes::le_bytes(1 + payload.len(), 2));
    assert(m.skip(3) =~= payload);
}

/// A packed number reads back, whatever was packed before it.
pub proof fn law_packed_number_reads_back(before: Seq<u8>, value: u64)
    ensures
        bytes::le_value((before + bytes::le_bytes(value as nat, 8)).skip(before.len() as int))
            == value,
{
    assert(bytes::limit(8) == 0x1_0000_0000_0000_0000) by {
        reveal_with_fuel(bytes::limit, 9);
    }
    bytes::law_bytes_read_back(value as nat, 8);
    assert((before + bytes::le_bytes(value as nat, 8)).skip(before.len() as int)
        =~= bytes::le_bytes(value as nat, 8));
}

/// Why a handshake failed.
#[derive(Debug, Clone, Copy, PartialEq, Eq, Structural)]
pub enum HandshakeError {
    NoResponse,
    MissingTerminator,
    MissingAttributes,
}

impl HandshakeError {
    /// The error in words.
    pub open spec fn text(self) -> Seq<char> {
        match self {
            HandshakeError::NoResponse => "no handshake response"@,
            HandshakeError::MissingTerminator => "handshake response missing version terminator"@,
            HandshakeError::MissingAttributes => "handshake response missing attribute mask"@,
        }
    }

    /// The error in words.
    pub fn message(self) -> (r: &'static str)
        ensures
            r@ == self.text(),
    {
        match self {
            HandshakeError::NoResponse => "no handshake response",
            HandshakeError::MissingTerminator => "handshake response missing version terminator",
            HandshakeError::MissingAttributes => "handshake response missing attribute mask",
        }
    }
}

/// The handshake message.
pub fn handshake_request(opcode: u8) -> (r: Vec<u8>)
    ensures
        r@ == message(opcode, Seq::empty()),
{
    let r = vec![1u8, 0u8, opcode];
    assert(bytes::le_bytes(1, 2) =~= seq![1u8, 0u8]) by {
        reveal_with_fuel(bytes::le_bytes, 3);
    }
    assert(r@ =~= message(opcode, Seq::empty()));
    r
}

/// The place of the first zero byte.
pub open spec fn first_zero(s: Seq<u8>) -> Option<int>
    decreases s.len(),
{
    if s.len() == 0 {
        None
    } else {
        match first_zero(s.drop_last()) {
            Some(i) => Some(i),
            None => if s.last() == 0 {
                Some(s.len() - 1)
            } else {
                None
            },
        }
    }
}

/// The version and the attribute mask in a handshake response.
pub open spec fn handshake_parts(response: Seq<u8>) -> Result<(Seq<u8>, nat), HandshakeError> {
    if response.len() == 0 {
        Err(HandshakeError::NoResponse)
    } else {
        match first_zero(response) {
            None => Err(HandshakeError::MissingTerminator),
            Some(zero) => match bytes::le_word(response, zero + 1) {
                None => Err(HandshakeError::MissingAttributes),
                Some(attributes) => Ok((response.take(zero), attributes)),
            },
        }
    }
}

fn zero_position(response: &Vec<u8>) -> (r: Option<usize>)
    ensures
        match r {
            Some(i) => first_zero(response@) == Some(i as int) && i < response@.len(),
            None => first_zero(response@) is None,
        },
{
    let mut found: Option<usize> = None;
    let mut i: usize = 0;
    while i < response.len()
        invariant
            i <= response@.len(),
            match found {
                Some(j) => j < i && first_zero(response@.take(i as int)) == Some(j as int),
                None => first_zero(response@.take(i as int)) is None,
            },
        decreases response.len() - i,
    {
        proof {
            assert(response@.take(i + 1).drop_last() =~= response@.take(i as int));
        }
        if found.is_none() && response[i] == 0 {
            found = Some(i);
        }
        i += 1;
    }
    assert(response@.take(response@.len() as int) =~= response@);
    found
}

/// Take a handshake response apart: the bytes of the version, which end with a
/// zero byte, and the attribute mask behind it.
pub fn split_handshake(response: &Vec<u8>) -> (r: Result<(Vec<u8>, u32), HandshakeError>)
    ensures
        match handshake_parts(response@) {
            Ok((version, attributes)) => r is Ok && r->Ok_0.0@ == version && r->Ok_0.1
                == attributes,
            Err(error) => r == Err::<(Vec<u8>, u32), HandshakeError>(error),
        },
{
    if response.len() == 0 {
        return Err(HandshakeError::NoResponse);
    }
    let zero = match zero_position(response) {
        Some(zero) => zero,
        None => {
            return Err(HandshakeError::MissingTerminator);
        },
    };
    let attributes = match bytes::u32_le(response, zero + 1) {
        Some(attributes) => attributes,
        None => {
            return Err(HandshakeError::MissingAttributes);
        },
    };
    let mut version: Vec<u8> = Vec::new();
    let mut i: usize = 0;
    while i < zero
        invariant
            zero < response@.len(),
            i <= zero,
            version@ == response@.take(i as int),
        decreases zero - i,
    {
        version.push(response[i]);
        assert(response@.take(i + 1) =~= response@.take(i as int).push(response@[i as int]));
        i += 1;
    }
    Ok((version, attributes))
}

/// The version and the attribute mask in a handshake response.
pub fn parse_handshake(response: &Vec<u8>) -> (r: Result<(String, u32), HandshakeError>)
    ensures
        match handshake_parts(response@) {
            Ok((version, attributes)) => {
                &&& r is Ok
                &&& r->Ok_0.0@ == bytes::lossy_utf8(version)
                &&& vstd::utf8::valid_utf8(version) ==> r->Ok_0.0@ == vstd::utf8::decode_utf8(
                    version,
                )
                &&& r->Ok_0.1 == attributes
            },
            Err(error) => r == Err::<(String, u32), HandshakeError>(error),
        },
{
    match split_handshake(response) {
        Ok((version, attributes)) => Ok((bytes::lossy_string(version.as_slice()), attributes)),
        Err(error) => Err(error),
    }
}

proof fn lemma_no_zero(s: Seq<u8>)
    requires
        forall|i: int| 0 <= i < s.len() ==> s[i] != 0,
    ensures
        first_zero(s) is None,
    decreases s.len(),
{
    if s.len() > 0 {
        lemma_no_zero(s.drop_last());
    }
}

proof fn lemma_zero_stays(s: Seq<u8>, k: int)
    requires
        0 <= k <= s.len(),
        first_zero(s.take(k)) is Some,
    ensures
        first_zero(s) == first_zero(s.take(k)),
    decreases s.len() - k,
{
    if k == s.len() {
        assert(s.take(k) =~= s);
    } else {
        assert(s.take(k + 1).drop_last() =~= s.take(k));
        lemma_zero_stays(s, k + 1);
    }
}

/// A version without zero bytes and a mask, written one behind the other with a
/// zero byte between, are read back from the response.
pub proof fn law_handshake_reads_back(version: Seq<u8>, attributes: u32)
    requires
        forall|i: int| 0 <= i < version.len() ==> version[i] != 0,
    ensures
        handshake_parts(version + seq![0u8] + bytes::le_bytes(attributes as nat, 4)) == Ok::<
            (Seq<u8>, nat),
            HandshakeError,
        >((version, attributes as nat)),
{
    let response = version + seq![0u8] + bytes::le_bytes(attributes as nat, 4);
    let zero = version.len() as int;
    assert(bytes::limit(4) == 0x1_0000_0000) by {
        reveal_with_fuel(bytes::limit, 5);
    }
    bytes::law_bytes_read_back(attributes as nat, 4);
    let head = response.take(zero + 1);
    assert(head.drop_last() =~= version);
    lemma_no_zero(version);
    assert(first_zero(head) == Some(zero));
    lemma_zero_stays(response, zero + 1);
    assert(bytes::word_at(response, zero + 1) =~= bytes::le_bytes(attributes as nat, 4));
    assert(response.take(zero) =~= version);
}

/// How the scripting addition fares.
#[derive(Debug, PartialEq, Eq)]
pub enum ScriptingAdditionStatus {
    NotLoaded,
    Outdated { payload_version: String },
    MissingSupport { attributes: u32 },
    Healthy { payload_version: String },
}

/// How a scripting addition fares that shook hands, or not, where a version and
/// a set of attributes are expected.
pub open spec fn is_status(
    status: ScriptingAdditionStatus,
    handshake: Option<(Seq<char>, u32)>,
    version: Seq<char>,
    attributes: u32,
) -> bool {
    match handshake {
        None => status is NotLoaded,
        Some((got, mask)) => if got != version {
            status is Outdated && status->Outdated_payload_version@ == got
        } else if mask & attributes != attributes {
            status is MissingSupport && status->attributes == mask
        } else {
            status is Healthy && status->Healthy_payload_version@ == got
        },
    }
}

/// The view of a handshake.
pub open spec fn handshake_view(handshake: Option<(String, u32)>) -> Option<(Seq<char>, u32)> {
    match handshake {
        Some((version, attributes)) => Some((version@, attributes)),
        None => None,
    }
}

/// How a scripting addition fares that shook hands, or not.
pub fn classify(handshake: Option<(String, u32)>, version: &str, attributes: u32) -> (r:
    ScriptingAdditionStatus)
    ensures
        is_status(r, handshake_view(handshake), version@, attributes),
{
    match handshake {
        None => ScriptingAdditionStatus::NotLoaded,
        Some((got, mask)) => if !text::same(got.as_str(), version) {
            ScriptingAdditionStatus::Outdated { payload_version: got }
        } else if mask & attributes != attributes {
            ScriptingAdditionStatus::MissingSupport { attributes: mask }
        } else {
            ScriptingAdditionStatus::Healthy { payload_version: got }
        },
    }
}

/// Whether the scripting addition is fit for use.
pub fn is_healthy(status: &ScriptingAdditionStatus) -> (r: bool)
    ensures
        r == (status is Healthy),
{
    match status {
        ScriptingAdditionStatus::Healthy { .. } => true,
        _ => false,
    }
}

/// The socket of a user's scripting addition.
pub open spec fn socket_path_text(user: Seq<char>) -> Seq<char> {
    "/tmp/yabai-sa_"@ + user + ".socket"@
}

/// What is said of a status, with the socket asked and the version expected.
pub open spec fn report_text(
    status: ScriptingAdditionStatus,
    socket: Seq<char>,
    expected: Seq<char>,
) -> Seq<char> {
    match status {
        ScriptingAdditionStatus::NotLoaded => {
            "scripting-addition: NOT loaded (no response on "@ + socket + ")"@
        },
        ScriptingAdditionStatus::Outdated { payload_version } => {
            "scripting-addition: loaded but OUTDATED (payload v"@ + payload_version@
                + ", this build expects v"@ + expected + ")"@
        },
        ScriptingAdditionStatus::MissingSupport { attributes } => {
            "scripting-addition: loaded but missing support for this macOS (attrib 0x"@
                + text::hex_upper(attributes as nat) + ")"@
        },
        ScriptingAdditionStatus::Healthy { payload_version } => {
            "scripting-addition: loaded and healthy (payload v"@ + payload_version@ + ")"@
        },
    }
}

/// What is said of a status, with the socket asked and the version expected.
pub fn status_report(status: &ScriptingAdditionStatus, socket: &str, expected: &str) -> (r: String)
    ensures
        r@ == report_text(*status, socket@, expected@),
{
    match status {
        ScriptingAdditionStatus::NotLoaded => {
            let mut out = "scripting-addition: NOT loaded (no response on ".to_owned();
            out.append(socket);
            out.append(")");
            out
        },
        ScriptingAdditionStatus::Outdated { payload_version } => {
            let mut out = "scripting-addition: loaded but OUTDATED (payload v".to_owned();
            out.append(payload_version.as_str());
            out.append(", this build expects v");
            out.append(expected);
            out.append(")");
            out
        },
        ScriptingAdditionStatus::MissingSupport { attributes } => {
            let mut out =
                "scripting-addition: loaded but missing support for this macOS (attrib 0x".to_owned();
            text::push_hex_upper(&mut out, *attributes);
            out.append(")");
            out
        },
        ScriptingAdditionStatus::Healthy { payload_version } => {
            let mut out = "scripting-addition: loaded and healthy (payload v".to_owned();
            out.append(payload_version.as_str());
            out.append(")");
            out
        },
    }
}

/// The socket of a user's scripting addition.
pub fn socket_path_for_user(user: &str) -> (r: String)
    ensures
        r@ == socket_path_text(user@),
{
    let mut out = "/tmp/yabai-sa_".to_owned();
    out.append(user);
    out.append(".socket");
    out
}

/// A client of the scripting addition behind a socket.
#[derive(Debug)]
pub struct ScriptingAddition {
    socket_path: String,
}

/// Window ids packed one behind the other.
pub open spec fn packed_ids(ids: Seq<u32>) -> Seq<u8>
    decreases ids.len(),
{
    if ids.len() == 0 {
        Seq::empty()
    } else {
        packed_ids(ids.drop_last()) + bytes::le_bytes(ids.last() as nat, 4)
    }
}

fn pack_ids(payload: Payload, ids: &Vec<u32>) -> (r: Payload)
    ensures
        r@ == payload@ + packed_ids(ids@),
{
    let ghost before = payload@;
    let mut out = payload;
    let mut i: usize = 0;
    assert(before + packed_ids(ids@.take(0)) =~= before);
    while i < ids.len()
        invariant
            i <= ids@.len(),
            out@ == before + packed_ids(ids@.take(i as int)),
        decreases ids.len() - i,
    {
        out = out.u32(ids[i]);
        proof {
            let more = ids@.take(i + 1);
            assert(more.drop_last() =~= ids@.take(i as int));
            assert(more.last() == ids@[i as int]);
            assert(out@ =~= before + packed_ids(more));
        }
        i += 1;
    }
    assert(ids@.take(ids@.len() as int) =~= ids@);
    out
}

fn pack_count(payload: Payload, ids: &Vec<u32>) -> (r: Payload)
    ensures
        r@ == payload@ + bytes::le_bytes(ids@.len() % 0x1_0000_0000, 4),
{
    payload.u32((ids.len() as u64 % 0x1_0000_0000) as u32)
}

impl ScriptingAddition {
    /// The path of the socket.
    pub closed spec fn path(&self) -> Seq<char> {
        self.socket_path@
    }

    /// A client of the scripting addition behind a socket.
    pub fn new(socket_path: String) -> (r: Self)
        ensures
            r.path() == socket_path@,
    {
        ScriptingAddition { socket_path }
    }

    /// A client of a user's scripting addition.
    pub fn for_user(user: &str) -> (r: Self)
        ensures
            r.path() == socket_path_text(user@),
    {
        ScriptingAddition::new(socket_path_for_user(user))
    }

    /// The path of the socket.
    pub fn socket_path(&self) -> (r: &str)
        ensures
            r@ == self.path(),
    {
        self.socket_path.as_str()
    }

    /// How the scripting addition fares, by what came back from its socket:
    /// nothing, or a handshake response.
    pub fn status(&self, response: Option<&Vec<u8>>, version: &str, attributes: u32) -> (r:
        ScriptingAdditionStatus)
        ensures
            match response {
                None => r is NotLoaded,
                Some(bytes) => match handshake_parts(bytes@) {
                    Err(_) => r is NotLoaded,
                    Ok((got, mask)) => is_status(
                        r,
                        Some((bytes::lossy_utf8(got), mask as u32)),
                        version@,
                        attributes,
                    ),
                },
            },
    {
        let handshake = match response {
            None => None,
            Some(bytes) => match parse_handshake(bytes) {
                Ok(parts) => Some(parts),
                Err(_) => None,
            },
        };
        classify(handshake, version, attributes)
    }

    /// Focus a space.
    pub fn focus_space(&self, sid: u64) -> (r: SaRequest)
        ensures
            r.opcode == SaOpcode::SpaceFocus,
            r.payload@ == bytes::le_bytes(sid as nat, 8),
    {
        let payload = Payload::new().u64(sid);
        assert(payload@ =~= bytes::le_bytes(sid as nat, 8));
        SaRequest { opcode: SaOpcode::SpaceFocus, payload }
    }

    /// Create a space next to another one.
    pub fn create_space(&self, sid: u64) -> (r: SaRequest)
        ensures
            r.opcode == SaOpcode::SpaceCreate,
            r.payload@ == bytes::le_bytes(sid as nat, 8),
    {
        let payload = Payload::new().u64(sid);
        assert(payload@ =~= bytes::le_bytes(sid as nat, 8));
        SaRequest { opcode: SaOpcode::SpaceCreate, payload }
    }

    /// Destroy a space.
    pub fn destroy_space(&self, sid: u64) -> (r: SaRequest)
        ensures
            r.opcode == SaOpcode::SpaceDestroy,
            r.payload@ == bytes::le_bytes(sid as nat, 8),
    {
        let payload = Payload::new().u64(sid);
        assert(payload@ =~= bytes::le_bytes(sid as nat, 8));
        SaRequest { opcode: SaOpcode::SpaceDestroy, payload }
    }

    /// Move a space to the display of another one.
    pub fn move_space_to_display(
        &self,
        src_sid: u64,
        dst_sid: u64,
        src_prev_sid: u64,
        focus: bool,
    ) -> (r: SaRequest)
        ensures
            r.opcode == SaOpcode::SpaceMove,
            r.payload@ == (bytes::le_bytes(src_sid as nat, 8) + bytes::le_bytes(dst_sid as nat, 8)
                + bytes::le_bytes(src_prev_sid as nat, 8)).push(
                if focus {
                    1u8
                } else {
                    0u8
                },
            ),
    {
        let first = Payload::new().u64(src_sid);
        assert(first@ =~= bytes::le_bytes(src_sid as nat, 8));
        let payload = first.u64(dst_sid).u64(src_prev_sid).bool(focus);
        SaRequest { opcode: SaOpcode::SpaceMove, payload }
    }

    /// Put a space behind another one.
    pub fn move_space_after_space(&self, src_sid: u64, dst_sid: u64, focus: bool) -> (r: SaRequest)
        ensures
            r.opcode == SaOpcode::SpaceMove,
            r.payload@ == (bytes::le_bytes(src_sid as nat, 8) + bytes::le_bytes(dst_sid as nat, 8)
                + bytes::le_bytes(0, 8)).push(
                if focus {
                    1u8
                } else {
                    0u8
                },
            ),
    {
        self.move_space_to_display(src_sid, dst_sid, 0, focus)
    }

    /// Move a window to a point.
    pub fn move_window(&self, wid: u32, x: i32, y: i32) -> (r: SaRequest)
        ensures
            r.opcode == SaOpcode::WindowMove,
            r.payload@ == bytes::le_bytes(wid as nat, 4) + bytes::le_bytes(pattern(x), 4)
                + bytes::le_bytes(pattern(y), 4),
    {
        let first = Payload::new().u32(wid);
        assert(first@ =~= bytes::le_bytes(wid as nat, 4));
        SaRequest { opcode: SaOpcode::WindowMove, payload: first.i32(x).i32(y) }
    }

    /// Set the opacity of a window, at once or over a while.
    pub fn set_opacity(&self, wid: u32, opacity: &Real, duration: &Real) -> (r: SaRequest)
        ensures
            r.opcode == (if is_positive(duration.bits) {
                SaOpcode::WindowOpacityFade
            } else {
                SaOpcode::WindowOpacity
            }),
            r.payload@ == bytes::le_bytes(wid as nat, 4) + bytes::le_bytes(opacity.bits as nat, 4)
                + bytes::le_bytes(duration.bits as nat, 4),
    {
        let opcode = if 0 < duration.bits && duration.bits <= 0x7f80_0000 {
            SaOpcode::WindowOpacityFade
        } else {
            SaOpcode::WindowOpacity
        };
        let first = Payload::new().u32(wid);
        assert(first@ =~= bytes::le_bytes(wid as nat, 4));
        SaRequest { opcode, payload: first.float(opacity).float(duration) }
    }

    /// Put a window on a layer.
    pub fn set_layer(&self, wid: u32, layer: i32) -> (r: SaRequest)
        ensures
            r.opcode == SaOpcode::WindowLayer,
            r.payload@ == bytes::le_bytes(wid as nat, 4) + bytes::le_bytes(pattern(layer), 4),
    {
        let first = Payload::new().u32(wid);
        assert(first@ =~= bytes::le_bytes(wid as nat, 4));
        SaRequest { opcode: SaOpcode::WindowLayer, payload: first.i32(layer) }
    }

    /// Show a window on every space, or on its own only.
    pub fn set_sticky(&self, wid: u32, sticky: bool) -> (r: SaRequest)
        ensures
            r.opcode == SaOpcode::WindowSticky,
            r.payload@ == bytes::le_bytes(wid as nat, 4).push(
                if sticky {
                    1u8
                } else {
                    0u8
                },
            ),
    {
        let first = Payload::new().u32(wid);
        assert(first@ =~= bytes::le_bytes(wid as nat, 4));
        SaRequest { opcode: SaOpcode::WindowSticky, payload: first.bool(sticky) }
    }

    /// Give a window a shadow, or take it.
    pub fn set_shadow(&self, wid: u32, shadow: bool) -> (r: SaRequest)
        ensures
            r.opcode == SaOpcode::WindowShadow,
            r.payload@ == bytes::le_bytes(wid as nat, 4).push(
                if shadow {
                    1u8
                } else {
                    0u8
                },
            ),
    {
        let first = Payload::new().u32(wid);
        assert(first@ =~= bytes::le_bytes(wid as nat, 4));
        SaRequest { opcode: SaOpcode::WindowShadow, payload: first.bool(shadow) }
    }

    /// Focus a window.
    pub fn focus_window(&self, wid: u32) -> (r: SaRequest)
        ensures
            r.opcode == SaOpcode::WindowFocus,
            r.payload@ == bytes::le_bytes(wid as nat, 4),
    {
        let first = Payload::new().u32(wid);
        assert(first@ =~= bytes::le_bytes(wid as nat, 4));
        SaRequest { opcode: SaOpcode::WindowFocus, payload: first }
    }

    /// Scale a window into an area.
    pub fn scale_window(&self, wid: u32, x: &Real, y: &Real, w: &Real, h: &Real) -> (r: SaRequest)
        ensures
            r.opcode == SaOpcode::WindowScale,
            r.payload@ == bytes::le_bytes(wid as nat, 4) + bytes::le_bytes(x.bits as nat, 4)
                + bytes::le_bytes(y.bits as nat, 4) + bytes::le_bytes(w.bits as nat, 4)
                + bytes::le_bytes(h.bits as nat, 4),
    {
        let first = Payload::new().u32(wid);
        assert(first@ =~= bytes::le_bytes(wid as nat, 4));
        SaRequest { opcode: SaOpcode::WindowScale, payload: first.float(x).float(y).float(w).float(h) }
    }

    /// Order a window above (1) or below (-1) another one, or out (0).
    pub fn order_window(&self, a_wid: u32, order: i32, b_wid: u32) -> (r: SaRequest)
        ensures
            r.opcode == SaOpcode::WindowOrder,
            r.payload@ == bytes::le_bytes(a_wid as nat, 4) + bytes::le_bytes(pattern(order), 4)
                + bytes::le_bytes(b_wid as nat, 4),
    {
        let first = Payload::new().u32(a_wid);
        assert(first@ =~= bytes::le_bytes(a_wid as nat, 4));
        SaRequest { opcode: SaOpcode::WindowOrder, payload: first.i32(order).u32(b_wid) }
    }

    /// Order windows in.
    pub fn order_window_in(&self, window_list: &Vec<u32>) -> (r: SaRequest)
        ensures
            r.opcode == SaOpcode::WindowOrderIn,
            r.payload@ == bytes::le_bytes(window_list@.len() % 0x1_0000_0000, 4) + packed_ids(
                window_list@,
            ),
    {
        let first = pack_count(Payload::new(), window_list);
        assert(first@ =~= bytes::le_bytes(window_list@.len() % 0x1_0000_0000, 4));
        SaRequest { opcode: SaOpcode::WindowOrderIn, payload: pack_ids(first, window_list) }
    }

    /// Move a window to a space.
    pub fn move_window_to_space(&self, sid: u64, wid: u32) -> (r: SaRequest)
        ensures
            r.opcode == SaOpcode::WindowToSpace,
            r.payload@ == bytes::le_bytes(sid as nat, 8) + bytes::le_bytes(wid as nat, 4),
    {
        let first = Payload::new().u64(sid);
        assert(first@ =~= bytes::le_bytes(sid as nat, 8));
        SaRequest { opcode: SaOpcode::WindowToSpace, payload: first.u32(wid) }
    }

    /// Move windows to a space.
    pub fn move_window_list_to_space(&self, sid: u64, window_list: &Vec<u32>) -> (r: SaRequest)
        ensures
            r.opcode == SaOpcode::WindowListToSpace,
            r.payload@ == bytes::le_bytes(sid as nat, 8) + bytes::le_bytes(
                window_list@.len() % 0x1_0000_0000,
                4,
            ) + packed_ids(window_list@),
    {
        let first = Payload::new().u64(sid);
        assert(first@ =~= bytes::le_bytes(sid as nat, 8));
        let counted = pack_count(first, window_list);
        SaRequest { opcode: SaOpcode::WindowListToSpace, payload: pack_ids(counted, window_list) }
    }
}

/// The place of the first zero byte: it is zero, and none before it is.
pub proof fn law_first_zero(s: Seq<u8>)
    ensures
        match first_zero(s) {
            Some(i) => 0 <= i < s.len() && s[i] == 0 && forall|j: int|
                0 <= j < i ==> #[trigger] s[j] != 0,
            None => forall|j: int| 0 <= j < s.len() ==> #[trigger] s[j] != 0,
        },
    decreases s.len(),
{
    if s.len() > 0 {
        let less = s.drop_last();
        law_first_zero(less);
        assert forall|j: int| 0 <= j < less.len() implies #[trigger] s[j] == less[j] by {}
        assert(s.last() == s[s.len() - 1]);
    }
}

/// Why a handshake response cannot be read: it is empty, its version does not end, or
/// its mask is cut off.
pub proof fn law_bad_handshakes(response: Seq<u8>, zero: int)
    ensures
        response.len() == 0 ==> handshake_parts(response) == Err::<
            (Seq<u8>, nat),
            HandshakeError,
        >(HandshakeError::NoResponse),
        response.len() > 0 && (forall|j: int| 0 <= j < response.len() ==> #[trigger] response[j]
            != 0) ==> handshake_parts(response) == Err::<(Seq<u8>, nat), HandshakeError>(
            HandshakeError::MissingTerminator,
        ),
        0 <= zero < response.len() && response[zero] == 0 && (forall|j: int|
            0 <= j < zero ==> #[trigger] response[j] != 0) && response.len() < zero + 5
            ==> handshake_parts(response) == Err::<(Seq<u8>, nat), HandshakeError>(
            HandshakeError::MissingAttributes,
        ),
{
    law_first_zero(response);
}

/// A scripting addition that does not answer is not loaded; one of another version is
/// outdated; one without every attribute expected lacks support; any other is healthy.
pub proof fn law_statuses(
    status: ScriptingAdditionStatus,
    got: Seq<char>,
    mask: u32,
    version: Seq<char>,
    attributes: u32,
)
    ensures
        is_status(status, None, version, attributes) ==> status is NotLoaded,
        is_status(status, Some((got, mask)), version, attributes) ==> {
            &&& got != version ==> status is Outdated && status->Outdated_payload_version@ == got
            &&& got == version && mask & attributes != attributes ==> status is MissingSupport
                && status->attributes == mask
            &&& got == version && mask & attributes == attributes ==> status is Healthy
                && status->Healthy_payload_version@ == got
        },
{
}

/// Packed ids are four bytes each, one behind the other, and read back in order.
pub proof fn law_packed_ids_read_back(ids: Seq<u32>, i: int)
    requires
        0 <= i < ids.len(),
    ensures
        packed_ids(ids).len() == 4 * ids.len(),
        bytes::le_value(packed_ids(ids).subrange(4 * i, 4 * i + 4)) == ids[i],
    decreases ids.len(),
{
    let less = ids.drop_last();
    let last = bytes::le_bytes(ids.last() as nat, 4);
    bytes::law_numbers_read_back(ids.last(), 0);
    lemma_packed_len(less);
    if i < less.len() {
        law_packed_ids_read_back(less, i);
        assert((packed_ids(less) + last).subrange(4 * i, 4 * i + 4) =~= packed_ids(less).subrange(
            4 * i,
            4 * i + 4,
        ));
    } else {
        assert((packed_ids(less) + last).subrange(4 * i, 4 * i + 4) =~= last);
    }
}

proof fn lemma_packed_len(ids: Seq<u32>)
    ensures
        packed_ids(ids).len() == 4 * ids.len(),
    decreases ids.len(),
{
    if ids.len() > 0 {
        lemma_packed_len(ids.drop_last());
        bytes::law_numbers_read_back(ids.last(), 0);
    }
}

/// A pattern is positive if it is that of a number above zero: its sign bit is clear,
/// it is not zero, and it is not beyond infinity.
pub proof fn law_positive_patterns(bits: u32)
    ensures
        bits == 0 ==> !is_positive(bits),
        bits >= 0x8000_0000 ==> !is_positive(bits),
        0 < bits < 0x7f80_0000 ==> is_positive(bits),
        bits > 0x7f80_0000 ==> !is_positive(bits),
{
}

/// What is said of each status.
pub proof fn law_reports(socket: Seq<char>, expected: Seq<char>, version: String, attributes: u32)
    ensures
        report_text(ScriptingAdditionStatus::NotLoaded, socket, expected)
            == "scripting-addition: NOT loaded (no response on "@ + socket + ")"@,
        report_text(
            ScriptingAdditionStatus::Outdated { payload_version: version },
            socket,
            expected,
        ) == "scripting-addition: loaded but OUTDATED (payload v"@ + version@
            + ", this build expects v"@ + expected + ")"@,
        report_text(ScriptingAdditionStatus::MissingSupport { attributes }, socket, expected)
            == "scripting-addition: loaded but missing support for this macOS (attrib 0x"@
            + text::hex_upper(attributes as nat) + ")"@,
        report_text(
            ScriptingAdditionStatus::Healthy { payload_version: version },
            socket,
            expected,
        ) == "scripting-addition: loaded and healthy (payload v"@ + version@ + ")"@,
{
}

/// A request about one space tells that space, each with its own opcode.
pub proof fn law_space_requests(
    client: &ScriptingAddition,
    sid: u64,
    focus: SaRequest,
    create: SaRequest,
    destroy: SaRequest,
)
    requires
        call_ensures(ScriptingAddition::focus_space, (client, sid), focus),
        call_ensures(ScriptingAddition::create_space, (client, sid), create),
        call_ensures(ScriptingAddition::destroy_space, (client, sid), destroy),
    ensures
        focus.opcode == SaOpcode::SpaceFocus,
        create.opcode == SaOpcode::SpaceCreate,
        destroy.opcode == SaOpcode::SpaceDestroy,
        focus.payload@.len() == 8,
        bytes::le_value(focus.payload@) == sid,
        create.payload@ == focus.payload@,
        destroy.payload@ == focus.payload@,
{
    bytes::law_numbers_read_back(0, sid);
}

/// A request to move a space tells the space, the one it goes behind or whose display
/// it goes to, the one to be shown where it leaves, or zero, and whether to focus it.
pub proof fn law_space_move_requests(
    client: &ScriptingAddition,
    src: u64,
    dst: u64,
    prev: u64,
    focus: bool,
    to_display: SaRequest,
    behind: SaRequest,
)
    requires
        call_ensures(
            ScriptingAddition::move_space_to_display,
            (client, src, dst, prev, focus),
            to_display,
        ),
        call_ensures(ScriptingAddition::move_space_after_space, (client, src, dst, focus), behind),
    ensures
        ({
            let p = to_display.payload@;
            &&& to_display.opcode == SaOpcode::SpaceMove
            &&& p.len() == 25
            &&& bytes::le_value(p.subrange(0, 8)) == src
            &&& bytes::le_value(p.subrange(8, 16)) == dst
            &&& bytes::le_value(p.subrange(16, 24)) == prev
            &&& focus ==> p[24] == 1
            &&& !focus ==> p[24] == 0
        }),
        ({
            let p = behind.payload@;
            &&& behind.opcode == SaOpcode::SpaceMove
            &&& p.len() == 25
            &&& bytes::le_value(p.subrange(0, 8)) == src
            &&& bytes::le_value(p.subrange(8, 16)) == dst
            &&& bytes::le_value(p.subrange(16, 24)) == 0
            &&& focus ==> p[24] == 1
            &&& !focus ==> p[24] == 0
        }),
{
    let a = bytes::le_bytes(src as nat, 8);
    let b = bytes::le_bytes(dst as nat, 8);
    let c = bytes::le_bytes(prev as nat, 8);
    let z = bytes::le_bytes(0, 8);
    bytes::law_numbers_read_back(0, src);
    bytes::law_numbers_read_back(0, dst);
    bytes::law_numbers_read_back(0, prev);
    bytes::law_numbers_read_back(0, 0);
    let p = to_display.payload@;
    assert(p.subrange(0, 8) =~= a);
    assert(p.subrange(8, 16) =~= b);
    assert(p.subrange(16, 24) =~= c);
    let q = behind.payload@;
    assert(q.subrange(0, 8) =~= a);
    assert(q.subrange(8, 16) =~= b);
    assert(q.subrange(16, 24) =~= z);
}

/// A request about one window tells that window first, then what is asked of it.
pub proof fn law_window_requests(
    client: &ScriptingAddition,
    wid: u32,
    layer: i32,
    on: bool,
    focus: SaRequest,
    put: SaRequest,
    stick: SaRequest,
    shade: SaRequest,
)
    requires
        call_ensures(ScriptingAddition::focus_window, (client, wid), focus),
        call_ensures(ScriptingAddition::set_layer, (client, wid, layer), put),
        call_ensures(ScriptingAddition::set_sticky, (client, wid, on), stick),
        call_ensures(ScriptingAddition::set_shadow, (client, wid, on), shade),
    ensures
        focus.opcode == SaOpcode::WindowFocus,
        bytes::le_value(focus.payload@) == wid,
        put.opcode == SaOpcode::WindowLayer,
        put.payload@.len() == 8,
        bytes::le_value(put.payload@.subrange(0, 4)) == wid,
        layer >= 0 ==> bytes::le_value(put.payload@.subrange(4, 8)) == layer,
        layer < 0 ==> bytes::le_value(put.payload@.subrange(4, 8)) == layer + 0x1_0000_0000,
        stick.opcode == SaOpcode::WindowSticky,
        shade.opcode == SaOpcode::WindowShadow,
        stick.payload@.len() == 5,
        bytes::le_value(stick.payload@.subrange(0, 4)) == wid,
        on ==> stick.payload@[4] == 1,
        !on ==> stick.payload@[4] == 0,
        shade.payload@ == stick.payload@,
{
    let a = bytes::le_bytes(wid as nat, 4);
    let b = bytes::le_bytes(pattern(layer), 4);
    bytes::law_numbers_read_back(wid, 0);
    bytes::law_numbers_read_back(pattern(layer) as u32, 0);
    assert(put.payload@.subrange(0, 4) =~= a);
    assert(put.payload@.subrange(4, 8) =~= b);
    assert(stick.payload@.subrange(0, 4) =~= a);
}

/// A request to move a window tells the window, then where to, across and down.
pub proof fn law_window_move_requests(
    client: &ScriptingAddition,
    wid: u32,
    x: i32,
    y: i32,
    sid: u64,
    to_point: SaRequest,
    to_space: SaRequest,
)
    requires
        call_ensures(ScriptingAddition::move_window, (client, wid, x, y), to_point),
        call_ensures(ScriptingAddition::move_window_to_space, (client, sid, wid), to_space),
    ensures
        ({
            let p = to_point.payload@;
            &&& to_point.opcode == SaOpcode::WindowMove
            &&& p.len() == 12
            &&& bytes::le_value(p.subrange(0, 4)) == wid
            &&& x >= 0 ==> bytes::le_value(p.subrange(4, 8)) == x
            &&& x < 0 ==> bytes::le_value(p.subrange(4, 8)) == x + 0x1_0000_0000
            &&& y >= 0 ==> bytes::le_value(p.subrange(8, 12)) == y
            &&& y < 0 ==> bytes::le_value(p.subrange(8, 12)) == y + 0x1_0000_0000
        }),
        ({
            let p = to_space.payload@;
            &&& to_space.opcode == SaOpcode::WindowToSpace
            &&& p.len() == 12
            &&& bytes::le_value(p.subrange(0, 8)) == sid
            &&& bytes::le_value(p.subrange(8, 12)) == wid
        }),
{
    let a = bytes::le_bytes(wid as nat, 4);
    let b = bytes::le_bytes(pattern(x), 4);
    let c = bytes::le_bytes(pattern(y), 4);
    let d = bytes::le_bytes(sid as nat, 8);
    bytes::law_numbers_read_back(wid, sid);
    bytes::law_numbers_read_back(pattern(x) as u32, 0);
    bytes::law_numbers_read_back(pattern(y) as u32, 0);
    let p = to_point.payload@;
    assert(p.subrange(0, 4) =~= a);
    assert(p.subrange(4, 8) =~= b);
    assert(p.subrange(8, 12) =~= c);
    let q = to_space.payload@;
    assert(q.subrange(0, 8) =~= d);
    assert(q.subrange(8, 12) =~= a);
}

/// A request to order a window tells the window, how, and against which; one to scale
/// it tells the window and the area; one to set its opacity the opacity and how long.
pub proof fn law_window_shape_requests(
    client: &ScriptingAddition,
    wid: u32,
    how: i32,
    other: u32,
    x: &Real,
    y: &Real,
    w: &Real,
    h: &Real,
    order: SaRequest,
    scale: SaRequest,
    fade: SaRequest,
)
    requires
        call_ensures(ScriptingAddition::order_window, (client, wid, how, other), order),
        call_ensures(ScriptingAddition::scale_window, (client, wid, x, y, w, h), scale),
        call_ensures(ScriptingAddition::set_opacity, (client, wid, x, y), fade),
    ensures
        ({
            let p = order.payload@;
            &&& order.opcode == SaOpcode::WindowOrder
            &&& p.len() == 12
            &&& bytes::le_value(p.subrange(0, 4)) == wid
            &&& how >= 0 ==> bytes::le_value(p.subrange(4, 8)) == how
            &&& how < 0 ==> bytes::le_value(p.subrange(4, 8)) == how + 0x1_0000_0000
            &&& bytes::le_value(p.subrange(8, 12)) == other
        }),
        ({
            let p = scale.payload@;
            &&& scale.opcode == SaOpcode::WindowScale
            &&& p.len() == 20
            &&& bytes::le_value(p.subrange(0, 4)) == wid
            &&& bytes::le_value(p.subrange(4, 8)) == x.bits
            &&& bytes::le_value(p.subrange(8, 12)) == y.bits
            &&& bytes::le_value(p.subrange(12, 16)) == w.bits
            &&& bytes::le_value(p.subrange(16, 20)) == h.bits
        }),
        ({
            let p = fade.payload@;
            &&& is_positive(y.bits) ==> fade.opcode == SaOpcode::WindowOpacityFade
            &&& !is_positive(y.bits) ==> fade.opcode == SaOpcode::WindowOpacity
            &&& p.len() == 12
            &&& bytes::le_value(p.subrange(0, 4)) == wid
            &&& bytes::le_value(p.subrange(4, 8)) == x.bits
            &&& bytes::le_value(p.subrange(8, 12)) == y.bits
        }),
{
    let a = bytes::le_bytes(wid as nat, 4);
    let b = bytes::le_bytes(pattern(how), 4);
    let c = bytes::le_bytes(other as nat, 4);
    let xs = bytes::le_bytes(x.bits as nat, 4);
    let ys = bytes::le_bytes(y.bits as nat, 4);
    let ws = bytes::le_bytes(w.bits as nat, 4);
    let hs = bytes::le_bytes(h.bits as nat, 4);
    bytes::law_numbers_read_back(wid, 0);
    bytes::law_numbers_read_back(pattern(how) as u32, 0);
    bytes::law_numbers_read_back(other, 0);
    bytes::law_numbers_read_back(x.bits, 0);
    bytes::law_numbers_read_back(y.bits, 0);
    bytes::law_numbers_read_back(w.bits, 0);
    bytes::law_numbers_read_back(h.bits, 0);
    let p = order.payload@;
    assert(p.subrange(0, 4) =~= a);
    assert(p.subrange(4, 8) =~= b);
    assert(p.subrange(8, 12) =~= c);
    let q = scale.payload@;
    assert(q.subrange(0, 4) =~= a);
    assert(q.subrange(4, 8) =~= xs);
    assert(q.subrange(8, 12) =~= ys);
    assert(q.subrange(12, 16) =~= ws);
    assert(q.subrange(16, 20) =~= hs);
    let o = fade.payload@;
    assert(o.subrange(0, 4) =~= a);
    assert(o.subrange(4, 8) =~= xs);
    assert(o.subrange(8, 12) =~= ys);
}

/// A request about several windows tells how many they are, and then each, in order;
/// one that moves them tells the space first.
pub proof fn law_window_list_requests(
    client: &ScriptingAddition,
    sid: u64,
    list: &Vec<u32>,
    i: int,
    order_in: SaRequest,
    to_space: SaRequest,
)
    requires
        call_ensures(ScriptingAddition::order_window_in, (client, list), order_in),
        call_ensures(ScriptingAddition::move_window_list_to_space, (client, sid, list), to_space),
        list@.len() < 0x1_0000_0000,
        0 <= i < list@.len(),
    ensures
        ({
            let p = order_in.payload@;
            &&& order_in.opcode == SaOpcode::WindowOrderIn
            &&& p.len() == 4 + 4 * list@.len()
            &&& bytes::le_value(p.subrange(0, 4)) == list@.len()
            &&& bytes::le_value(p.subrange(4 + 4 * i, 8 + 4 * i)) == list@[i]
        }),
        ({
            let p = to_space.payload@;
            &&& to_space.opcode == SaOpcode::WindowListToSpace
            &&& p.len() == 12 + 4 * list@.len()
            &&& bytes::le_value(p.subrange(0, 8)) == sid
            &&& bytes::le_value(p.subrange(8, 12)) == list@.len()
            &&& bytes::le_value(p.subrange(12 + 4 * i, 16 + 4 * i)) == list@[i]
        }),
{
    let n = list@.len();
    let count = bytes::le_bytes(n % 0x1_0000_0000, 4);
    let first = bytes::le_bytes(sid as nat, 8);
    let ids = packed_ids(list@);
    assert(n % 0x1_0000_0000 == n);
    bytes::law_numbers_read_back(n as u32, sid);
    law_packed_ids_read_back(list@, i);
    let p = order_in.payload@;
    assert(p.subrange(0, 4) =~= count);
    assert(p.subrange(4 + 4 * i, 8 + 4 * i) =~= ids.subrange(4 * i, 4 * i + 4));
    let q = to_space.payload@;
    assert(q.subrange(0, 8) =~= first);
    assert(q.subrange(8, 12) =~= count);
    assert(q.subrange(12 + 4 * i, 16 + 4 * i) =~= ids.subrange(4 * i, 4 * i + 4));
}

/// The socket of a user is named after them, and a client of a user asks it.
pub proof fn law_socket_of_a_user(user: &str, client: ScriptingAddition, path: String)
    requires
        call_ensures(ScriptingAddition::for_user, (user,), client),
        call_ensures(socket_path_for_user, (user,), path),
    ensures
        path@ == "/tmp/yabai-sa_"@ + user@ + ".socket"@,
        client.path() == path@,
{
}

} // verus!
