//! The Duka/Blauberg UDP binary protocol: packet construction and parsing.
//!
//! Packet format (outgoing):
//!   0xFD 0xFD | type (1) | device_id (len-prefixed) | password (len-prefixed)
//!   | function (1) | data (n) | checksum (2, little-endian 16-bit sum)
//!
//! The checksum is the sum, modulo 2^16, of every byte after the two start bytes.
use vstd::arithmetic::div_mod::lemma_add_mod_noop_right;
use vstd::prelude::*;
use vstd::string::StringSliceAdditionalSpecFns;

verus! {

/// Value of each of the two bytes that open every packet.
pub const PACKET_START: u8 = 0xFD;

/// Protocol type byte that follows the start bytes.
pub const PACKET_TYPE: u8 = 0x02;

// ── Enums ────────────────────────────────────────────────────────────────────

/// The function byte of a packet.
#[derive(Debug, Clone, Copy, PartialEq, Eq, Structural)]
pub enum PacketFunction {
    Read,
    Write,
    WriteRead,
    Increase,
    Decrease,
    Response,
}

impl PacketFunction {
    /// Wire code of the function.
    pub open spec fn spec_code(self) -> u8 {
        match self {
            PacketFunction::Read => 0x01,
            PacketFunction::Write => 0x02,
            PacketFunction::WriteRead => 0x03,
            PacketFunction::Increase => 0x04,
            PacketFunction::Decrease => 0x05,
            PacketFunction::Response => 0x06,
        }
    }

    /// Wire code of the function.
    #[verifier::when_used_as_spec(spec_code)]
    pub fn code(self) -> (c: u8)
        ensures
            c == self.spec_code(),
    {
        match self {
            PacketFunction::Read => 0x01,
            PacketFunction::Write => 0x02,
            PacketFunction::WriteRead => 0x03,
            PacketFunction::Increase => 0x04,
            PacketFunction::Decrease => 0x05,
            PacketFunction::Response => 0x06,
        }
    }
}

/// A device parameter addressed in the data part of a packet.
#[derive(Debug, Clone, Copy, PartialEq, Eq, Structural)]
pub enum PacketParameter {
    OnOff,
    Speed,
    CurrentHumidity,
    ManualSpeed,
    Fan1Rpm,
    FilterTimer,
    Search,
    ResetAlarms,
    ReadAlarm,
    ReadFirmwareVersion,
    FilterAlarm,
    VentilationMode,
    UnitType,
}

impl PacketParameter {
    /// Wire code of the parameter.
    pub open spec fn spec_code(self) -> u8 {
        match self {
            PacketParameter::OnOff => 0x01,
            PacketParameter::Speed => 0x02,
            PacketParameter::CurrentHumidity => 0x25,
            PacketParameter::ManualSpeed => 0x44,
            PacketParameter::Fan1Rpm => 0x4A,
            PacketParameter::FilterTimer => 0x64,
            PacketParameter::Search => 0x7C,
            PacketParameter::ResetAlarms => 0x80,
            PacketParameter::ReadAlarm => 0x83,
            PacketParameter::ReadFirmwareVersion => 0x86,
            PacketParameter::FilterAlarm => 0x88,
            PacketParameter::VentilationMode => 0xB7,
            PacketParameter::UnitType => 0xB9,
        }
    }

    /// Wire code of the parameter.
    #[verifier::when_used_as_spec(spec_code)]
    pub fn code(self) -> (c: u8)
        ensures
            c == self.spec_code(),
    {
        match self {
            PacketParameter::OnOff => 0x01,
            PacketParameter::Speed => 0x02,
            PacketParameter::CurrentHumidity => 0x25,
            PacketParameter::ManualSpeed => 0x44,
            PacketParameter::Fan1Rpm => 0x4A,
            PacketParameter::FilterTimer => 0x64,
            PacketParameter::Search => 0x7C,
            PacketParameter::ResetAlarms => 0x80,
            PacketParameter::ReadAlarm => 0x83,
            PacketParameter::ReadFirmwareVersion => 0x86,
            PacketParameter::FilterAlarm => 0x88,
            PacketParameter::VentilationMode => 0xB7,
            PacketParameter::UnitType => 0xB9,
        }
    }
}

/// Ventilation mode of a unit.
#[derive(Debug, Clone, Copy, PartialEq, Eq, Structural)]
pub enum DeviceMode {
    OneWay,
    TwoWay,
    In,
}

impl DeviceMode {
    /// Wire code of the mode.
    pub open spec fn spec_code(self) -> u8 {
        match self {
            DeviceMode::OneWay => 0x00,
            DeviceMode::TwoWay => 0x01,
            DeviceMode::In => 0x02,
        }
    }

    /// Wire code of the mode.
    #[verifier::when_used_as_spec(spec_code)]
    pub fn code(self) -> (c: u8)
        ensures
            c == self.spec_code(),
    {
        match self {
            DeviceMode::OneWay => 0x00,
            DeviceMode::TwoWay => 0x01,
            DeviceMode::In => 0x02,
        }
    }
}

/// The mode whose wire code is `v`, if any.
pub open spec fn mode_from_code(v: u8) -> Option<DeviceMode> {
    if v == 0x00 {
        Some(DeviceMode::OneWay)
    } else if v == 0x01 {
        Some(DeviceMode::TwoWay)
    } else if v == 0x02 {
        Some(DeviceMode::In)
    } else {
        None
    }
}

impl TryFrom<u8> for DeviceMode {
    type Error = u8;

    /// Decodes a mode byte; an unknown byte is handed back as the error.
    fn try_from(v: u8) -> (r: Result<Self, u8>) {
        if v == 0x00 {
            Ok(DeviceMode::OneWay)
        } else if v == 0x01 {
            Ok(DeviceMode::TwoWay)
        } else if v == 0x02 {
            Ok(DeviceMode::In)
        } else {
            Err(v)
        }
    }
}

impl vstd::std_specs::convert::TryFromSpecImpl<u8> for DeviceMode {
    open spec fn obeys_try_from_spec() -> bool {
        true
    }

    open spec fn try_from_spec(v: u8) -> Result<Self, u8> {
        match mode_from_code(v) {
            Some(m) => Ok(m),
            None => Err(v),
        }
    }
}

/// Decoding the code of a mode gives the mode back, and every byte that decodes
/// to a mode is that mode's code.
pub proof fn lemma_mode_code_roundtrip(mode: DeviceMode, v: u8)
    ensures
        mode_from_code(mode.spec_code()) == Some(mode),
        mode_from_code(v) matches Some(m) ==> m.spec_code() == v,
{
}

// ── Checksums ────────────────────────────────────────────────────────────────

/// Sum of the bytes of `s`.
pub open spec fn byte_sum(s: Seq<u8>) -> nat
    decreases s.len(),
{
    if s.len() == 0 {
        0
    } else {
        byte_sum(s.drop_last()) + s.last() as nat
    }
}

/// 16-bit checksum of `s`: the sum of its bytes modulo 2^16.
pub open spec fn checksum(s: Seq<u8>) -> u16 {
    (byte_sum(s) % 0x10000) as u16
}

/// Little-endian encoding of a 16-bit value.
pub open spec fn le_bytes(v: u16) -> Seq<u8> {
    seq![(v % 256) as u8, (v / 256) as u8]
}

/// The 16-bit value whose little-endian encoding is `lo, hi`.
pub open spec fn le_value(lo: u8, hi: u8) -> u16 {
    (lo + 256 * hi) as u16
}

/// `buf` ends in two checksum bytes that match the bytes between the two start
/// bytes and the checksum.
pub open spec fn checksum_valid(buf: Seq<u8>) -> bool {
    &&& buf.len() >= 4
    &&& checksum(buf.subrange(2, buf.len() - 2)) == le_value(
        buf[buf.len() - 2],
        buf[buf.len() - 1],
    )
}

/// Decoding a little-endian encoding gives the value back.
pub proof fn lemma_le_roundtrip(v: u16)
    ensures
        le_value(le_bytes(v)[0], le_bytes(v)[1]) == v,
{
}

/// Sum, modulo 2^16, of `s[from..to]`.
fn checksum_of(s: &[u8], from: usize, to: usize) -> (c: u16)
    requires
        from <= to <= s@.len(),
    ensures
        c == checksum(s@.subrange(from as int, to as int)),
{
    let mut sum: u16 = 0;
    let mut i = from;
    assert(s@.subrange(from as int, from as int).len() == 0);
    while i < to
        invariant
            from <= i <= to <= s@.len(),
            sum == checksum(s@.subrange(from as int, i as int)),
        decreases to - i,
    {
        let ghost prev = s@.subrange(from as int, i as int);
        let ghost next = s@.subrange(from as int, i + 1);
        assert(next.drop_last() =~= prev);
        assert(next.last() == s@[i as int]);
        proof {
            lemma_add_mod_noop_right(s@[i as int] as int, byte_sum(prev) as int, 0x10000);
        }
        sum = ((sum as u32 + s[i] as u32) % 0x10000) as u16;
        i = i + 1;
    }
    sum
}

// ── Packet construction ───────────────────────────────────────────────────────

/// Everything between the start bytes and the checksum.
pub open spec fn packet_body(
    device_id: Seq<u8>,
    password: Seq<u8>,
    function: PacketFunction,
    data: Seq<u8>,
) -> Seq<u8> {
    seq![PACKET_TYPE, device_id.len() as u8] + device_id + seq![password.len() as u8] + password
        + seq![function.spec_code()] + data
}

/// The full packet: start bytes, body, checksum of the body.
pub open spec fn packet_bytes(
    device_id: Seq<u8>,
    password: Seq<u8>,
    function: PacketFunction,
    data: Seq<u8>,
) -> Seq<u8> {
    let body = packet_body(device_id, password, function, data);
    seq![PACKET_START, PACKET_START] + body + le_bytes(checksum(body))
}

/// Appends `src` to `buf`.
fn push_all(buf: &mut Vec<u8>, src: &[u8])
    ensures
        final(buf)@ == old(buf)@ + src@,
{
    let mut i: usize = 0;
    while i < src.len()
        invariant
            i <= src@.len(),
            buf@ == old(buf)@ + src@.subrange(0, i as int),
        decreases src@.len() - i,
    {
        buf.push(src[i]);
        i = i + 1;
        assert(buf@ =~= old(buf)@ + src@.subrange(0, i as int));
    }
    assert(src@.subrange(0, src@.len() as int) =~= src@);
}

/// Every packet laid out by `packet_bytes` carries a valid checksum.
pub proof fn lemma_packet_checksum_valid(
    device_id: Seq<u8>,
    password: Seq<u8>,
    function: PacketFunction,
    data: Seq<u8>,
)
    ensures
        checksum_valid(packet_bytes(device_id, password, function, data)),
{
    let body = packet_body(device_id, password, function, data);
    let p = packet_bytes(device_id, password, function, data);
    assert(p.subrange(2, p.len() - 2) =~= body);
    lemma_le_roundtrip(checksum(body));
}

/// The checksum is the running byte sum modulo 2^16: zero for no bytes, and
/// each further byte adds its value, wrapping at 2^16.
pub proof fn lemma_checksum_step(s: Seq<u8>, b: u8)
    ensures
        checksum(Seq::empty()) == 0,
        checksum(s.push(b)) as int == (checksum(s) as int + b as int) % 0x10000,
{
    assert(s.push(b).drop_last() =~= s);
    lemma_add_mod_noop_right(b as int, byte_sum(s) as int, 0x10000);
}

/// Packet layout, byte by byte: 0xFD 0xFD, type 0x02, the identifier's length
/// (mod 256) and bytes, the password's length (mod 256) and bytes, the
/// function code, the data, and the two checksum bytes (low byte first).
pub proof fn lemma_packet_layout(
    device_id: Seq<u8>,
    password: Seq<u8>,
    function: PacketFunction,
    data: Seq<u8>,
)
    ensures
        ({
            let p = packet_bytes(device_id, password, function, data);
            let i = device_id.len() as int;
            let w = password.len() as int;
            let d = data.len() as int;
            &&& p.len() == 8 + i + w + d
            &&& p[0] == 0xFD && p[1] == 0xFD && p[2] == 0x02
            &&& p[3] == device_id.len() as u8
            &&& p.subrange(4, 4 + i) == device_id
            &&& p[4 + i] == password.len() as u8
            &&& p.subrange(5 + i, 5 + i + w) == password
            &&& p[5 + i + w] == function.spec_code()
            &&& p.subrange(6 + i + w, 6 + i + w + d) == data
            &&& p[6 + i + w + d] as int == checksum(p.subrange(2, 6 + i + w + d)) as int % 256
            &&& p[7 + i + w + d] as int == checksum(p.subrange(2, 6 + i + w + d)) as int / 256
        }),
{
    let p = packet_bytes(device_id, password, function, data);
    let i = device_id.len() as int;
    let w = password.len() as int;
    let d = data.len() as int;
    assert(p.subrange(4, 4 + i) =~= device_id);
    assert(p.subrange(5 + i, 5 + i + w) =~= password);
    assert(p.subrange(6 + i + w, 6 + i + w + d) =~= data);
    assert(p.subrange(2, 6 + i + w + d) =~= packet_body(device_id, password, function, data));
}

/// Lays out a packet from raw identifier and password bytes.
fn build_packet_from_bytes(
    device_id: &[u8],
    password: &[u8],
    function: PacketFunction,
    data: &[u8],
) -> (buf: Vec<u8>)
    ensures
        buf@ == packet_bytes(device_id@, password@, function, data@),
        checksum_valid(buf@),
{
    let mut buf: Vec<u8> = Vec::new();
    buf.push(PACKET_START);
    buf.push(PACKET_START);
    buf.push(PACKET_TYPE);
    buf.push(device_id.len() as u8);
    push_all(&mut buf, device_id);
    buf.push(password.len() as u8);
    push_all(&mut buf, password);
    buf.push(function.code());
    push_all(&mut buf, data);
    let ghost body = packet_body(device_id@, password@, function, data@);
    assert(buf@ =~= seq![PACKET_START, PACKET_START] + body);
    assert(buf@.subrange(2, buf@.len() as int) =~= body);
    let checksum = checksum_of(buf.as_slice(), 2, buf.len());
    buf.push((checksum % 256) as u8);
    buf.push((checksum / 256) as u8);
    assert(buf@ =~= packet_bytes(device_id@, password@, function, data@));
    proof {
        lemma_packet_checksum_valid(device_id@, password@, function, data@);
    }
    buf
}

/// Lays out a packet: start bytes, type, length-prefixed identifier and
/// password, function byte, data and checksum. A length byte is the length
/// modulo 256.
pub fn build_packet(device_id: &str, password: &str, function: PacketFunction, data: &[u8]) -> (buf:
    Vec<u8>)
    ensures
        buf@ == packet_bytes(device_id.spec_bytes(), password.spec_bytes(), function, data@),
        checksum_valid(buf@),
{
    build_packet_from_bytes(device_id.as_bytes(), password.as_bytes(), function, data)
}

/// Identifier that discovery broadcasts carry: the bytes of "DEFAULT_DEVICEID".
pub open spec fn search_device_id() -> Seq<u8> {
    seq![
        0x44u8, 0x45, 0x46, 0x41, 0x55, 0x4C, 0x54, 0x5F, 0x44, 0x45, 0x56, 0x49, 0x43, 0x45, 0x49,
        0x44,
    ]
}

/// The discovery broadcast: a read of the search parameter addressed to the
/// default identifier with an empty password.
pub fn create_search_packet() -> (buf: Vec<u8>)
    ensures
        buf@ == packet_bytes(
            search_device_id(),
            Seq::empty(),
            PacketFunction::Read,
            seq![PacketParameter::Search.spec_code()],
        ),
        checksum_valid(buf@),
        buf@[0] == PACKET_START && buf@[1] == PACKET_START,
{
    let id: [u8; 16] = [
        0x44, 0x45, 0x46, 0x41, 0x55, 0x4C, 0x54, 0x5F, 0x44, 0x45, 0x56, 0x49, 0x43, 0x45, 0x49,
        0x44,
    ];
    let password: [u8; 0] = [];
    let data: [u8; 1] = [PacketParameter::Search.code()];
    assert(id@ =~= search_device_id());
    assert(password@ =~= Seq::<u8>::empty());
    assert(data@ =~= seq![PacketParameter::Search.spec_code()]);
    build_packet_from_bytes(id.as_slice(), password.as_slice(), PacketFunction::Read, data.as_slice())
}

/// Writes a preset speed to the device. Speed 255 switches the unit to manual
/// speed mode (controlled via `ManualSpeed`).
pub fn create_set_speed_packet(device_id: &str, password: &str, speed: u8) -> (buf: Vec<u8>)
    ensures
        buf@ == packet_bytes(
            device_id.spec_bytes(),
            password.spec_bytes(),
            PacketFunction::Write,
            seq![PacketParameter::Speed.spec_code(), speed],
        ),
        checksum_valid(buf@),
{
    let data: [u8; 2] = [PacketParameter::Speed.code(), speed];
    assert(data@ =~= seq![PacketParameter::Speed.spec_code(), speed]);
    build_packet(device_id, password, PacketFunction::Write, data.as_slice())
}

/// Writes a ventilation mode to the device.
pub fn create_set_mode_packet(device_id: &str, password: &str, mode: DeviceMode) -> (buf: Vec<u8>)
    ensures
        buf@ == packet_bytes(
            device_id.spec_bytes(),
            password.spec_bytes(),
            PacketFunction::Write,
            seq![PacketParameter::VentilationMode.spec_code(), mode.spec_code()],
        ),
        checksum_valid(buf@),
{
    let data: [u8; 2] = [PacketParameter::VentilationMode.code(), mode.code()];
    assert(data@ =~= seq![PacketParameter::VentilationMode.spec_code(), mode.spec_code()]);
    build_packet(device_id, password, PacketFunction::Write, data.as_slice())
}

/// Parameters that a status request reads, in the order they are asked for.
pub open spec fn status_request_params() -> Seq<u8> {
    seq![
        PacketParameter::OnOff.spec_code(),
        PacketParameter::Speed.spec_code(),
        PacketParameter::ManualSpeed.spec_code(),
        PacketParameter::CurrentHumidity.spec_code(),
        PacketParameter::VentilationMode.spec_code(),
    ]
}

/// Reads power state, speed, manual speed, humidity and ventilation mode.
pub fn create_status_packet(device_id: &str, password: &str) -> (buf: Vec<u8>)
    ensures
        buf@ == packet_bytes(
            device_id.spec_bytes(),
            password.spec_bytes(),
            PacketFunction::Read,
            status_request_params(),
        ),
        checksum_valid(buf@),
{
    let data: [u8; 5] = [
        PacketParameter::OnOff.code(),
        PacketParameter::Speed.code(),
        PacketParameter::ManualSpeed.code(),
        PacketParameter::CurrentHumidity.code(),
        PacketParameter::VentilationMode.code(),
    ];
    assert(data@ =~= status_request_params());
    build_packet(device_id, password, PacketFunction::Read, data.as_slice())
}


// ── Response parsing ──────────────────────────────────────────────────────────

/// Status of a unit as reported in a response packet.
#[derive(Debug)]
pub struct DeviceStatus {
    pub device_id: String,
    pub is_on: bool,
    pub speed: u8,
    pub manual_speed: u8,
    pub humidity: u8,
    pub ventilation_mode: Option<DeviceMode>,
}

/// The parameter section of a response: the bytes after the header
/// (start bytes, type, length-prefixed identifier and password, function byte)
/// and before the checksum. `None` when the checksum does not match or the
/// header's length bytes run past the end of the packet.
pub open spec fn response_params(buf: Seq<u8>) -> Option<Seq<u8>> {
    if !checksum_valid(buf) {
        None
    } else {
        let payload = buf.subrange(0, buf.len() - 2);
        if payload.len() <= 3 {
            None
        } else {
            let password_at = 4 + payload[3];
            if password_at >= payload.len() {
                None
            } else {
                let start = password_at + 1 + payload[password_at] + 1;
                Some(
                    if start <= payload.len() {
                        payload.subrange(start, payload.len() as int)
                    } else {
                        Seq::empty()
                    },
                )
            }
        }
    }
}

/// The (parameter, value) pairs of a parameter section, in order; a trailing
/// odd byte belongs to no pair.
pub open spec fn param_pairs(params: Seq<u8>) -> Seq<(u8, u8)> {
    Seq::new(params.len() / 2, |k: int| (params[2 * k], params[2 * k + 1]))
}

/// The value of the last pair that names parameter `key`.
pub open spec fn last_value(pairs: Seq<(u8, u8)>, key: u8) -> Option<u8>
    decreases pairs.len(),
{
    if pairs.len() == 0 {
        None
    } else if pairs.last().0 == key {
        Some(pairs.last().1)
    } else {
        last_value(pairs.drop_last(), key)
    }
}

/// The last value reported for `key`, or 0 when none is.
pub open spec fn reported_byte(pairs: Seq<(u8, u8)>, key: u8) -> u8 {
    match last_value(pairs, key) {
        Some(v) => v,
        None => 0,
    }
}

/// The unit is on when the last power value reported is non-zero.
pub open spec fn reported_on(pairs: Seq<(u8, u8)>) -> bool {
    match last_value(pairs, PacketParameter::OnOff.spec_code()) {
        Some(v) => v != 0,
        None => false,
    }
}

/// The mode named by the last ventilation-mode value reported, if it names one.
pub open spec fn reported_mode(pairs: Seq<(u8, u8)>) -> Option<DeviceMode> {
    match last_value(pairs, PacketParameter::VentilationMode.spec_code()) {
        Some(v) => mode_from_code(v),
        None => None,
    }
}

/// `status` is what the pairs report for the unit named `device_id`.
pub open spec fn status_reports(status: DeviceStatus, device_id: String, pairs: Seq<(u8, u8)>) -> bool {
    &&& status.device_id == device_id
    &&& status.is_on == reported_on(pairs)
    &&& status.speed == reported_byte(pairs, PacketParameter::Speed.spec_code())
    &&& status.manual_speed == reported_byte(pairs, PacketParameter::ManualSpeed.spec_code())
    &&& status.humidity == reported_byte(pairs, PacketParameter::CurrentHumidity.spec_code())
    &&& status.ventilation_mode == reported_mode(pairs)
}

/// Decodes a mode byte as `DeviceMode::try_from(..).ok()` does.
fn mode_from_byte(v: u8) -> (m: Option<DeviceMode>)
    ensures
        m == mode_from_code(v),
{
    match DeviceMode::try_from(v) {
        Ok(m) => Some(m),
        Err(_) => None,
    }
}

/// Validates the checksum of a raw UDP response and reads the parameters it
/// reports into a [`DeviceStatus`] for `device_id`. Parameters that are not
/// reported keep their defaults (off, zero, no mode); a parameter reported
/// twice takes its last value; unknown parameters are skipped.
pub fn parse_response(buf: &[u8], device_id: String) -> (res: Option<DeviceStatus>)
    ensures
        res is None <==> response_params(buf@) is None,
        res matches Some(status) ==> status_reports(
            status,
            device_id,
            param_pairs(response_params(buf@)->Some_0),
        ),
{
    if buf.len() < 4 {
        return None;
    }
    let payload_len = buf.len() - 2;
    let ghost payload = buf@.subrange(0, payload_len as int);
    let expected = checksum_of(buf, 2, payload_len);
    let actual = buf[payload_len] as u16 + (buf[payload_len + 1] as u16) * 256;
    if expected != actual {
        return None;
    }
    let mut pos: usize = 3;
    if pos >= payload_len {
        return None;
    }
    let id_len = buf[pos] as usize;
    pos = pos + 1 + id_len;
    if pos >= payload_len {
        return None;
    }
    let pw_len = buf[pos] as usize;
    pos = pos + 1 + pw_len;
    pos = pos + 1;
    let start = pos;
    let ghost params: Seq<u8> = if start <= payload_len {
        payload.subrange(start as int, payload_len as int)
    } else {
        Seq::empty()
    };
    assert(response_params(buf@) == Some(params));
    let ghost pairs = param_pairs(params);

    let mut is_on = false;
    let mut speed = 0u8;
    let mut manual_speed = 0u8;
    let mut humidity = 0u8;
    let mut ventilation_mode: Option<DeviceMode> = None;
    let ghost mut j: int = 0;
    assert(pairs.take(0) =~= Seq::<(u8, u8)>::empty());

    while pos + 1 < payload_len
        invariant
            payload_len == buf@.len() - 2,
            payload == buf@.subrange(0, payload_len as int),
            params == (if start <= payload_len {
                payload.subrange(start as int, payload_len as int)
            } else {
                Seq::empty()
            }),
            pairs == param_pairs(params),
            start <= pos < usize::MAX,
            pos == start + 2 * j,
            0 <= j <= pairs.len(),
            start <= payload_len ==> j <= pairs.len(),
            pos + 1 < payload_len ==> j < pairs.len(),
            pos + 1 >= payload_len ==> j == pairs.len(),
            is_on == reported_on(pairs.take(j)),
            speed == reported_byte(pairs.take(j), PacketParameter::Speed.spec_code()),
            manual_speed == reported_byte(pairs.take(j), PacketParameter::ManualSpeed.spec_code()),
            humidity == reported_byte(pairs.take(j), PacketParameter::CurrentHumidity.spec_code()),
            ventilation_mode == reported_mode(pairs.take(j)),
        decreases payload_len - pos,
    {
        let param = buf[pos];
        let value = buf[pos + 1];
        assert(pairs[j] == (param, value));
        let ghost before = pairs.take(j);
        let ghost after = pairs.take(j + 1);
        assert(after.drop_last() =~= before);
        assert(after.last() == (param, value));
        pos = pos + 2;
        proof {
            j = j + 1;
        }
        if param == PacketParameter::OnOff.code() {
            is_on = value != 0;
        } else if param == PacketParameter::Speed.code() {
            speed = value;
        } else if param == PacketParameter::ManualSpeed.code() {
            manual_speed = value;
        } else if param == PacketParameter::CurrentHumidity.code() {
            humidity = value;
        } else if param == PacketParameter::VentilationMode.code() {
            ventilation_mode = mode_from_byte(value);
        }
    }
    assert(pairs.take(j) =~= pairs);
    Some(DeviceStatus { device_id, is_on, speed, manual_speed, humidity, ventilation_mode })
}

/// A packet laid out by `packet_bytes` reads back, as a response, exactly the
/// data it was built with, whatever the function byte, as long as the
/// identifier and password each fit their one-byte length prefix.
pub proof fn lemma_response_params_of_packet(
    device_id: Seq<u8>,
    password: Seq<u8>,
    function: PacketFunction,
    data: Seq<u8>,
)
    requires
        device_id.len() <= 255,
        password.len() <= 255,
    ensures
        response_params(packet_bytes(device_id, password, function, data)) == Some(data),
{
    let p = packet_bytes(device_id, password, function, data);
    let body = packet_body(device_id, password, function, data);
    lemma_packet_checksum_valid(device_id, password, function, data);
    let payload = p.subrange(0, p.len() - 2);
    assert(payload =~= seq![PACKET_START, PACKET_START] + body);
    assert(payload[3] == device_id.len());
    let password_at: int = 4 + device_id.len() as int;
    assert(payload[password_at] == password.len());
    let start: int = password_at + 1 + password.len() + 1;
    assert(payload.subrange(start, payload.len() as int) =~= data);
}

/// Changing either checksum byte of a valid packet makes the response be
/// rejected: the two checksum bytes are the only encoding of the checksum.
pub proof fn lemma_corrupted_checksum_rejected(buf: Seq<u8>, at: int, x: u8)
    requires
        checksum_valid(buf),
        at == buf.len() - 1 || at == buf.len() - 2,
        x != buf[at],
    ensures
        response_params(buf.update(at, x)) is None,
{
    let c = buf.update(at, x);
    assert(c.subrange(2, c.len() - 2) =~= buf.subrange(2, buf.len() - 2));
}

/// What a response built from `data` reports: parsing the packet gives the
/// status that the pairs of `data` report.
pub proof fn lemma_parse_built_response(
    device_id: Seq<u8>,
    password: Seq<u8>,
    function: PacketFunction,
    data: Seq<u8>,
    status: DeviceStatus,
    name: String,
)
    requires
        device_id.len() <= 255,
        password.len() <= 255,
        status_reports(
            status,
            name,
            param_pairs(response_params(packet_bytes(device_id, password, function, data))->Some_0),
        ),
    ensures
        status_reports(status, name, param_pairs(data)),
{
    lemma_response_params_of_packet(device_id, password, function, data);
}

/// What a parsed status says when the response reports no known parameter:
/// the unit is off, speed, manual speed and humidity are 0, no mode.
pub proof fn lemma_status_defaults(status: DeviceStatus, device_id: String)
    requires
        status_reports(status, device_id, Seq::empty()),
    ensures
        status.device_id == device_id,
        !status.is_on,
        status.speed == 0,
        status.manual_speed == 0,
        status.humidity == 0,
        status.ventilation_mode is None,
{
}

/// The last pair of a response decides the field it names: power (0x01) is on
/// when its value is non-zero; speed (0x02), manual speed (0x44) and humidity
/// (0x25) take the value; ventilation mode (0xB7) takes the mode whose code
/// is the value (0 one-way, 1 two-way, 2 supply), none for any other value.
pub proof fn lemma_status_last_pair(
    status: DeviceStatus,
    device_id: String,
    pairs: Seq<(u8, u8)>,
    key: u8,
    value: u8,
)
    requires
        status_reports(status, device_id, pairs.push((key, value))),
    ensures
        status.device_id == device_id,
        key == 0x01 ==> status.is_on == (value != 0),
        key == 0x02 ==> status.speed == value,
        key == 0x44 ==> status.manual_speed == value,
        key == 0x25 ==> status.humidity == value,
        key == 0xB7 ==> status.ventilation_mode == (if value == 0 {
            Some(DeviceMode::OneWay)
        } else if value == 1 {
            Some(DeviceMode::TwoWay)
        } else if value == 2 {
            Some(DeviceMode::In)
        } else {
            None
        }),
{
    assert(pairs.push((key, value)).drop_last() =~= pairs);
}

/// A pair for any other parameter changes nothing: a response with such a
/// pair appended reports what the response without it reports; and a pair for
/// one known parameter leaves the other fields as they were.
pub proof fn lemma_status_other_pairs(
    before: DeviceStatus,
    after: DeviceStatus,
    device_id: String,
    pairs: Seq<(u8, u8)>,
    key: u8,
    value: u8,
)
    requires
        status_reports(before, device_id, pairs),
        status_reports(after, device_id, pairs.push((key, value))),
    ensures
        key != 0x01 ==> after.is_on == before.is_on,
        key != 0x02 ==> after.speed == before.speed,
        key != 0x44 ==> after.manual_speed == before.manual_speed,
        key != 0x25 ==> after.humidity == before.humidity,
        key != 0xB7 ==> after.ventilation_mode == before.ventilation_mode,
{
    assert(pairs.push((key, value)).drop_last() =~= pairs);
}

/// The pairs of a parameter section are its bytes taken two by two: appending
/// a parameter and its value to an even-length section appends that pair.
pub proof fn lemma_param_pairs_append(params: Seq<u8>, key: u8, value: u8)
    requires
        params.len() % 2 == 0,
    ensures
        param_pairs(params + seq![key, value]) == param_pairs(params).push((key, value)),
        param_pairs(Seq::empty()).len() == 0,
{
    let ext = params + seq![key, value];
    assert(ext.len() / 2 == params.len() / 2 + 1);
    assert forall|k: int| 0 <= k < params.len() / 2 implies #[trigger] param_pairs(ext)[k]
        == param_pairs(params)[k] by {
        assert(ext[2 * k] == params[2 * k]);
        assert(ext[2 * k + 1] == params[2 * k + 1]);
    }
    assert(ext[params.len() as int] == key && ext[params.len() as int + 1] == value);
    assert(param_pairs(ext)[(params.len() / 2) as int] == (key, value));
    assert(param_pairs(ext) =~= param_pairs(params).push((key, value)));
}

} // verus!
