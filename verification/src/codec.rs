//! The status-query wire format: an 8-byte request frame and a fixed-layout,
//! little-endian response of at least 48 bytes.

use vstd::prelude::*;
use vstd::slice::slice_subrange;
use crate::text::{decimal_digits, push_unsigned};

verus! {

/// Length of a request frame.
pub const REQUEST_LEN: usize = 8;

/// Protocol version that the status query is sent with.
pub const PROTOCOL_VERSION: u8 = 4;

/// Mode of a status query.
pub const STATUS_MODE: u8 = 7;

/// Third byte of every request frame.
pub const REQUEST_MARKER: u8 = 0x10;

/// Fourth byte of every request frame.
pub const REQUEST_SEQUENCE: u8 = 1;

/// Least length of a response.
pub const MIN_RESPONSE_LEN: usize = 48;

/// Offset of the fraction of the reference time.
pub const OFFSET_REF_FRAC: usize = 16;

/// Offset of the seconds of the reference time.
pub const OFFSET_REF_SECONDS: usize = 20;

/// Offset of the uptime.
pub const OFFSET_UPTIME: usize = 24;

/// Offset of the count of time requests served.
pub const OFFSET_NTP_SERVED: usize = 28;

/// Offset of the count of status requests served.
pub const OFFSET_MODE6_SERVED: usize = 32;

/// Offset of the time since the receiver locked.
pub const OFFSET_GPS_LOCK: usize = 36;

/// Offset of the flags byte.
pub const OFFSET_FLAGS: usize = 40;

/// Offset of the count of satellites in use.
pub const OFFSET_SATELLITES: usize = 41;

/// Offset of the serial number.
pub const OFFSET_SERIAL: usize = 42;

/// Offset of the firmware version.
pub const OFFSET_FIRMWARE: usize = 44;

/// Seconds from 1900-01-01, where the reference time starts, to 1970-01-01.
pub const SECONDS_1900_TO_1970: u64 = 2_208_988_800;

/// Value of two bytes read as a little-endian unsigned integer.
pub open spec fn le_u16(b0: u8, b1: u8) -> int {
    b0 as int + b1 as int * 0x100
}

/// Value of four bytes read as a little-endian unsigned integer.
pub open spec fn le_u32(b0: u8, b1: u8, b2: u8, b3: u8) -> int {
    b0 as int + b1 as int * 0x100 + b2 as int * 0x1_0000 + b3 as int * 0x100_0000
}

/// The little-endian `u16` at `offset` in `bytes`.
pub open spec fn le_u16_at(bytes: Seq<u8>, offset: int) -> u16 {
    le_u16(bytes[offset], bytes[offset + 1]) as u16
}

/// The little-endian `u32` at `offset` in `bytes`.
pub open spec fn le_u32_at(bytes: Seq<u8>, offset: int) -> u32 {
    le_u32(bytes[offset], bytes[offset + 1], bytes[offset + 2], bytes[offset + 3]) as u32
}

/// Reads the first two bytes of `b` as a little-endian `u16`.
pub fn read_u16_le(b: &[u8]) -> (v: u16)
    requires
        b@.len() >= 2,
    ensures
        v as int == le_u16(b@[0], b@[1]),
        v == le_u16_at(b@, 0),
{
    let lo: u16 = b[0] as u16;
    let hi: u16 = b[1] as u16;
    lo + hi * 0x100
}

/// Reads the first four bytes of `b` as a little-endian `u32`.
pub fn read_u32_le(b: &[u8]) -> (v: u32)
    requires
        b@.len() >= 4,
    ensures
        v as int == le_u32(b@[0], b@[1], b@[2], b@[3]),
        v == le_u32_at(b@, 0),
{
    let b0: u32 = b[0] as u32;
    let b1: u32 = b[1] as u32;
    let b2: u32 = b[2] as u32;
    let b3: u32 = b[3] as u32;
    b0 + b1 * 0x100 + b2 * 0x1_0000 + b3 * 0x100_0000
}

/// The request frame for a protocol version and a mode: the version in the
/// bits above the three bits of the mode, a zero byte, the two fixed bytes,
/// and four zero bytes.
pub open spec fn request_frame(protocol_version: u8, mode: u8) -> Seq<u8> {
    seq![(protocol_version << 3) | mode, 0u8, REQUEST_MARKER, REQUEST_SEQUENCE, 0u8, 0u8, 0u8, 0u8]
}

/// Builds the request frame.
pub fn encode_request(protocol_version: u8, mode: u8) -> (frame: [u8; REQUEST_LEN])
    ensures
        frame@ == request_frame(protocol_version, mode),
{
    let mut frame: [u8; REQUEST_LEN] = [0u8; REQUEST_LEN];
    frame[0] = (protocol_version << 3) | mode;
    frame[2] = REQUEST_MARKER;
    frame[3] = REQUEST_SEQUENCE;
    frame
}

/// The telemetry that a response carries.
#[derive(Clone, Copy, Debug, PartialEq, Eq, Structural)]
pub struct StatusResponse {
    /// Fraction of the reference time's second, in units of 2^-32 s.
    pub ref_frac: u32,
    /// Seconds of the reference time, counted from 1900-01-01.
    pub ref_seconds: u32,
    pub uptime_seconds: u32,
    pub ntp_requests_served: u32,
    pub mode6_requests_served: u32,
    pub gps_lock_seconds: u32,
    pub flags: u8,
    pub active_satellites: u8,
    pub serial_number: u16,
    /// Major version in the bits above the low byte, minor version in it.
    pub firmware_version: u32,
}

/// Why a response was not decoded.
#[derive(Clone, Copy, Debug, PartialEq, Eq, Structural)]
pub enum ProtocolError {
    /// The response has fewer than 48 bytes; `length` is how many it has.
    TooShort { length: usize },
}

/// The fields of a response of at least 48 bytes, each at its offset.
pub open spec fn response_fields(bytes: Seq<u8>) -> StatusResponse {
    StatusResponse {
        ref_frac: le_u32_at(bytes, OFFSET_REF_FRAC as int),
        ref_seconds: le_u32_at(bytes, OFFSET_REF_SECONDS as int),
        uptime_seconds: le_u32_at(bytes, OFFSET_UPTIME as int),
        ntp_requests_served: le_u32_at(bytes, OFFSET_NTP_SERVED as int),
        mode6_requests_served: le_u32_at(bytes, OFFSET_MODE6_SERVED as int),
        gps_lock_seconds: le_u32_at(bytes, OFFSET_GPS_LOCK as int),
        flags: bytes[OFFSET_FLAGS as int],
        active_satellites: bytes[OFFSET_SATELLITES as int],
        serial_number: le_u16_at(bytes, OFFSET_SERIAL as int),
        firmware_version: le_u32_at(bytes, OFFSET_FIRMWARE as int),
    }
}

/// What decoding makes of a response: all of its fields, or `TooShort` for
/// one of fewer than 48 bytes. Bytes after the first 48 play no part.
pub open spec fn decoded(bytes: Seq<u8>) -> Result<StatusResponse, ProtocolError> {
    if bytes.len() < MIN_RESPONSE_LEN {
        Err(ProtocolError::TooShort { length: bytes.len() as usize })
    } else {
        Ok(response_fields(bytes))
    }
}

/// The `u16` at `offset` in `bytes`.
fn u16_at(bytes: &[u8], offset: usize) -> (v: u16)
    requires
        offset + 2 <= bytes.len(),
    ensures
        v == le_u16_at(bytes@, offset as int),
{
    read_u16_le(slice_subrange(bytes, offset, offset + 2))
}

/// The `u32` at `offset` in `bytes`.
fn u32_at(bytes: &[u8], offset: usize) -> (v: u32)
    requires
        offset + 4 <= bytes.len(),
    ensures
        v == le_u32_at(bytes@, offset as int),
{
    read_u32_le(slice_subrange(bytes, offset, offset + 4))
}

/// Decodes a response. Either every field is read or none is.
pub fn decode_response(bytes: &[u8]) -> (r: Result<StatusResponse, ProtocolError>)
    ensures
        r == decoded(bytes@),
{
    if bytes.len() < MIN_RESPONSE_LEN {
        return Err(ProtocolError::TooShort { length: bytes.len() });
    }
    Ok(
        StatusResponse {
            ref_frac: u32_at(bytes, OFFSET_REF_FRAC),
            ref_seconds: u32_at(bytes, OFFSET_REF_SECONDS),
            uptime_seconds: u32_at(bytes, OFFSET_UPTIME),
            ntp_requests_served: u32_at(bytes, OFFSET_NTP_SERVED),
            mode6_requests_served: u32_at(bytes, OFFSET_MODE6_SERVED),
            gps_lock_seconds: u32_at(bytes, OFFSET_GPS_LOCK),
            flags: bytes[OFFSET_FLAGS],
            active_satellites: bytes[OFFSET_SATELLITES],
            serial_number: u16_at(bytes, OFFSET_SERIAL),
            firmware_version: u32_at(bytes, OFFSET_FIRMWARE),
        },
    )
}

/// Decoding reads the first 48 bytes only: two responses that agree on them
/// decode alike.
pub proof fn lemma_decoded_reads_prefix(a: Seq<u8>, b: Seq<u8>)
    requires
        a.len() >= MIN_RESPONSE_LEN,
        b.len() >= MIN_RESPONSE_LEN,
        a.subrange(0, MIN_RESPONSE_LEN as int) == b.subrange(0, MIN_RESPONSE_LEN as int),
    ensures
        decoded(a) == decoded(b),
        decoded(a) is Ok,
{
    assert forall|i: int| 0 <= i < MIN_RESPONSE_LEN implies a[i] == b[i] by {
        assert(b[i] == b.subrange(0, MIN_RESPONSE_LEN as int)[i]);
    }
}

impl StatusResponse {
    /// Seconds of the reference time counted from 1970-01-01. A reference time
    /// before 1970 counts as 0.
    pub open spec fn spec_unix_seconds(&self) -> int {
        if self.ref_seconds >= SECONDS_1900_TO_1970 {
            self.ref_seconds - SECONDS_1900_TO_1970
        } else {
            0
        }
    }

    /// Seconds of the reference time counted from 1970-01-01, held at 0 where
    /// the device reports a time before 1970.
    pub fn unix_seconds(&self) -> (t: i64)
        ensures
            t == self.spec_unix_seconds(),
    {
        let since_1900: u64 = self.ref_seconds as u64;
        since_1900.saturating_sub(SECONDS_1900_TO_1970) as i64
    }

    /// Major firmware version: the version without its low byte.
    pub fn firmware_major(&self) -> (major: u32)
        ensures
            major == self.firmware_version / 0x100,
    {
        let v: u32 = self.firmware_version;
        assert(v >> 8 == v / 0x100) by (bit_vector);
        v >> 8
    }

    /// Minor firmware version: the low byte of the version.
    pub fn firmware_minor(&self) -> (minor: u32)
        ensures
            minor == self.firmware_version % 0x100,
    {
        let v: u32 = self.firmware_version;
        assert(v & 0xFF == v % 0x100) by (bit_vector);
        v & 0xFF
    }

    /// The firmware version as it is shown: the major version, a dot, and the
    /// minor version in at least two digits.
    pub open spec fn firmware_text(&self) -> Seq<u8> {
        let major = self.firmware_version as nat / 0x100;
        let minor = self.firmware_version as nat % 0x100;
        if minor < 10 {
            decimal_digits(major) + seq![0x2Eu8, 0x30u8] + decimal_digits(minor)
        } else {
            decimal_digits(major) + seq![0x2Eu8] + decimal_digits(minor)
        }
    }

    /// Writes the firmware version out as `major.minor`.
    pub fn firmware_version_text(&self) -> (text: Vec<u8>)
        ensures
            text@ == self.firmware_text(),
    {
        let mut out: Vec<u8> = Vec::new();
        let minor: u32 = self.firmware_minor();
        push_unsigned(&mut out, self.firmware_major() as u128);
        out.push(0x2Eu8);
        if minor < 10 {
            out.push(0x30u8);
        }
        push_unsigned(&mut out, minor as u128);
        out
    }
}

} // verus!
