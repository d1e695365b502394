//! One line-protocol record from a decoded status, and the write path under
//! which it is delivered, with organization and bucket percent-encoded.

use vstd::prelude::*;
use vstd::string::*;
use crate::codec::StatusResponse;
use crate::text::{decimal, push_decimal, push_text};

verus! {

/// Nanoseconds in a second.
pub const NANOS_PER_SECOND: i128 = 1_000_000_000;

/// Units of the reference time's fraction in a second: 2^32.
pub const FRACTION_UNITS_PER_SECOND: i128 = 0x1_0000_0000;

/// Whole nanoseconds in a fraction of `frac` / 2^32 of a second.
pub open spec fn fraction_nanos(frac: u32) -> int {
    frac * 1_000_000_000 / 0x1_0000_0000
}

/// Nanoseconds since 1970-01-01 of the instant `frac` / 2^32 of a second after
/// the second `unix_seconds`.
pub open spec fn timestamp_nanos(unix_seconds: int, frac: u32) -> int {
    unix_seconds * 1_000_000_000 + fraction_nanos(frac)
}

/// A record of the measurement `Measurements` with the tag `host=NTP01`: its
/// fields in the order in which they are written, and its timestamp.
#[derive(Clone, Copy, Debug, PartialEq, Eq, Structural)]
pub struct MetricLine {
    pub uptime: u32,
    pub ntp_requests: u32,
    pub satellites: u8,
    pub gps_lock_time: u32,
    pub serial_number: u16,
    pub firmware_version: u32,
    /// Nanoseconds since 1970-01-01.
    pub timestamp_ns: i128,
}

/// The record for a status whose reference time is `frac` / 2^32 of a second
/// after the second `unix_seconds`. The timestamp is computed in 128 bits,
/// which hold it for every `i64` of seconds.
pub fn encode(status: &StatusResponse, unix_seconds: i64, frac: u32) -> (line: MetricLine)
    ensures
        line == (MetricLine {
            uptime: status.uptime_seconds,
            ntp_requests: status.ntp_requests_served,
            satellites: status.active_satellites,
            gps_lock_time: status.gps_lock_seconds,
            serial_number: status.serial_number,
            firmware_version: status.firmware_version,
            timestamp_ns: timestamp_nanos(unix_seconds as int, frac) as i128,
        }),
        line.timestamp_ns == timestamp_nanos(unix_seconds as int, frac),
{
    let nanos: i128 = (frac as i128) * NANOS_PER_SECOND / FRACTION_UNITS_PER_SECOND;
    MetricLine {
        uptime: status.uptime_seconds,
        ntp_requests: status.ntp_requests_served,
        satellites: status.active_satellites,
        gps_lock_time: status.gps_lock_seconds,
        serial_number: status.serial_number,
        firmware_version: status.firmware_version,
        timestamp_ns: (unix_seconds as i128) * NANOS_PER_SECOND + nanos,
    }
}

impl MetricLine {
    /// The record as text: measurement and tag, the fields in their order,
    /// and the timestamp, all numbers in decimal.
    pub open spec fn text(&self) -> Seq<u8> {
        "Measurements,host=NTP01 Uptime=".spec_bytes() + decimal(self.uptime as int)
            + ",Nb_NTP_Requests=".spec_bytes() + decimal(self.ntp_requests as int)
            + ",Nb_of_SAT=".spec_bytes() + decimal(self.satellites as int)
            + ",GPS_lock_time=".spec_bytes() + decimal(self.gps_lock_time as int)
            + ",Serial_Number=".spec_bytes() + decimal(self.serial_number as int)
            + ",Firmware_Version=".spec_bytes() + decimal(self.firmware_version as int)
            + " ".spec_bytes() + decimal(self.timestamp_ns as int)
    }

    /// Writes the record out, without a line end.
    pub fn to_bytes(&self) -> (bytes: Vec<u8>)
        ensures
            bytes@ == self.text(),
    {
        let mut out: Vec<u8> = Vec::new();
        push_text(&mut out, "Measurements,host=NTP01 Uptime=");
        push_decimal(&mut out, self.uptime as i128);
        push_text(&mut out, ",Nb_NTP_Requests=");
        push_decimal(&mut out, self.ntp_requests as i128);
        push_text(&mut out, ",Nb_of_SAT=");
        push_decimal(&mut out, self.satellites as i128);
        push_text(&mut out, ",GPS_lock_time=");
        push_decimal(&mut out, self.gps_lock_time as i128);
        push_text(&mut out, ",Serial_Number=");
        push_decimal(&mut out, self.serial_number as i128);
        push_text(&mut out, ",Firmware_Version=");
        push_decimal(&mut out, self.firmware_version as i128);
        push_text(&mut out, " ");
        push_decimal(&mut out, self.timestamp_ns);
        out
    }
}

/// Whether `b` passes through percent-encoding unchanged: an ASCII letter or
/// digit, or one of `-`, `_`, `.`, `~`.
pub open spec fn is_unreserved(b: u8) -> bool {
    ||| 0x30 <= b <= 0x39
    ||| 0x41 <= b <= 0x5A
    ||| 0x61 <= b <= 0x7A
    ||| b == 0x2D
    ||| b == 0x5F
    ||| b == 0x2E
    ||| b == 0x7E
}

/// The upper-case hexadecimal digit of `n`, for `n` below 16.
pub open spec fn hex_digit(n: int) -> u8 {
    if n < 10 {
        (0x30 + n) as u8
    } else {
        (0x41 + n - 10) as u8
    }
}

/// The value of the hexadecimal digit `b`, of either case.
pub open spec fn hex_value(b: u8) -> Option<int> {
    if 0x30 <= b <= 0x39 {
        Some(b - 0x30)
    } else if 0x41 <= b <= 0x46 {
        Some(b - 0x41 + 10)
    } else if 0x61 <= b <= 0x66 {
        Some(b - 0x61 + 10)
    } else {
        None
    }
}

/// One byte, percent-encoded: itself where it is unreserved, else `%` and its
/// two hexadecimal digits.
pub open spec fn encoded_byte(b: u8) -> Seq<u8> {
    if is_unreserved(b) {
        seq![b]
    } else {
        seq![0x25u8, hex_digit(b as int / 16), hex_digit(b as int % 16)]
    }
}

/// The percent-encoding of `s`: the encodings of its bytes, one after another.
pub open spec fn percent_encoded(s: Seq<u8>) -> Seq<u8>
    decreases s.len(),
{
    if s.len() == 0 {
        Seq::<u8>::empty()
    } else {
        encoded_byte(s[0]) + percent_encoded(s.skip(1))
    }
}

/// What `s` is the percent-encoding of: every `%` with its two hexadecimal
/// digits stands for one byte, every other byte for itself. `None` where a
/// `%` is not followed by two hexadecimal digits.
pub open spec fn percent_decoded(s: Seq<u8>) -> Option<Seq<u8>>
    decreases s.len(),
{
    if s.len() == 0 {
        Some(Seq::<u8>::empty())
    } else if s[0] != 0x25 {
        match percent_decoded(s.skip(1)) {
            Some(rest) => Some(seq![s[0]] + rest),
            None => None,
        }
    } else if s.len() >= 3 && hex_value(s[1]) is Some && hex_value(s[2]) is Some {
        match percent_decoded(s.skip(3)) {
            Some(rest) => Some(seq![(hex_value(s[1])->0 * 16 + hex_value(s[2])->0) as u8] + rest),
            None => None,
        }
    } else {
        None
    }
}

proof fn lemma_percent_encoded_push(s: Seq<u8>, b: u8)
    ensures
        percent_encoded(s.push(b)) == percent_encoded(s) + encoded_byte(b),
    decreases s.len(),
{
    if s.len() == 0 {
        reveal_with_fuel(percent_encoded, 2);
    } else {
        assert(s.push(b).skip(1) =~= s.skip(1).push(b));
        lemma_percent_encoded_push(s.skip(1), b);
    }
}

/// Decoding undoes encoding: the percent-encoding of any bytes decodes, and
/// to those bytes.
pub proof fn lemma_percent_round_trip(s: Seq<u8>)
    ensures
        percent_decoded(percent_encoded(s)) == Some(s),
    decreases s.len(),
{
    if s.len() > 0 {
        let b = s[0];
        let tail = percent_encoded(s.skip(1));
        let whole = percent_encoded(s);
        lemma_percent_round_trip(s.skip(1));
        if is_unreserved(b) {
            assert(whole.skip(1) =~= tail);
        } else {
            assert(whole.skip(3) =~= tail);
        }
    }
}

/// An encoding holds none but unreserved bytes and `%`: nothing in it ends a
/// query parameter or a path.
pub proof fn lemma_percent_encoded_is_plain(s: Seq<u8>, i: int)
    requires
        0 <= i < percent_encoded(s).len(),
    ensures
        is_unreserved(percent_encoded(s)[i]) || percent_encoded(s)[i] == 0x25,
    decreases s.len(),
{
    if s.len() > 0 {
        let head = encoded_byte(s[0]);
        if i >= head.len() {
            lemma_percent_encoded_is_plain(s.skip(1), i - head.len());
        }
    }
}

/// The upper-case hexadecimal digit of `n`.
fn hex_digit_of(n: u8) -> (d: u8)
    requires
        n < 16,
    ensures
        d == hex_digit(n as int),
{
    if n < 10 {
        0x30 + n
    } else {
        0x41 + (n - 10)
    }
}

/// The value of a hexadecimal digit, if `b` is one.
fn hex_value_of(b: u8) -> (v: Option<u8>)
    ensures
        match v {
            Some(n) => hex_value(b) == Some(n as int) && n < 16,
            None => hex_value(b) is None,
        },
{
    if 0x30 <= b && b <= 0x39 {
        Some(b - 0x30)
    } else if 0x41 <= b && b <= 0x46 {
        Some(b - 0x41 + 10)
    } else if 0x61 <= b && b <= 0x66 {
        Some(b - 0x61 + 10)
    } else {
        None
    }
}

/// Tests `is_unreserved`.
fn unreserved(b: u8) -> (r: bool)
    ensures
        r == is_unreserved(b),
{
    (0x30 <= b && b <= 0x39) || (0x41 <= b && b <= 0x5A) || (0x61 <= b && b <= 0x7A) || b == 0x2D
        || b == 0x5F || b == 0x2E || b == 0x7E
}

/// Appends the percent-encoding of `bytes` to `out`.
fn push_percent_encoded(out: &mut Vec<u8>, bytes: &[u8])
    ensures
        final(out)@ == old(out)@ + percent_encoded(bytes@),
{
    let n: usize = bytes.len();
    let mut i: usize = 0;
    while i < n
        invariant
            i <= n,
            n == bytes@.len(),
            out@ == old(out)@ + percent_encoded(bytes@.subrange(0, i as int)),
        decreases n - i,
    {
        let b: u8 = bytes[i];
        proof {
            lemma_percent_encoded_push(bytes@.subrange(0, i as int), b);
            assert(bytes@.subrange(0, i as int).push(b) =~= bytes@.subrange(0, i + 1));
        }
        if unreserved(b) {
            out.push(b);
        } else {
            out.push(0x25u8);
            out.push(hex_digit_of(b / 16));
            out.push(hex_digit_of(b % 16));
        }
        i = i + 1;
    }
    assert(bytes@.subrange(0, n as int) =~= bytes@);
}

/// Percent-encodes `text` as a URL component: unreserved bytes pass through,
/// every other byte of its UTF-8 form becomes `%` and two upper-case
/// hexadecimal digits.
pub fn url_encode(text: &str) -> (encoded: Vec<u8>)
    ensures
        encoded@ == percent_encoded(text.spec_bytes()),
{
    let mut out: Vec<u8> = Vec::new();
    push_percent_encoded(&mut out, text.as_bytes());
    out
}

/// Decodes a percent-encoded URL component; `None` where a `%` is not
/// followed by two hexadecimal digits.
pub fn url_decode(encoded: &[u8]) -> (decoded: Option<Vec<u8>>)
    ensures
        match decoded {
            Some(bytes) => percent_decoded(encoded@) == Some(bytes@),
            None => percent_decoded(encoded@) is None,
        },
{
    let n: usize = encoded.len();
    let mut out: Vec<u8> = Vec::new();
    let mut i: usize = 0;
    assert(encoded@.skip(0) =~= encoded@);
    while i < n
        invariant
            i <= n,
            n == encoded@.len(),
            percent_decoded(encoded@) == match percent_decoded(encoded@.skip(i as int)) {
                Some(rest) => Some(out@ + rest),
                None => None,
            },
        decreases n - i,
    {
        let ghost here = encoded@.skip(i as int);
        let b: u8 = encoded[i];
        if b != 0x25 {
            out.push(b);
            assert(here.skip(1) =~= encoded@.skip(i + 1));
            i = i + 1;
        } else {
            if n - i < 3 {
                return None;
            }
            let high: Option<u8> = hex_value_of(encoded[i + 1]);
            let low: Option<u8> = hex_value_of(encoded[i + 2]);
            match (high, low) {
                (Some(h), Some(l)) => {
                    let byte: u8 = h * 16 + l;
                    out.push(byte);
                    assert(here.skip(3) =~= encoded@.skip(i + 3));
                    i = i + 3;
                },
                _ => {
                    return None;
                },
            }
        }
    }
    Some(out)
}

/// The path and query under which records are written for an organization
/// and a bucket, with nanosecond precision.
pub open spec fn write_path_bytes(org: Seq<u8>, bucket: Seq<u8>) -> Seq<u8> {
    "/api/v2/write?org=".spec_bytes() + percent_encoded(org) + "&bucket=".spec_bytes()
        + percent_encoded(bucket) + "&precision=ns".spec_bytes()
}

/// Builds the write path, with `org` and `bucket` percent-encoded.
pub fn write_path(org: &str, bucket: &str) -> (path: Vec<u8>)
    ensures
        path@ == write_path_bytes(org.spec_bytes(), bucket.spec_bytes()),
{
    let mut out: Vec<u8> = Vec::new();
    push_text(&mut out, "/api/v2/write?org=");
    push_percent_encoded(&mut out, org.as_bytes());
    push_text(&mut out, "&bucket=");
    push_percent_encoded(&mut out, bucket.as_bytes());
    push_text(&mut out, "&precision=ns");
    out
}

} // verus!
