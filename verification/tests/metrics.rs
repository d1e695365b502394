use leontp::codec::StatusResponse;
use leontp::metrics::{encode, url_decode, url_encode, write_path, MetricLine};

fn status() -> StatusResponse {
    StatusResponse {
        ref_frac: 0x8000_0000,
        ref_seconds: 3_908_988_800,
        uptime_seconds: 86_400,
        ntp_requests_served: 123_456_789,
        mode6_requests_served: 42,
        gps_lock_seconds: 3_600,
        flags: 5,
        active_satellites: 11,
        serial_number: 54_321,
        firmware_version: 263,
    }
}

#[test]
fn record_takes_its_fields_from_the_status() {
    let line = encode(&status(), 1_700_000_000, 0x8000_0000);
    assert_eq!(
        line,
        MetricLine {
            uptime: 86_400,
            ntp_requests: 123_456_789,
            satellites: 11,
            gps_lock_time: 3_600,
            serial_number: 54_321,
            firmware_version: 263,
            timestamp_ns: 1_700_000_000_500_000_000,
        }
    );
}

#[test]
fn timestamp_in_nanoseconds() {
    assert_eq!(encode(&status(), 0, 0).timestamp_ns, 0);
    assert_eq!(encode(&status(), 1, 0).timestamp_ns, 1_000_000_000);
    assert_eq!(encode(&status(), 0, 1).timestamp_ns, 0);
    assert_eq!(encode(&status(), 0, 5).timestamp_ns, 1);
    assert_eq!(encode(&status(), 0, 0x4000_0000).timestamp_ns, 250_000_000);
    assert_eq!(encode(&status(), 0, u32::MAX).timestamp_ns, 999_999_999);
    assert_eq!(encode(&status(), -1, 0x8000_0000).timestamp_ns, -500_000_000);
    assert_eq!(
        encode(&status(), 2_085_978_495, u32::MAX).timestamp_ns,
        2_085_978_495_999_999_999
    );
}

#[test]
fn timestamp_holds_for_the_widest_seconds() {
    assert_eq!(
        encode(&status(), i64::MAX, u32::MAX).timestamp_ns,
        i64::MAX as i128 * 1_000_000_000 + 999_999_999
    );
    assert_eq!(encode(&status(), i64::MIN, 0).timestamp_ns, i64::MIN as i128 * 1_000_000_000);
}

#[test]
fn record_as_text() {
    let line = encode(&status(), 1_700_000_000, 0x8000_0000);
    assert_eq!(
        String::from_utf8(line.to_bytes()).unwrap(),
        "Measurements,host=NTP01 Uptime=86400,Nb_NTP_Requests=123456789,Nb_of_SAT=11,\
         GPS_lock_time=3600,Serial_Number=54321,Firmware_Version=263 1700000000500000000"
    );
}

#[test]
fn record_of_zeros_as_text() {
    let line = MetricLine {
        uptime: 0,
        ntp_requests: 0,
        satellites: 0,
        gps_lock_time: 0,
        serial_number: 0,
        firmware_version: 0,
        timestamp_ns: 0,
    };
    assert_eq!(
        String::from_utf8(line.to_bytes()).unwrap(),
        "Measurements,host=NTP01 Uptime=0,Nb_NTP_Requests=0,Nb_of_SAT=0,GPS_lock_time=0,\
         Serial_Number=0,Firmware_Version=0 0"
    );
}

#[test]
fn record_of_largest_values_as_text() {
    let line = MetricLine {
        uptime: u32::MAX,
        ntp_requests: u32::MAX,
        satellites: u8::MAX,
        gps_lock_time: u32::MAX,
        serial_number: u16::MAX,
        firmware_version: u32::MAX,
        timestamp_ns: -1,
    };
    assert_eq!(
        String::from_utf8(line.to_bytes()).unwrap(),
        "Measurements,host=NTP01 Uptime=4294967295,Nb_NTP_Requests=4294967295,Nb_of_SAT=255,\
         GPS_lock_time=4294967295,Serial_Number=65535,Firmware_Version=4294967295 -1"
    );
}

#[test]
fn space_and_ampersand_are_escaped() {
    assert_eq!(url_encode("my org&co"), b"my%20org%26co".to_vec());
    assert_eq!(url_encode(" "), b"%20".to_vec());
    assert_eq!(url_encode("&"), b"%26".to_vec());
}

#[test]
fn reserved_characters_are_escaped() {
    assert_eq!(url_encode("%&=/?#"), b"%25%26%3D%2F%3F%23".to_vec());
    assert_eq!(url_encode("a+b:c@d"), b"a%2Bb%3Ac%40d".to_vec());
    assert_eq!(url_encode("\r\n\0\x7f"), b"%0D%0A%00%7F".to_vec());
}

#[test]
fn unreserved_characters_pass_through() {
    let plain = "ABCXYZabcxyz0123456789-_.~";
    assert_eq!(url_encode(plain), plain.as_bytes().to_vec());
    assert_eq!(url_encode(""), Vec::<u8>::new());
}

#[test]
fn bytes_of_other_scripts_are_escaped_one_by_one() {
    assert_eq!(url_encode("\u{e9}"), b"%C3%A9".to_vec());
    assert_eq!(url_encode("\u{20ac}"), b"%E2%82%AC".to_vec());
}

#[test]
fn decoding_recovers_what_was_encoded() {
    for text in ["my org&co", "", "plain", "%&=/?#", "100% \u{e9}\u{20ac} \"x\"", "a\nb\tc"] {
        let encoded = url_encode(text);
        assert_eq!(url_decode(&encoded), Some(text.as_bytes().to_vec()));
    }
    let every_byte: Vec<u8> = (0u8..=255).collect();
    for b in every_byte {
        let text = (b as char).to_string();
        assert_eq!(url_decode(&url_encode(&text)), Some(text.as_bytes().to_vec()));
    }
}

#[test]
fn decoding_takes_either_case_of_hexadecimal_digits() {
    assert_eq!(url_decode(b"%2f%2F%aB"), Some(vec![0x2F, 0x2F, 0xAB]));
    assert_eq!(url_decode(b"a%20b"), Some(b"a b".to_vec()));
    assert_eq!(url_decode(b"%00%ff"), Some(vec![0x00, 0xFF]));
    assert_eq!(url_decode(b"a+b"), Some(b"a+b".to_vec()));
}

#[test]
fn decoding_refuses_a_broken_escape() {
    assert_eq!(url_decode(b"%"), None);
    assert_eq!(url_decode(b"%2"), None);
    assert_eq!(url_decode(b"abc%2"), None);
    assert_eq!(url_decode(b"%zz"), None);
    assert_eq!(url_decode(b"%2g"), None);
    assert_eq!(url_decode(b"%g2"), None);
    assert_eq!(url_decode(b"ok%20%"), None);
    assert_eq!(url_decode(b"%%20"), None);
}

#[test]
fn write_path_for_plain_names() {
    assert_eq!(
        String::from_utf8(write_path("acme", "ntp")).unwrap(),
        "/api/v2/write?org=acme&bucket=ntp&precision=ns"
    );
}

#[test]
fn write_path_escapes_organization_and_bucket() {
    assert_eq!(
        String::from_utf8(write_path("my org", "a&b=c")).unwrap(),
        "/api/v2/write?org=my%20org&bucket=a%26b%3Dc&precision=ns"
    );
    assert_eq!(
        String::from_utf8(write_path("", "")).unwrap(),
        "/api/v2/write?org=&bucket=&precision=ns"
    );
}
