use leontp::calendar::CivilTimestamp;
use leontp::codec::StatusResponse;
use leontp::config::InfluxDB;
use leontp::metrics::MetricLine;
use leontp::run::{push_request, status_record, status_time};

fn status() -> StatusResponse {
    StatusResponse {
        ref_frac: 0x4000_0000,
        ref_seconds: 3_908_988_800,
        uptime_seconds: 86_400,
        ntp_requests_served: 123_456_789,
        mode6_requests_served: 42,
        gps_lock_seconds: 3_600,
        flags: 5,
        active_satellites: 11,
        serial_number: 54_321,
        firmware_version: 263,
    }
}

fn store() -> InfluxDB {
    InfluxDB {
        host: "influx.local".to_string(),
        port: 8086,
        token: "t0ken".to_string(),
        bucket: "ntp data".to_string(),
        org: "a&b".to_string(),
    }
}

#[test]
fn record_of_a_status_is_stamped_with_its_reference_time() {
    assert_eq!(
        status_record(&status()),
        MetricLine {
            uptime: 86_400,
            ntp_requests: 123_456_789,
            satellites: 11,
            gps_lock_time: 3_600,
            serial_number: 54_321,
            firmware_version: 263,
            timestamp_ns: 1_700_000_000_250_000_000,
        }
    );
}

#[test]
fn record_of_a_status_before_1970_is_stamped_with_the_fraction_alone() {
    let mut early = status();
    early.ref_seconds = 5;
    assert_eq!(status_record(&early).timestamp_ns, 250_000_000);
}

#[test]
fn civil_time_of_a_status() {
    assert_eq!(
        status_time(&status()),
        CivilTimestamp { year: 2023, month: 11, day: 14, hour: 22, minute: 13, second: 20 }
    );
    let mut early = status();
    early.ref_seconds = 0;
    assert_eq!(
        status_time(&early),
        CivilTimestamp { year: 1970, month: 1, day: 1, hour: 0, minute: 0, second: 0 }
    );
}

#[test]
fn request_that_sends_the_record_of_a_status() {
    let body = "Measurements,host=NTP01 Uptime=86400,Nb_NTP_Requests=123456789,Nb_of_SAT=11,\
                GPS_lock_time=3600,Serial_Number=54321,Firmware_Version=263 1700000000250000000";
    assert_eq!(body.len(), 155);
    assert_eq!(
        String::from_utf8(push_request(&store(), &status())).unwrap(),
        format!(
            "POST /api/v2/write?org=a%26b&bucket=ntp%20data&precision=ns HTTP/1.1\r\n\
             Host: influx.local:8086\r\n\
             Authorization: Token t0ken\r\n\
             Content-Type: text/plain; charset=utf-8\r\n\
             Content-Length: 155\r\n\
             Connection: close\r\n\
             \r\n{}",
            body
        )
    );
}
