use std::num::IntErrorKind;

use leontp::config::{
    parse_flag, parse_port, Config, ConfigError, InfluxDB, Key, LeoNTP, NumberError, Options,
    Section, SyntaxError,
};

const FULL: &str = "\
[LEONTP]
IPADDR = 192.168.1.10
PORTNUM = 123

[INFLUXDB]
HOST = influx.local
PORT = 8086
TOKEN = t0ken
BUCKET = ntp
ORG = my org

[OPTIONS]
SHOW_STATS = true
SEND_TO_INFLUXDB = false
";

fn full() -> Config {
    Config {
        leontp: LeoNTP { ipaddr: "192.168.1.10".to_string(), portnum: 123 },
        influxdb: InfluxDB {
            host: "influx.local".to_string(),
            port: 8086,
            token: "t0ken".to_string(),
            bucket: "ntp".to_string(),
            org: "my org".to_string(),
        },
        options: Options { show_stats: true, send_to_influxdb: false },
    }
}

fn without(line: &str) -> String {
    let kept: Vec<&str> = FULL.lines().filter(|l| *l != line).collect();
    assert_eq!(kept.len() + 1, FULL.lines().count());
    kept.join("\n")
}

fn with(line: &str, other: &str) -> String {
    assert!(FULL.contains(line));
    FULL.replace(line, other)
}

#[test]
fn loads_a_full_document() {
    assert_eq!(Config::load(FULL), Ok(full()));
}

#[test]
fn loads_from_a_parsed_document() {
    let doc = ini::Ini::load_from_str(FULL).unwrap();
    assert_eq!(Config::from_ini(&doc), Ok(full()));
}

#[test]
fn loads_from_a_document_built_by_hand() {
    let mut doc = ini::Ini::new();
    doc.with_section(Some("LEONTP")).set("IPADDR", "10.0.0.1").set("PORTNUM", "+123");
    doc.with_section(Some("INFLUXDB"))
        .set("HOST", "h")
        .set("PORT", "1")
        .set("TOKEN", "t")
        .set("BUCKET", "b")
        .set("ORG", "o");
    doc.with_section(Some("OPTIONS")).set("SEND_TO_INFLUXDB", "TRUE");
    assert_eq!(
        Config::from_ini(&doc),
        Ok(Config {
            leontp: LeoNTP { ipaddr: "10.0.0.1".to_string(), portnum: 123 },
            influxdb: InfluxDB {
                host: "h".to_string(),
                port: 1,
                token: "t".to_string(),
                bucket: "b".to_string(),
                org: "o".to_string(),
            },
            options: Options { show_stats: false, send_to_influxdb: true },
        })
    );
}

#[test]
fn missing_sections() {
    assert_eq!(Config::load(""), Err(ConfigError::MissingSection(Section::LeoNtp)));
    assert_eq!(
        Config::load(&without("[LEONTP]")),
        Err(ConfigError::MissingSection(Section::LeoNtp))
    );
    assert_eq!(
        Config::load(&without("[INFLUXDB]")),
        Err(ConfigError::MissingSection(Section::InfluxDb))
    );
    assert_eq!(
        Config::load(&without("[OPTIONS]")),
        Err(ConfigError::MissingSection(Section::Options))
    );
    // Section names are matched exactly.
    assert_eq!(
        Config::load(&with("[LEONTP]", "[leontp]")),
        Err(ConfigError::MissingSection(Section::LeoNtp))
    );
}

#[test]
fn missing_keys() {
    let cases = [
        ("IPADDR = 192.168.1.10", Key::IpAddr),
        ("PORTNUM = 123", Key::PortNum),
        ("HOST = influx.local", Key::Host),
        ("PORT = 8086", Key::Port),
        ("TOKEN = t0ken", Key::Token),
        ("BUCKET = ntp", Key::Bucket),
        ("ORG = my org", Key::Org),
    ];
    for (line, key) in cases {
        assert_eq!(Config::load(&without(line)), Err(ConfigError::MissingKey(key)));
    }
}

#[test]
fn the_first_thing_missing_is_reported() {
    let text = "[LEONTP]\nPORTNUM = x\n";
    assert_eq!(Config::load(text), Err(ConfigError::MissingKey(Key::IpAddr)));
    let text = "[LEONTP]\nIPADDR = a\nPORTNUM = x\n";
    assert_eq!(
        Config::load(text),
        Err(ConfigError::InvalidNumber(Key::PortNum, NumberError::InvalidDigit))
    );
    let text = "[LEONTP]\nIPADDR = a\nPORTNUM = 1\n";
    assert_eq!(Config::load(text), Err(ConfigError::MissingSection(Section::InfluxDb)));
    let text = "[LEONTP]\nIPADDR = a\nPORTNUM = 1\n[INFLUXDB]\nPORT = 70000\n";
    assert_eq!(Config::load(text), Err(ConfigError::MissingKey(Key::Host)));
    let text = "[LEONTP]\nIPADDR = a\nPORTNUM = 1\n[INFLUXDB]\nHOST = h\nPORT = 70000\n";
    assert_eq!(
        Config::load(text),
        Err(ConfigError::InvalidNumber(Key::Port, NumberError::Overflow))
    );
}

#[test]
fn ports_that_are_no_numbers() {
    assert_eq!(
        Config::load(&with("PORTNUM = 123", "PORTNUM = 12a")),
        Err(ConfigError::InvalidNumber(Key::PortNum, NumberError::InvalidDigit))
    );
    assert_eq!(
        Config::load(&with("PORTNUM = 123", "PORTNUM =")),
        Err(ConfigError::InvalidNumber(Key::PortNum, NumberError::Empty))
    );
    assert_eq!(
        Config::load(&with("PORT = 8086", "PORT = 65536")),
        Err(ConfigError::InvalidNumber(Key::Port, NumberError::Overflow))
    );
    assert_eq!(
        Config::load(&with("PORT = 8086", "PORT = -1")),
        Err(ConfigError::InvalidNumber(Key::Port, NumberError::InvalidDigit))
    );
}

#[test]
fn port_numbers() {
    assert_eq!(parse_port("0"), Ok(0));
    assert_eq!(parse_port("123"), Ok(123));
    assert_eq!(parse_port("65535"), Ok(65_535));
    assert_eq!(parse_port("+80"), Ok(80));
    assert_eq!(parse_port("00080"), Ok(80));
    assert_eq!(parse_port("0000000000000000000000000000000000065535"), Ok(65_535));
    assert_eq!(parse_port(""), Err(NumberError::Empty));
    assert_eq!(parse_port("+"), Err(NumberError::InvalidDigit));
    assert_eq!(parse_port("-"), Err(NumberError::InvalidDigit));
    assert_eq!(parse_port("-1"), Err(NumberError::InvalidDigit));
    assert_eq!(parse_port("++1"), Err(NumberError::InvalidDigit));
    assert_eq!(parse_port(" 1"), Err(NumberError::InvalidDigit));
    assert_eq!(parse_port("1 "), Err(NumberError::InvalidDigit));
    assert_eq!(parse_port("0x10"), Err(NumberError::InvalidDigit));
    assert_eq!(parse_port("\u{663}"), Err(NumberError::InvalidDigit));
    assert_eq!(parse_port("65536"), Err(NumberError::Overflow));
    assert_eq!(parse_port("99999"), Err(NumberError::Overflow));
    assert_eq!(parse_port("100000"), Err(NumberError::Overflow));
}

#[test]
fn port_numbers_agree_with_the_standard_parser() {
    for text in ["0", "7", "+7", "65535", "65536", "655350", "12x", "x12", "", "+", "-", "-0", "1e3"] {
        assert_eq!(parse_port(text).ok(), text.parse::<u16>().ok());
    }
}

#[test]
fn the_first_offending_byte_decides_the_error() {
    // The sixth digit passes 65535 before the letter is reached.
    assert_eq!(parse_port("999999x"), Err(NumberError::Overflow));
    // The letter comes first.
    assert_eq!(parse_port("9x99999"), Err(NumberError::InvalidDigit));
    // A byte that is no digit counts before the overflow that it would cause.
    assert_eq!(parse_port("65535x"), Err(NumberError::InvalidDigit));
}

#[test]
fn flags() {
    assert!(parse_flag("true"));
    assert!(parse_flag("TRUE"));
    assert!(parse_flag("True"));
    assert!(parse_flag("tRuE"));
    assert!(!parse_flag("false"));
    assert!(!parse_flag(""));
    assert!(!parse_flag("1"));
    assert!(!parse_flag("yes"));
    assert!(!parse_flag("true "));
    assert!(!parse_flag("truee"));
    assert!(!parse_flag("tru"));
    assert!(!parse_flag("\u{0054}\u{0052}\u{0055}\u{212a}"));
}

#[test]
fn flags_default_to_off() {
    let text = without("SHOW_STATS = true");
    let text = text.replace("SEND_TO_INFLUXDB = false", "");
    let mut expected = full();
    expected.options = Options { show_stats: false, send_to_influxdb: false };
    assert_eq!(Config::load(&text), Ok(expected));
}

#[test]
fn flags_are_read_in_any_case() {
    let text = with("SHOW_STATS = true", "SHOW_STATS = no").replace(
        "SEND_TO_INFLUXDB = false",
        "SEND_TO_INFLUXDB = True",
    );
    let mut expected = full();
    expected.options = Options { show_stats: false, send_to_influxdb: true };
    assert_eq!(Config::load(&text), Ok(expected));
}

#[test]
fn the_first_of_repeated_keys_and_sections_counts() {
    let text = format!("{}\n[LEONTP]\nIPADDR = 10.9.9.9\nPORTNUM = 9\n", FULL);
    assert_eq!(Config::load(&text), Ok(full()));
    let text = with("HOST = influx.local", "HOST = influx.local\nHOST = other");
    assert_eq!(Config::load(&text), Ok(full()));
}

#[test]
fn keys_of_another_section_do_not_count() {
    let text = "[INFLUXDB]\nIPADDR = a\nPORTNUM = 1\n[LEONTP]\nHOST = h\n";
    assert_eq!(Config::load(text), Err(ConfigError::MissingKey(Key::IpAddr)));
}

#[test]
fn text_that_is_no_document() {
    assert_eq!(
        Config::load("=value"),
        Err(ConfigError::Syntax(SyntaxError {
            line: 1,
            col: 2,
            message: "missing key".to_string(),
        }))
    );
    match Config::load("[LEONTP]\nIPADDR") {
        Err(ConfigError::Syntax(e)) => {
            assert_eq!(e.line, 2);
            assert!(!e.message.is_empty());
        }
        other => panic!("{:?}", other),
    }
}

#[test]
fn names_of_sections_and_keys() {
    assert_eq!(Section::LeoNtp.name(), "LEONTP");
    assert_eq!(Section::InfluxDb.name(), "INFLUXDB");
    assert_eq!(Section::Options.name(), "OPTIONS");
    assert_eq!(Key::IpAddr.name(), "IPADDR");
    assert_eq!(Key::PortNum.name(), "PORTNUM");
    assert_eq!(Key::Host.name(), "HOST");
    assert_eq!(Key::Port.name(), "PORT");
    assert_eq!(Key::Token.name(), "TOKEN");
    assert_eq!(Key::Bucket.name(), "BUCKET");
    assert_eq!(Key::Org.name(), "ORG");
}

#[test]
fn loads_the_bytes_of_a_file() {
    assert_eq!(Config::load_bytes(FULL.as_bytes()), Ok(full()));
    assert_eq!(Config::load_bytes(b""), Err(ConfigError::MissingSection(Section::LeoNtp)));
}

#[test]
fn a_byte_order_mark_is_left_aside() {
    let mut bytes = vec![0xEF, 0xBB, 0xBF];
    bytes.extend_from_slice(FULL.as_bytes());
    assert_eq!(Config::load_bytes(&bytes), Ok(full()));
    // Only one mark, and only at the start.
    let mut twice = vec![0xEF, 0xBB, 0xBF, 0xEF, 0xBB, 0xBF];
    twice.extend_from_slice(FULL.as_bytes());
    assert!(Config::load_bytes(&twice) != Ok(full()));
    assert_eq!(
        Config::load_bytes(&[0xEF, 0xBB, 0xBF]),
        Err(ConfigError::MissingSection(Section::LeoNtp))
    );
}

#[test]
fn bytes_that_are_no_text() {
    assert_eq!(Config::load_bytes(&[0xFF, 0xFE, 0x00]), Err(ConfigError::NotUtf8));
    assert_eq!(Config::load_bytes(&[0xEF, 0xBB]), Err(ConfigError::NotUtf8));
    assert_eq!(Config::load_bytes(&[0xEF, 0xBB, 0xBF, 0xC0, 0x80]), Err(ConfigError::NotUtf8));
    let mut bytes = FULL.as_bytes().to_vec();
    bytes.push(0x80);
    assert_eq!(Config::load_bytes(&bytes), Err(ConfigError::NotUtf8));
}

#[test]
fn values_in_other_scripts_are_kept() {
    let text = with("ORG = my org", "ORG = caf\u{e9} \u{20ac}");
    let mut expected = full();
    expected.influxdb.org = "caf\u{e9} \u{20ac}".to_string();
    assert_eq!(Config::load_bytes(text.as_bytes()), Ok(expected));
}

#[test]
fn the_kind_of_error_agrees_with_the_standard_parser() {
    let texts = [
        "", "+", "-", "0", "+0", "-0", "65535", "65536", "+65535", "+65536", "999999x", "9x99999",
        "65535x", "6553x5", "x", "12 ", " 12", "1_000", "0000065536", "4294967296", "\u{663}1",
    ];
    for text in texts {
        let expected = match text.parse::<u16>() {
            Ok(port) => Ok(port),
            Err(e) => Err(match e.kind() {
                IntErrorKind::Empty => NumberError::Empty,
                IntErrorKind::InvalidDigit => NumberError::InvalidDigit,
                IntErrorKind::PosOverflow => NumberError::Overflow,
                other => panic!("{:?}", other),
            }),
        };
        assert_eq!(parse_port(text), expected);
    }
}

#[test]
fn flags_agree_with_the_standard_comparison() {
    for text in ["true", "TRUE", "tRue", "false", "", "t", "truee", " true", "yes", "tru\u{e9}"] {
        assert_eq!(parse_flag(text), text.eq_ignore_ascii_case("true"));
    }
}
