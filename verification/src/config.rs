//! The settings of a run, read from the text of an INI document: where the
//! time server is, where the time-series store is, and what the run is to do.
//!
//! The document is parsed by the `ini` crate. What this module adds is which
//! sections and keys are asked for, in which order, and what their values have
//! to be.

use vstd::prelude::*;
use vstd::slice::slice_subrange;
use vstd::string::*;
use vstd::utf8::{decode_utf8, encode_utf8, encode_utf8_decode_utf8, valid_utf8};

verus! {

/// The time server to query.
#[derive(Clone, Debug, PartialEq, Eq)]
pub struct LeoNTP {
    pub ipaddr: String,
    pub portnum: u16,
}

/// The time-series store that takes the metrics.
#[derive(Clone, Debug, PartialEq, Eq)]
pub struct InfluxDB {
    pub host: String,
    pub port: u16,
    pub token: String,
    pub bucket: String,
    pub org: String,
}

/// What a run does with the status once it has it.
#[derive(Clone, Copy, Debug, PartialEq, Eq, Structural)]
pub struct Options {
    pub show_stats: bool,
    pub send_to_influxdb: bool,
}

/// All settings of a run.
#[derive(Clone, Debug, PartialEq, Eq)]
pub struct Config {
    pub leontp: LeoNTP,
    pub influxdb: InfluxDB,
    pub options: Options,
}

/// A `Config` as a value of specifications.
pub struct ConfigView {
    pub ipaddr: Seq<char>,
    pub portnum: u16,
    pub host: Seq<char>,
    pub port: u16,
    pub token: Seq<char>,
    pub bucket: Seq<char>,
    pub org: Seq<char>,
    pub options: Options,
}

impl View for Config {
    type V = ConfigView;

    open spec fn view(&self) -> ConfigView {
        ConfigView {
            ipaddr: self.leontp.ipaddr@,
            portnum: self.leontp.portnum,
            host: self.influxdb.host@,
            port: self.influxdb.port,
            token: self.influxdb.token@,
            bucket: self.influxdb.bucket@,
            org: self.influxdb.org@,
            options: self.options,
        }
    }
}

/// A section that the settings are read from.
#[derive(Clone, Copy, Debug, PartialEq, Eq, Structural)]
pub enum Section {
    LeoNtp,
    InfluxDb,
    Options,
}

/// A key whose value the settings need.
#[derive(Clone, Copy, Debug, PartialEq, Eq, Structural)]
pub enum Key {
    IpAddr,
    PortNum,
    Host,
    Port,
    Token,
    Bucket,
    Org,
}

/// Why a value is not a port number.
#[derive(Clone, Copy, Debug, PartialEq, Eq, Structural)]
pub enum NumberError {
    /// The value is empty.
    Empty,
    /// The value holds something other than decimal digits after an optional
    /// `+`.
    InvalidDigit,
    /// The number is above 65535.
    Overflow,
}

/// Where and why the `ini` crate stopped parsing a document.
#[derive(Clone, Debug, PartialEq, Eq)]
pub struct SyntaxError {
    pub line: usize,
    pub col: usize,
    pub message: String,
}

/// Why no settings came out of a document.
#[derive(Clone, Debug, PartialEq, Eq)]
pub enum ConfigError {
    /// The bytes are no UTF-8 text.
    NotUtf8,
    /// The text is no INI document.
    Syntax(SyntaxError),
    MissingSection(Section),
    MissingKey(Key),
    InvalidNumber(Key, NumberError),
}

/// A `ConfigError` as a value of specifications.
pub enum ConfigErrorView {
    NotUtf8,
    Syntax { line: nat, col: nat, message: Seq<char> },
    MissingSection(Section),
    MissingKey(Key),
    InvalidNumber(Key, NumberError),
}

impl View for ConfigError {
    type V = ConfigErrorView;

    open spec fn view(&self) -> ConfigErrorView {
        match self {
            ConfigError::NotUtf8 => ConfigErrorView::NotUtf8,
            ConfigError::Syntax(e) => ConfigErrorView::Syntax {
                line: e.line as nat,
                col: e.col as nat,
                message: e.message@,
            },
            ConfigError::MissingSection(section) => ConfigErrorView::MissingSection(*section),
            ConfigError::MissingKey(key) => ConfigErrorView::MissingKey(*key),
            ConfigError::InvalidNumber(key, why) => ConfigErrorView::InvalidNumber(*key, *why),
        }
    }
}

impl Section {
    /// The section's name in the document.
    pub open spec fn spec_name(&self) -> Seq<char> {
        match self {
            Section::LeoNtp => "LEONTP"@,
            Section::InfluxDb => "INFLUXDB"@,
            Section::Options => "OPTIONS"@,
        }
    }

    /// The section's name in the document.
    pub fn name(&self) -> (name: &'static str)
        ensures
            name@ == self.spec_name(),
    {
        match self {
            Section::LeoNtp => "LEONTP",
            Section::InfluxDb => "INFLUXDB",
            Section::Options => "OPTIONS",
        }
    }
}

impl Key {
    /// The key's name in the document.
    pub open spec fn spec_name(&self) -> Seq<char> {
        match self {
            Key::IpAddr => "IPADDR"@,
            Key::PortNum => "PORTNUM"@,
            Key::Host => "HOST"@,
            Key::Port => "PORT"@,
            Key::Token => "TOKEN"@,
            Key::Bucket => "BUCKET"@,
            Key::Org => "ORG"@,
        }
    }

    /// The key's name in the document.
    pub fn name(&self) -> (name: &'static str)
        ensures
            name@ == self.spec_name(),
    {
        match self {
            Key::IpAddr => "IPADDR",
            Key::PortNum => "PORTNUM",
            Key::Host => "HOST",
            Key::Port => "PORT",
            Key::Token => "TOKEN",
            Key::Bucket => "BUCKET",
            Key::Org => "ORG",
        }
    }
}

/// Whether `b` is a decimal digit.
pub open spec fn is_digit(b: u8) -> bool {
    0x30 <= b <= 0x39
}

/// The number that a run of digits stands for, read from the left. The first
/// byte that is no digit, or with which the number passes 65535, ends the
/// reading with an error; of the two, the byte that is no digit counts.
pub open spec fn digits_value(digits: Seq<u8>) -> Result<nat, NumberError>
    decreases digits.len(),
{
    if digits.len() == 0 {
        Ok(0)
    } else {
        match digits_value(digits.drop_last()) {
            Err(why) => Err(why),
            Ok(before) => if !is_digit(digits.last()) {
                Err(NumberError::InvalidDigit)
            } else if before * 10 + (digits.last() - 0x30) > u16::MAX {
                Err(NumberError::Overflow)
            } else {
                Ok((before * 10 + (digits.last() - 0x30)) as nat)
            },
        }
    }
}

/// The port number that `text` stands for: decimal digits, which one `+` may
/// precede, of a number up to 65535.
pub open spec fn parsed_port(text: Seq<u8>) -> Result<u16, NumberError> {
    if text.len() == 0 {
        Err(NumberError::Empty)
    } else {
        let digits = if text[0] == 0x2B && text.len() > 1 {
            text.skip(1)
        } else {
            text
        };
        match digits_value(digits) {
            Ok(value) => Ok(value as u16),
            Err(why) => Err(why),
        }
    }
}

/// The lower-case form of an ASCII letter; any other byte is itself.
pub open spec fn ascii_lower(b: u8) -> u8 {
    if 0x41 <= b <= 0x5A {
        (b + 0x20) as u8
    } else {
        b
    }
}

/// Whether two texts are the same but for the case of ASCII letters.
pub open spec fn same_ignoring_case(a: Seq<u8>, b: Seq<u8>) -> bool {
    a.len() == b.len() && forall|i: int| 0 <= i < a.len() ==> ascii_lower(a[i]) == ascii_lower(b[i])
}

/// Whether a flag's value switches it on: the word `true`, in any case.
pub open spec fn is_true(value: Seq<u8>) -> bool {
    same_ignoring_case(value, "true".spec_bytes())
}

/// An error in a prefix of the digits is the error of the whole.
proof fn lemma_digits_value_error(digits: Seq<u8>, k: int)
    requires
        0 <= k <= digits.len(),
        digits_value(digits.take(k)) is Err,
    ensures
        digits_value(digits) == digits_value(digits.take(k)),
    decreases digits.len() - k,
{
    if k < digits.len() {
        assert(digits.take(k + 1).drop_last() =~= digits.take(k));
        lemma_digits_value_error(digits, k + 1);
    } else {
        assert(digits.take(k) =~= digits);
    }
}

/// Reads a port number.
pub fn parse_port(text: &str) -> (r: Result<u16, NumberError>)
    ensures
        r == parsed_port(text.spec_bytes()),
{
    let bytes: &[u8] = text.as_bytes();
    let n: usize = bytes.len();
    if n == 0 {
        return Err(NumberError::Empty);
    }
    let start: usize = if bytes[0] == 0x2B && n > 1 {
        1
    } else {
        0
    };
    let ghost digits = bytes@.skip(start as int);
    assert(start == 0 ==> digits =~= bytes@);
    let mut value: u32 = 0;
    let mut i: usize = start;
    while i < n
        invariant
            start <= i <= n,
            n == bytes@.len(),
            digits == bytes@.skip(start as int),
            parsed_port(text.spec_bytes()) == match digits_value(digits) {
                Ok(v) => Ok::<u16, NumberError>(v as u16),
                Err(why) => Err(why),
            },
            digits_value(digits.take(i - start)) == Ok::<nat, NumberError>(value as nat),
            value <= u16::MAX,
        decreases n - i,
    {
        let b: u8 = bytes[i];
        proof {
            assert(digits.take(i - start + 1).drop_last() =~= digits.take(i - start));
        }
        if !(0x30 <= b && b <= 0x39) {
            proof {
                lemma_digits_value_error(digits, i - start + 1);
            }
            return Err(NumberError::InvalidDigit);
        }
        let next: u32 = value * 10 + (b - 0x30) as u32;
        if next > 0xFFFF {
            proof {
                lemma_digits_value_error(digits, i - start + 1);
            }
            return Err(NumberError::Overflow);
        }
        value = next;
        i = i + 1;
    }
    assert(digits.take(n - start) =~= digits);
    Ok(value as u16)
}

/// Tests `is_true`.
pub fn parse_flag(value: &str) -> (on: bool)
    ensures
        on == is_true(value.spec_bytes()),
{
    let bytes: &[u8] = value.as_bytes();
    let word: &[u8] = "true".as_bytes();
    let n: usize = bytes.len();
    if n != word.len() {
        return false;
    }
    let mut i: usize = 0;
    while i < n
        invariant
            i <= n,
            n == bytes@.len(),
            n == word@.len(),
            bytes@ == value.spec_bytes(),
            word@ == "true".spec_bytes(),
            forall|j: int| 0 <= j < i ==> ascii_lower(bytes@[j]) == ascii_lower(word@[j]),
        decreases n - i,
    {
        if lower(bytes[i]) != lower(word[i]) {
            return false;
        }
        i = i + 1;
    }
    true
}

/// The lower-case form of an ASCII letter; any other byte is itself.
fn lower(b: u8) -> (r: u8)
    ensures
        r == ascii_lower(b),
{
    if 0x41 <= b && b <= 0x5A {
        b + 0x20
    } else {
        b
    }
}

/// The type `ini::Ini`, a parsed document. Nothing of its inside is known here;
/// `ini_sections` stands for what it holds.
#[verifier::external_type_specification]
#[verifier::external_body]
pub struct ExIni(ini::Ini);

/// The type `ini::Properties`, the keys and values of one section of a parsed
/// document. Nothing of its inside is known here; `section_entries` stands for
/// what it holds.
#[verifier::external_type_specification]
#[verifier::external_body]
pub struct ExProperties(ini::Properties);

/// What `ini::Ini::load_from_str` makes of a text: the named sections of the
/// document, as `ini_sections` gives them, or the line, the column and the
/// message of the parse error.
pub uninterp spec fn ini_document(text: Seq<char>) -> Result<
    Map<Seq<char>, Map<Seq<char>, Seq<char>>>,
    (nat, nat, Seq<char>),
>;

/// The named sections of a parsed document by name, each as
/// `section_entries` gives it. Where several sections share a name, the first
/// of them stands for the name.
pub uninterp spec fn ini_sections(doc: ini::Ini) -> Map<Seq<char>, Map<Seq<char>, Seq<char>>>;

/// The values of a section by key. Where a key occurs more than once, its
/// first value stands for the key.
pub uninterp spec fn section_entries(props: ini::Properties) -> Map<Seq<char>, Seq<char>>;

/// Calls `ini::Ini::load_from_str`, which parses with the crate's default
/// options. The contract names the outcome after the text alone: the same text
/// gives the same sections or the same error. A parse error comes back with
/// its three fields moved into a `SyntaxError`.
#[verifier::external_body]
fn parse_document(text: &str) -> (r: Result<ini::Ini, SyntaxError>)
    ensures
        match r {
            Ok(doc) => ini_document(text@) matches Ok(sections) && sections == ini_sections(doc),
            Err(e) => ini_document(text@) matches Err(why) && why == (
                e.line as nat,
                e.col as nat,
                e.message@,
            ),
        },
{
    match ini::Ini::load_from_str(text) {
        Ok(doc) => Ok(doc),
        Err(e) => Err(SyntaxError { line: e.line, col: e.col, message: e.msg.into_owned() }),
    }
}

/// Calls `ini::Ini::section` with `Some(name)`, which gives the first section
/// of that name, or nothing where the document has no section of that name.
#[verifier::external_body]
fn section<'a>(doc: &'a ini::Ini, name: &str) -> (r: Option<&'a ini::Properties>)
    ensures
        match r {
            Some(props) => ini_sections(*doc).contains_key(name@) && section_entries(*props)
                == ini_sections(*doc)[name@],
            None => !ini_sections(*doc).contains_key(name@),
        },
{
    doc.section(Some(name))
}

/// Calls `ini::Properties::get`, which gives the first value of a key, or
/// nothing where the section has no such key.
#[verifier::external_body]
fn property<'a>(props: &'a ini::Properties, key: &str) -> (r: Option<&'a str>)
    ensures
        match r {
            Some(value) => section_entries(*props).contains_key(key@) && value@ == section_entries(
                *props,
            )[key@],
            None => !section_entries(*props).contains_key(key@),
        },
{
    props.get(key)
}

/// Calls `core::str::from_utf8`, which gives the text that the bytes are the
/// UTF-8 form of, or an error, here `None`, where they are not valid UTF-8.
#[verifier::external_body]
fn text_of(bytes: &[u8]) -> (r: Option<&str>)
    ensures
        match r {
            Some(text) => valid_utf8(bytes@) && text.spec_bytes() == bytes@,
            None => !valid_utf8(bytes@),
        },
{
    core::str::from_utf8(bytes).ok()
}

/// The value of a flag in a section: off where the key is missing.
pub open spec fn flag_of(entries: Map<Seq<char>, Seq<char>>, key: Seq<char>) -> bool {
    entries.contains_key(key) && is_true(encode_utf8(entries[key]))
}

/// The port number under `key` in a section that has the key.
pub open spec fn port_of(entries: Map<Seq<char>, Seq<char>>, key: Seq<char>) -> Result<
    u16,
    NumberError,
> {
    parsed_port(encode_utf8(entries[key]))
}

/// The settings that the sections of a document give. Sections and keys are
/// asked for in a fixed order, and the first that is missing, or the first
/// port that is no number, is the error. A flag is on where its value is the
/// word `true`, in any case.
pub open spec fn settings_of(sections: Map<Seq<char>, Map<Seq<char>, Seq<char>>>) -> Result<
    ConfigView,
    ConfigErrorView,
> {
    let leontp = sections["LEONTP"@];
    let influxdb = sections["INFLUXDB"@];
    let options = sections["OPTIONS"@];
    if !sections.contains_key("LEONTP"@) {
        Err(ConfigErrorView::MissingSection(Section::LeoNtp))
    } else if !leontp.contains_key("IPADDR"@) {
        Err(ConfigErrorView::MissingKey(Key::IpAddr))
    } else if !leontp.contains_key("PORTNUM"@) {
        Err(ConfigErrorView::MissingKey(Key::PortNum))
    } else if port_of(leontp, "PORTNUM"@) is Err {
        Err(ConfigErrorView::InvalidNumber(Key::PortNum, port_of(leontp, "PORTNUM"@)->Err_0))
    } else if !sections.contains_key("INFLUXDB"@) {
        Err(ConfigErrorView::MissingSection(Section::InfluxDb))
    } else if !influxdb.contains_key("HOST"@) {
        Err(ConfigErrorView::MissingKey(Key::Host))
    } else if !influxdb.contains_key("PORT"@) {
        Err(ConfigErrorView::MissingKey(Key::Port))
    } else if port_of(influxdb, "PORT"@) is Err {
        Err(ConfigErrorView::InvalidNumber(Key::Port, port_of(influxdb, "PORT"@)->Err_0))
    } else if !influxdb.contains_key("TOKEN"@) {
        Err(ConfigErrorView::MissingKey(Key::Token))
    } else if !influxdb.contains_key("BUCKET"@) {
        Err(ConfigErrorView::MissingKey(Key::Bucket))
    } else if !influxdb.contains_key("ORG"@) {
        Err(ConfigErrorView::MissingKey(Key::Org))
    } else if !sections.contains_key("OPTIONS"@) {
        Err(ConfigErrorView::MissingSection(Section::Options))
    } else {
        Ok(
            ConfigView {
                ipaddr: leontp["IPADDR"@],
                portnum: port_of(leontp, "PORTNUM"@)->Ok_0,
                host: influxdb["HOST"@],
                port: port_of(influxdb, "PORT"@)->Ok_0,
                token: influxdb["TOKEN"@],
                bucket: influxdb["BUCKET"@],
                org: influxdb["ORG"@],
                options: Options {
                    show_stats: flag_of(options, "SHOW_STATS"@),
                    send_to_influxdb: flag_of(options, "SEND_TO_INFLUXDB"@),
                },
            },
        )
    }
}

/// The settings that a text gives: those of its sections, or the error with
/// which the text fails to parse.
pub open spec fn settings_of_text(text: Seq<char>) -> Result<ConfigView, ConfigErrorView> {
    match ini_document(text) {
        Ok(sections) => settings_of(sections),
        Err((line, col, message)) => Err(ConfigErrorView::Syntax { line, col, message }),
    }
}

/// The bytes of a file without the byte-order mark that may stand at their
/// start.
pub open spec fn without_byte_order_mark(bytes: Seq<u8>) -> Seq<u8> {
    if bytes.len() >= 3 && bytes[0] == 0xEF && bytes[1] == 0xBB && bytes[2] == 0xBF {
        bytes.skip(3)
    } else {
        bytes
    }
}

/// The settings that the bytes of a file give: those of the text that they
/// encode, a byte-order mark at their start left aside.
pub open spec fn settings_of_bytes(bytes: Seq<u8>) -> Result<ConfigView, ConfigErrorView> {
    let content = without_byte_order_mark(bytes);
    if valid_utf8(content) {
        settings_of_text(decode_utf8(content))
    } else {
        Err(ConfigErrorView::NotUtf8)
    }
}

/// The view of a result of loading.
pub open spec fn loaded_view(r: Result<Config, ConfigError>) -> Result<ConfigView, ConfigErrorView> {
    match r {
        Ok(config) => Ok(config@),
        Err(why) => Err(why@),
    }
}

/// The section `which` of a document.
fn require_section<'a>(doc: &'a ini::Ini, which: Section) -> (r: Result<
    &'a ini::Properties,
    ConfigError,
>)
    ensures
        match r {
            Ok(props) => ini_sections(*doc).contains_key(which.spec_name()) && section_entries(
                *props,
            ) == ini_sections(*doc)[which.spec_name()],
            Err(why) => !ini_sections(*doc).contains_key(which.spec_name()) && why
                == ConfigError::MissingSection(which),
        },
{
    match section(doc, which.name()) {
        Some(props) => Ok(props),
        None => Err(ConfigError::MissingSection(which)),
    }
}

/// The value of `key` in a section.
fn require_value<'a>(props: &'a ini::Properties, key: Key) -> (r: Result<&'a str, ConfigError>)
    ensures
        match r {
            Ok(value) => section_entries(*props).contains_key(key.spec_name()) && value@
                == section_entries(*props)[key.spec_name()],
            Err(why) => !section_entries(*props).contains_key(key.spec_name()) && why
                == ConfigError::MissingKey(key),
        },
{
    match property(props, key.name()) {
        Some(value) => Ok(value),
        None => Err(ConfigError::MissingKey(key)),
    }
}

/// The port number under `key` in a section.
fn require_port(props: &ini::Properties, key: Key) -> (r: Result<u16, ConfigError>)
    ensures
        match r {
            Ok(port) => section_entries(*props).contains_key(key.spec_name()) && port_of(
                section_entries(*props),
                key.spec_name(),
            ) == Ok::<u16, NumberError>(port),
            Err(why) => if section_entries(*props).contains_key(key.spec_name()) {
                port_of(section_entries(*props), key.spec_name()) matches Err(e) && why
                    == ConfigError::InvalidNumber(key, e)
            } else {
                why == ConfigError::MissingKey(key)
            },
        },
{
    let value: &str = require_value(props, key)?;
    match parse_port(value) {
        Ok(port) => Ok(port),
        Err(why) => Err(ConfigError::InvalidNumber(key, why)),
    }
}

/// The flag under `name` in a section.
fn flag(props: &ini::Properties, name: &str) -> (on: bool)
    ensures
        on == flag_of(section_entries(*props), name@),
{
    match property(props, name) {
        Some(value) => parse_flag(value),
        None => false,
    }
}

impl Config {
    /// Reads the settings from the bytes of a file that holds an INI document
    /// in UTF-8, with or without a byte-order mark.
    pub fn load_bytes(bytes: &[u8]) -> (r: Result<Config, ConfigError>)
        ensures
            loaded_view(r) == settings_of_bytes(bytes@),
    {
        let n: usize = bytes.len();
        let content: &[u8] = if n >= 3 && bytes[0] == 0xEF && bytes[1] == 0xBB && bytes[2] == 0xBF {
            slice_subrange(bytes, 3, n)
        } else {
            slice_subrange(bytes, 0, n)
        };
        assert(content@ =~= without_byte_order_mark(bytes@));
        match text_of(content) {
            Some(text) => {
                proof {
                    encode_utf8_decode_utf8(text@);
                }
                Config::load(text)
            },
            None => Err(ConfigError::NotUtf8),
        }
    }

    /// Reads the settings from the text of an INI document.
    pub fn load(text: &str) -> (r: Result<Config, ConfigError>)
        ensures
            loaded_view(r) == settings_of_text(text@),
    {
        match parse_document(text) {
            Ok(doc) => Config::from_ini(&doc),
            Err(e) => Err(ConfigError::Syntax(e)),
        }
    }

    /// Reads the settings from a parsed document.
    pub fn from_ini(doc: &ini::Ini) -> (r: Result<Config, ConfigError>)
        ensures
            loaded_view(r) == settings_of(ini_sections(*doc)),
    {
        let leontp: &ini::Properties = require_section(doc, Section::LeoNtp)?;
        let ipaddr: String = require_value(leontp, Key::IpAddr)?.to_owned();
        let portnum: u16 = require_port(leontp, Key::PortNum)?;
        let influxdb: &ini::Properties = require_section(doc, Section::InfluxDb)?;
        let host: String = require_value(influxdb, Key::Host)?.to_owned();
        let port: u16 = require_port(influxdb, Key::Port)?;
        let token: String = require_value(influxdb, Key::Token)?.to_owned();
        let bucket: String = require_value(influxdb, Key::Bucket)?.to_owned();
        let org: String = require_value(influxdb, Key::Org)?.to_owned();
        let options: &ini::Properties = require_section(doc, Section::Options)?;
        let show_stats: bool = flag(options, "SHOW_STATS");
        let send_to_influxdb: bool = flag(options, "SEND_TO_INFLUXDB");
        Ok(
            Config {
                leontp: LeoNTP { ipaddr, portnum },
                influxdb: InfluxDB { host, port, token, bucket, org },
                options: Options { show_stats, send_to_influxdb },
            },
        )
    }
}

} // verus!
