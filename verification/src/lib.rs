//! Status telemetry of a GPS-disciplined time server.
//!
//! - `codec`: the request frame of a status query and the decoding of its
//!   fixed-layout response.
//! - `calendar`: civil time from a signed count of seconds since 1970.
//! - `query`: one status query, as what each report of its transport makes of
//!   it.
//! - `metrics`: the line-protocol record of a status and the percent-encoded
//!   write path.
//! - `http`: the literal HTTP/1.1 request that delivers a record, and the
//!   reading of the response.
//! - `run`: what a run does once its query has ended.
//! - `config`: the settings of a run, from the text of an INI document.
//! - `text`: bytes of literal text and of integers in decimal.
//!
//! Nothing here opens a socket or a file: the library takes and gives bytes
//! and plain values. What it computes is verified against its contracts. What
//! the `ini` crate makes of a document, and whether bytes are UTF-8, is taken
//! on trust from the contracts of four small functions in `config`.

pub mod calendar;
pub mod codec;
pub mod config;
pub mod http;
pub mod metrics;
pub mod query;
pub mod run;
pub mod text;
