//! A run from its query on: what is done with the outcome of the query, and
//! what is sent where metrics are sent.

use vstd::prelude::*;
use vstd::utf8::encode_utf8;
use crate::calendar::{civil_of, to_civil, CivilTimestamp};
use crate::codec::StatusResponse;
use crate::config::{InfluxDB, Options};
use crate::http::{build_request, request_bytes};
use crate::metrics::{encode, timestamp_nanos, write_path, write_path_bytes, MetricLine};
use crate::query::QueryError;

verus! {

/// What a run does once its query has ended.
#[derive(Clone, Copy, Debug, PartialEq, Eq, Structural)]
pub struct RunPlan {
    /// The run has failed: there is no status to show or to send.
    pub failed: bool,
    /// The status is printed.
    pub show_report: bool,
    /// The metrics are sent.
    pub push_metrics: bool,
    /// It is said that sending is switched off.
    pub note_push_disabled: bool,
    /// It is said when the metrics have been taken.
    pub note_push_success: bool,
}

/// The plan for a run with the given options: without a status the run fails
/// and does nothing more; with one, the status is printed where statistics
/// are wanted, the metrics are sent where sending is switched on, and what is
/// said about sending is said only where statistics are wanted.
pub open spec fn plan_of(options: Options, query_succeeded: bool) -> RunPlan {
    RunPlan {
        failed: !query_succeeded,
        show_report: query_succeeded && options.show_stats,
        push_metrics: query_succeeded && options.send_to_influxdb,
        note_push_disabled: query_succeeded && !options.send_to_influxdb && options.show_stats,
        note_push_success: query_succeeded && options.send_to_influxdb && options.show_stats,
    }
}

/// Plans the rest of a run from the outcome of its query.
pub fn plan_run(options: &Options, outcome: &Result<StatusResponse, QueryError>) -> (plan: RunPlan)
    ensures
        plan == plan_of(*options, *outcome is Ok),
{
    let ok: bool = outcome.is_ok();
    RunPlan {
        failed: !ok,
        show_report: ok && options.show_stats,
        push_metrics: ok && options.send_to_influxdb,
        note_push_disabled: ok && !options.send_to_influxdb && options.show_stats,
        note_push_success: ok && options.send_to_influxdb && options.show_stats,
    }
}

/// A run that has no status sends nothing, whatever its options.
pub proof fn lemma_no_push_without_status(options: Options)
    ensures
        plan_of(options, false).failed,
        !plan_of(options, false).push_metrics,
        !plan_of(options, false).show_report,
{
}

/// The record of a status: its fields, at the status's own reference time.
pub open spec fn record_of(status: StatusResponse) -> MetricLine {
    MetricLine {
        uptime: status.uptime_seconds,
        ntp_requests: status.ntp_requests_served,
        satellites: status.active_satellites,
        gps_lock_time: status.gps_lock_seconds,
        serial_number: status.serial_number,
        firmware_version: status.firmware_version,
        timestamp_ns: timestamp_nanos(status.spec_unix_seconds(), status.ref_frac) as i128,
    }
}

/// Builds the record of a status.
pub fn status_record(status: &StatusResponse) -> (line: MetricLine)
    ensures
        line == record_of(*status),
{
    encode(status, status.unix_seconds(), status.ref_frac)
}

/// The civil time of a status's reference time, to the second.
pub fn status_time(status: &StatusResponse) -> (time: CivilTimestamp)
    ensures
        time == civil_of(status.spec_unix_seconds()),
        time.wf(),
{
    to_civil(status.unix_seconds())
}

/// Builds the request that writes the record of a status to a store: under
/// the write path of the store's organization and bucket, with its token.
pub fn push_request(store: &InfluxDB, status: &StatusResponse) -> (request: Vec<u8>)
    ensures
        request@ == request_bytes(
            write_path_bytes(encode_utf8(store.org@), encode_utf8(store.bucket@)),
            encode_utf8(store.host@),
            store.port,
            encode_utf8(store.token@),
            record_of(*status).text(),
        ),
{
    let body: Vec<u8> = status_record(status).to_bytes();
    let path: Vec<u8> = write_path(store.org.as_str(), store.bucket.as_str());
    build_request(
        path.as_slice(),
        store.host.as_str(),
        store.port,
        store.token.as_str(),
        body.as_slice(),
    )
}

} // verus!
