//! The overview chart: the time range asked for and the Flux queries sent to
//! InfluxDB for it.

use vstd::prelude::*;
use crate::text::{decimal, push_decimal};

verus! {

/// Query of `GET /api/v1/chart/history?minutes=X`.
#[derive(Debug, Clone, Copy)]
pub struct HistoryParams {
    pub minutes: Option<u32>,
}

impl HistoryParams {
    /// The range in minutes: 60 by default, kept within 1..=720.
    pub fn effective_minutes(&self) -> (m: u32)
        ensures
            m == (match self.minutes {
                Some(x) => if x < 1 { 1 } else if x > 720 { 720 } else { x },
                None => 60,
            }),
    {
        let x = match self.minutes {
            Some(x) => x,
            None => 60,
        };
        if x < 1 {
            1
        } else if x > 720 {
            720
        } else {
            x
        }
    }
}

/// The aggregation window of a range of `minutes`.
pub open spec fn window_text(minutes: u32) -> Seq<char> {
    if minutes <= 60 {
        "1m"@
    } else if minutes <= 360 {
        "5m"@
    } else {
        "10m"@
    }
}

/// The aggregation window: one minute up to an hour, five minutes up to six
/// hours, ten minutes beyond.
pub fn aggregation_window(minutes: u32) -> (w: &'static str)
    ensures
        w@ == window_text(minutes),
{
    if minutes <= 60 {
        "1m"
    } else if minutes <= 360 {
        "5m"
    } else {
        "10m"
    }
}

/// The chart is drawn only when InfluxDB is enabled and a token is set.
pub fn chart_available(influx_enabled: bool, token: &str) -> (b: bool)
    ensures
        b == (influx_enabled && token@.len() > 0),
{
    crate::influx::bridge_enabled(influx_enabled, token)
}

/// The Flux query of the mean of `field` of `measurement` in `bucket` over
/// the last `minutes`, per `window`.
pub open spec fn flux_text(bucket: Seq<char>, minutes: u32, measurement: Seq<char>, field: Seq<char>, window: Seq<char>) -> Seq<char> {
    "from(bucket: \""@ + bucket + "\") |> range(start: -"@ + decimal(minutes as nat)
        + "m) |> filter(fn: (r) => r._measurement == \""@ + measurement + "\" and r._field == \""@
        + field + "\") |> aggregateWindow(every: "@ + window + ", fn: mean, createEmpty: false)"@
}

/// Writes the Flux query of `flux_text`.
pub fn flux_query(bucket: &str, minutes: u32, measurement: &str, field: &str, window: &str) -> (q: String)
    ensures
        q@ == flux_text(bucket@, minutes, measurement@, field@, window@),
{
    let mut q = String::from_str("from(bucket: \"");
    q.append(bucket);
    q.append("\") |> range(start: -");
    push_decimal(&mut q, minutes as u64);
    q.append("m) |> filter(fn: (r) => r._measurement == \"");
    q.append(measurement);
    q.append("\" and r._field == \"");
    q.append(field);
    q.append("\") |> aggregateWindow(every: ");
    q.append(window);
    q.append(", fn: mean, createEmpty: false)");
    q
}

/// The three queries of the chart over `minutes`: the solar production, the
/// state of charge and the consumption measured by the ET112 meters.
pub fn chart_queries(bucket: &str, minutes: u32) -> (qs: (String, String, String))
    ensures
        qs.0@ == flux_text(bucket@, minutes, "solar_power"@, "solar_total"@, window_text(minutes)),
        qs.1@ == flux_text(bucket@, minutes, "bms_status"@, "soc"@, window_text(minutes)),
        qs.2@ == flux_text(bucket@, minutes, "et112_status"@, "power_w"@, window_text(minutes)),
{
    let w = aggregation_window(minutes);
    let solar = flux_query(bucket, minutes, "solar_power", "solar_total", w);
    let soc = flux_query(bucket, minutes, "bms_status", "soc", w);
    let load = flux_query(bucket, minutes, "et112_status", "power_w", w);
    (solar, soc, load)
}

/// The query endpoint of an InfluxDB server: `{url}/api/v2/query?org={org}`.
pub fn query_url(url: &str, org: &str) -> (u: String)
    ensures
        u@ == url@ + "/api/v2/query?org="@ + org@,
{
    let mut u = String::from_str(url);
    u.append("/api/v2/query?org=");
    u.append(org);
    u
}

/// The authorization header of an InfluxDB token: `Token {token}`.
pub fn token_header(token: &str) -> (h: String)
    ensures
        h@ == "Token "@ + token@,
{
    let mut h = String::from_str("Token ");
    h.append(token);
    h
}

} // verus!
