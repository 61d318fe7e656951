//! When the InfluxDB bridge writes its batch of points.

use vstd::prelude::*;

verus! {

/// What woke the bridge up.
#[derive(Debug, Clone, Copy, PartialEq, Eq, Structural)]
pub enum InfluxEvent {
    /// New BMS snapshots were added to the batch.
    Snapshots,
    /// The periodic reading of the ET112 meters was added to the batch.
    MeterTick,
    /// The periodic reading of the Tasmota plugs was added to the batch.
    PlugTick,
    /// The flush period elapsed.
    FlushTick,
}

/// Whether the batch of `batch_len` points is written now: after snapshots
/// only once it holds `batch_size` points, after any other event as soon as
/// it holds one.
pub fn should_flush(event: InfluxEvent, batch_len: usize, batch_size: usize) -> (b: bool)
    ensures
        event == InfluxEvent::Snapshots ==> b == (batch_len >= batch_size),
        event != InfluxEvent::Snapshots ==> b == (batch_len > 0),
{
    match event {
        InfluxEvent::Snapshots => batch_len >= batch_size,
        _ => batch_len > 0,
    }
}

/// The bridge runs only when it is enabled and has a token.
pub fn bridge_enabled(enabled: bool, token: &str) -> (b: bool)
    ensures
        b == (enabled && token@.len() > 0),
{
    enabled && token.unicode_len() > 0
}

} // verus!
