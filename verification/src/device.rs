//! Per-device sensor state: self-calibrating alarm baseline, tamper/battery
//! flags, notification gating and the stale-device timeout sweep.

use vstd::prelude::*;

verus! {

/// Status bits that belong to the sensor loops (alarm inputs); the tamper and
/// battery bits are excluded.
pub const LOOP_MASK: u8 = 0xB0;

/// Active-low tamper bit of the status byte.
pub const TAMPER_BIT: u8 = 0x40;

/// Active-low battery bit of the status byte.
pub const BATTERY_BIT: u8 = 0x08;

/// Minimum seconds between notifications for one device when its status byte
/// has not changed.
pub const UPDATE_MIN_SEC: u64 = 60;

/// Minutes of silence after which a device is flagged as timed out.
pub const SENSOR_TIMEOUT_MIN: u64 = 450;

/// The same window in seconds.
pub const SENSOR_TIMEOUT_SEC: u64 = 450 * 60;

/// State kept for one sensor serial number.
#[derive(Clone, Copy, PartialEq, Eq, Structural, Debug)]
pub struct DeviceState {
    pub last_update_time: u64,
    pub last_alarm_time: u64,
    pub last_raw_state: u8,
    pub tamper: bool,
    pub alarm: bool,
    pub battery_low: bool,
    pub timeout: bool,
    pub min_alarm_state_seen: u8,
}

/// The all-zero state `DeviceState::new` returns.
pub open spec fn zero_device() -> DeviceState {
    DeviceState {
        last_update_time: 0,
        last_alarm_time: 0,
        last_raw_state: 0,
        tamper: false,
        alarm: false,
        battery_low: false,
        timeout: false,
        min_alarm_state_seen: 0,
    }
}

/// A lazily created registry entry before its first status byte is applied:
/// the baseline starts at the sentinel maximum so the first reading can only
/// lower it, and both timestamps start at the epoch.
pub open spec fn fresh_device() -> DeviceState {
    DeviceState { min_alarm_state_seen: 0xFF, ..zero_device() }
}

/// Seconds from `then` to `now`, zero if the clock went backwards.
pub open spec fn elapsed(now: u64, then: u64) -> int {
    if now >= then {
        now - then
    } else {
        0
    }
}

/// The masked loop bits of a status byte.
pub open spec fn masked_loops(status: u8) -> u8 {
    status & LOOP_MASK
}

/// Effect of one valid status byte on a device: lower the baseline, derive the
/// alarm/tamper/battery flags, clear the timeout flag, and stamp the alarm
/// time when the alarm fires. The notification bookkeeping fields are not
/// touched here.
pub open spec fn apply_status(ds: DeviceState, status: u8, now: u64) -> DeviceState {
    let loops = masked_loops(status);
    let base = if loops < ds.min_alarm_state_seen {
        loops
    } else {
        ds.min_alarm_state_seen
    };
    let alarm = loops > base;
    DeviceState {
        min_alarm_state_seen: base,
        alarm: alarm,
        tamper: status & TAMPER_BIT == 0,
        battery_low: status & BATTERY_BIT == 0,
        timeout: false,
        last_alarm_time: if alarm {
            now
        } else {
            ds.last_alarm_time
        },
        ..ds
    }
}

/// Whether an update is notified: when the raw status byte changed, or when
/// more than `UPDATE_MIN_SEC` seconds passed since the last notified update.
/// `prev` is the device state before the current status byte is applied.
pub open spec fn should_notify(prev: DeviceState, status: u8, now: u64) -> bool {
    status != prev.last_raw_state || elapsed(now, prev.last_update_time) > UPDATE_MIN_SEC
}

/// Bookkeeping recorded when a notification for this device goes out.
pub open spec fn note_notified(ds: DeviceState, status: u8, now: u64) -> DeviceState {
    DeviceState { last_update_time: now, last_raw_state: status, ..ds }
}

/// Full effect of one valid status byte on one device, including the
/// notification bookkeeping when the update is notified.
pub open spec fn step_device(prev: DeviceState, status: u8, now: u64) -> DeviceState {
    let applied = apply_status(prev, status, now);
    if should_notify(prev, status, now) {
        note_notified(applied, status, now)
    } else {
        applied
    }
}

/// Whether the timeout sweep flags this device now.
pub open spec fn sweep_flags(ds: DeviceState, now: u64) -> bool {
    elapsed(now, ds.last_update_time) > SENSOR_TIMEOUT_SEC && !ds.timeout
}

/// Effect of the timeout sweep on one device.
pub open spec fn sweep_device(ds: DeviceState, now: u64) -> DeviceState {
    if sweep_flags(ds, now) {
        DeviceState { timeout: true, ..ds }
    } else {
        ds
    }
}

impl DeviceState {
    /// The all-zero device state.
    pub fn new() -> (ds: DeviceState)
        ensures
            ds == zero_device(),
    {
        DeviceState {
            last_update_time: 0,
            last_alarm_time: 0,
            last_raw_state: 0,
            tamper: false,
            alarm: false,
            battery_low: false,
            timeout: false,
            min_alarm_state_seen: 0,
        }
    }
}

/// The baseline never rises: one applied status byte can only keep or lower
/// `min_alarm_state_seen`.
pub proof fn lemma_baseline_step_monotonic(ds: DeviceState, status: u8, now: u64)
    ensures
        step_device(ds, status, now).min_alarm_state_seen <= ds.min_alarm_state_seen,
{
}

/// A device state folded over a whole sequence of `(status, time)` readings.
pub open spec fn run_device(ds: DeviceState, reads: Seq<(u8, u64)>) -> DeviceState
    decreases reads.len(),
{
    if reads.len() == 0 {
        ds
    } else {
        step_device(run_device(ds, reads.drop_last()), reads.last().0, reads.last().1)
    }
}

/// Baseline monotonicity over any sequence of status bytes fed for one
/// serial: the baseline after the whole sequence is at most the baseline at
/// the start, and feeding one more reading can never raise it.
pub proof fn lemma_baseline_monotonic(ds: DeviceState, reads: Seq<(u8, u64)>)
    ensures
        run_device(ds, reads).min_alarm_state_seen <= ds.min_alarm_state_seen,
    decreases reads.len(),
{
    if reads.len() > 0 {
        lemma_baseline_monotonic(ds, reads.drop_last());
        lemma_baseline_step_monotonic(
            run_device(ds, reads.drop_last()),
            reads.last().0,
            reads.last().1,
        );
    }
}

/// The alarm edge: after a status byte is applied, the alarm flag is set
/// exactly when the masked loop bits exceed the baseline the device had
/// before. In particular a reading equal to a settled baseline clears the
/// alarm, and the very next reading above it sets the alarm.
pub proof fn lemma_alarm_edge(ds: DeviceState, status: u8, now: u64)
    ensures
        step_device(ds, status, now).alarm == (masked_loops(status) > ds.min_alarm_state_seen),
{
}

/// Notification dedup: after a notified update with status byte `status` at
/// time `t1`, an identical status byte at time `t2 >= t1` is notified again
/// exactly when more than `UPDATE_MIN_SEC` seconds have passed.
pub proof fn lemma_notify_dedup(prev: DeviceState, status: u8, t1: u64, t2: u64)
    requires
        should_notify(prev, status, t1),
        t1 <= t2,
    ensures
        should_notify(step_device(prev, status, t1), status, t2) == (t2 - t1 > UPDATE_MIN_SEC),
{
}

/// Timeout lifecycle: a device silent for more than the sensor timeout window
/// is flagged by the sweep, and any subsequent applied status byte clears the
/// flag again.
pub proof fn lemma_timeout_lifecycle(ds: DeviceState, status: u8, now: u64, later: u64)
    requires
        elapsed(now, ds.last_update_time) > SENSOR_TIMEOUT_SEC,
    ensures
        sweep_device(ds, now).timeout,
        !step_device(sweep_device(ds, now), status, later).timeout,
{
}

} // verus!
