//! The digital decoder: bit synchronization, Manchester decoding, frame
//! synchronization, payload validation, the per-device registry and the
//! notification logic, all in one instance.
//!
//! The host feeds one chip per decimated sample into [`DigitalDecoder::handle_data`]
//! together with the current wall-clock time in seconds; everything
//! downstream — bit recovery, framing, checksum, device state and pending
//! notifications — happens synchronously in that call.

use vstd::prelude::*;
use crate::crc::{
    PayloadFields, SYNC_MASK, SYNC_PATTERN, payload_valid, serial_of, status_of, validate_payload,
};
use crate::device::{
    DeviceState, UPDATE_MIN_SEC, SENSOR_TIMEOUT_SEC, LOOP_MASK, TAMPER_BIT, BATTERY_BIT, elapsed,
    fresh_device, apply_status, should_notify, step_device, sweep_device, sweep_flags,
};
use crate::manchester::{
    ManchesterState, PipelineState, pipeline_init, frame_step, midbit_step, chip_step, next_count,
};
use crate::mqtt::{
    Mqtt, msg_views, alarm_topic_view, status_topic_view, rx_topic_view, alarm_payload_view,
    status_payload_view, rx_payload_view, timeout_payload_view, make_alarm_topic,
    make_status_topic,
};

verus! {

/// Minimum seconds between receiver health messages without a state change.
pub const RX_GOOD_MIN_SEC: u64 = 60;

/// One registry entry: a sensor serial number and its tracked state.
#[derive(Clone, Copy, PartialEq, Eq, Structural, Debug)]
pub struct DeviceEntry {
    pub serial: u32,
    pub state: DeviceState,
}

/// Index of the first registry entry with this serial, `-1` when there is
/// none.
pub open spec fn find_index(devs: Seq<DeviceEntry>, serial: u32) -> int
    decreases devs.len(),
{
    if devs.len() == 0 {
        -1
    } else if devs[0].serial == serial {
        0
    } else {
        let r = find_index(devs.drop_first(), serial);
        if r < 0 {
            -1
        } else {
            r + 1
        }
    }
}

/// `find_index` returns the position of the first matching entry: it stays
/// in range, lands on a match when there is one, and no earlier entry
/// matches.
pub proof fn lemma_find_index(devs: Seq<DeviceEntry>, serial: u32)
    ensures
        -1 <= find_index(devs, serial) < devs.len(),
        find_index(devs, serial) >= 0 ==> devs[find_index(devs, serial)].serial == serial,
        forall|j: int|
            0 <= j < devs.len() && (#[trigger] devs[j]).serial == serial ==> 0 <= find_index(
                devs,
                serial,
            ) <= j,
    decreases devs.len(),
{
    if devs.len() > 0 && devs[0].serial != serial {
        let rest = devs.drop_first();
        lemma_find_index(rest, serial);
        assert(forall|j: int| 1 <= j < devs.len() ==> devs[j] == rest[j - 1]);
        assert forall|j: int|
            0 <= j < devs.len() && (#[trigger] devs[j]).serial == serial implies 0 <= find_index(
            devs,
            serial,
        ) <= j by {
            assert(rest[j - 1] == devs[j]);
        };
    }
}

/// The device state the registry holds for a serial before an update, the
/// fresh sentinel state when the serial is new.
pub open spec fn prev_state(devs: Seq<DeviceEntry>, serial: u32) -> DeviceState {
    if find_index(devs, serial) >= 0 {
        devs[find_index(devs, serial)].state
    } else {
        fresh_device()
    }
}

/// The registry right after one status byte is stored: the first entry with
/// the serial is replaced, or a new entry is appended.
pub open spec fn stored_registry(devs: Seq<DeviceEntry>, serial: u32, status: u8, now: u64) -> Seq<
    DeviceEntry,
> {
    let idx = find_index(devs, serial);
    if idx >= 0 {
        devs.update(
            idx,
            DeviceEntry { serial, state: step_device(devs[idx].state, status, now) },
        )
    } else {
        devs.push(DeviceEntry { serial, state: step_device(fresh_device(), status, now) })
    }
}

/// The timeout sweep over one entry.
pub open spec fn sweep_entry(e: DeviceEntry, now: u64) -> DeviceEntry {
    DeviceEntry { serial: e.serial, state: sweep_device(e.state, now) }
}

/// The timeout sweep over the whole registry.
pub open spec fn sweep_entries(devs: Seq<DeviceEntry>, now: u64) -> Seq<DeviceEntry> {
    devs.map_values(|e: DeviceEntry| sweep_entry(e, now))
}

/// The timeout messages the sweep emits, in registry order: one `TIMEOUT` on
/// the status topic of every device the sweep flags.
pub open spec fn sweep_msgs(devs: Seq<DeviceEntry>, now: u64) -> Seq<(Seq<char>, Seq<char>)>
    decreases devs.len(),
{
    if devs.len() == 0 {
        Seq::empty()
    } else {
        sweep_msgs(devs.drop_last(), now) + (if sweep_flags(devs.last().state, now) {
            seq![(status_topic_view(devs.last().serial), timeout_payload_view())]
        } else {
            Seq::empty()
        })
    }
}

/// The registry after a full device update: the status byte stored and, when
/// a notification went out, every entry swept for timeouts.
pub open spec fn updated_registry(devs: Seq<DeviceEntry>, serial: u32, status: u8, now: u64) -> Seq<
    DeviceEntry,
> {
    let stored = stored_registry(devs, serial, status, now);
    if should_notify(prev_state(devs, serial), status, now) {
        sweep_entries(stored, now)
    } else {
        stored
    }
}

/// The messages a device update emits: when the update is notified, the
/// alarm state and the fault status of the device, then the sweep's timeout
/// messages; nothing otherwise.
pub open spec fn device_update_msgs(devs: Seq<DeviceEntry>, serial: u32, status: u8, now: u64) -> Seq<
    (Seq<char>, Seq<char>),
> {
    let prev = prev_state(devs, serial);
    let applied = apply_status(prev, status, now);
    if should_notify(prev, status, now) {
        seq![
            (alarm_topic_view(serial), alarm_payload_view(applied.alarm)),
            (status_topic_view(serial), status_payload_view(applied.tamper, applied.battery_low)),
        ] + sweep_msgs(stored_registry(devs, serial, status, now), now)
    } else {
        Seq::empty()
    }
}

/// The decoder for the digital stage of the receive pipeline.
pub struct DigitalDecoder {
    pub samples_since_edge: u32,
    pub last_sample: bool,
    pub manchester: ManchesterState,
    pub frame: u64,
    pub rx_good: bool,
    pub last_rx_good_update_time: u64,
    pub packet_count: u32,
    pub error_count: u32,
    pub last_payload: u64,
    pub devices: Vec<DeviceEntry>,
    pub mqtt: Mqtt,
}

/// The front-end portion of the decoder state, as the pipeline model sees
/// it.
pub open spec fn pipeline_of(d: DigitalDecoder) -> PipelineState {
    PipelineState {
        last_sample: d.last_sample,
        samples_since_edge: d.samples_since_edge,
        manchester: d.manchester,
        frame: d.frame,
    }
}

/// Whether a receiver health message goes out: the health changed, or more
/// than `RX_GOOD_MIN_SEC` seconds passed since the last health message.
pub open spec fn rx_should_send(d: DigitalDecoder, state: bool, now: u64) -> bool {
    d.rx_good != state || elapsed(now, d.last_rx_good_update_time) > RX_GOOD_MIN_SEC
}

/// The health messages one `set_rx_good` call emits.
pub open spec fn rx_msgs(d: DigitalDecoder, state: bool, now: u64) -> Seq<(Seq<char>, Seq<char>)> {
    if rx_should_send(d, state, now) {
        seq![(rx_topic_view(), rx_payload_view(state))]
    } else {
        Seq::empty()
    }
}

/// The broker connection parameters are untouched.
pub open spec fn mqtt_config_eq(a: Mqtt, b: Mqtt) -> bool {
    &&& a.host == b.host
    &&& a.id == b.id
    &&& a.port == b.port
    &&& a.keepalive == b.keepalive
    &&& a.will_topic == b.will_topic
    &&& a.will_message == b.will_message
}

/// Everything downstream of the frame register is untouched.
pub open spec fn decode_state_unchanged(pre: DigitalDecoder, post: DigitalDecoder) -> bool {
    &&& post.rx_good == pre.rx_good
    &&& post.last_rx_good_update_time == pre.last_rx_good_update_time
    &&& post.packet_count == pre.packet_count
    &&& post.error_count == pre.error_count
    &&& post.last_payload == pre.last_payload
    &&& post.devices@ == pre.devices@
    &&& post.mqtt.outbox@ == pre.mqtt.outbox@
    &&& mqtt_config_eq(post.mqtt, pre.mqtt)
}

/// Full effect of one framed payload on the decoder, apart from the
/// front-end fields: counters and the reported payload always move; on a
/// valid checksum the receiver health is signalled good and the device
/// update with the decoded serial and status byte runs; on an invalid one
/// nothing else changes.
pub open spec fn payload_post(
    pre: DigitalDecoder,
    post: DigitalDecoder,
    payload: u64,
    now: u64,
) -> bool {
    let valid = payload_valid(payload);
    let ser = serial_of(payload) as u32;
    let st = status_of(payload) as u8;
    &&& post.last_payload == payload
    &&& post.packet_count == next_count(pre.packet_count)
    &&& post.error_count == if valid {
        pre.error_count
    } else {
        next_count(pre.error_count)
    }
    &&& mqtt_config_eq(post.mqtt, pre.mqtt)
    &&& if valid {
        &&& post.rx_good
        &&& post.last_rx_good_update_time == if rx_should_send(pre, true, now) {
            now
        } else {
            pre.last_rx_good_update_time
        }
        &&& post.devices@ == updated_registry(pre.devices@, ser, st, now)
        &&& msg_views(post.mqtt.outbox@) == msg_views(pre.mqtt.outbox@) + rx_msgs(pre, true, now)
            + device_update_msgs(pre.devices@, ser, st, now)
    } else {
        &&& post.rx_good == pre.rx_good
        &&& post.last_rx_good_update_time == pre.last_rx_good_update_time
        &&& post.devices@ == pre.devices@
        &&& post.mqtt.outbox@ == pre.mqtt.outbox@
    }
}

impl DigitalDecoder {
    /// A decoder in its start state: pipeline at rest, receiver health
    /// unknown-bad, no packets counted, an empty registry and an idle broker
    /// handle with an empty outbox.
    pub fn new() -> (d: DigitalDecoder)
        ensures
            pipeline_of(d) == pipeline_init(),
            !d.rx_good,
            d.last_rx_good_update_time == 0,
            d.packet_count == 0,
            d.error_count == 0,
            d.last_payload == 0,
            d.devices@.len() == 0,
            d.mqtt.outbox@.len() == 0,
    {
        DigitalDecoder {
            samples_since_edge: 0,
            last_sample: false,
            manchester: ManchesterState::LowPhaseA,
            frame: 0,
            rx_good: false,
            last_rx_good_update_time: 0,
            packet_count: 0,
            error_count: 0,
            last_payload: 0,
            devices: Vec::new(),
            mqtt: Mqtt {
                host: String::new(),
                id: String::new(),
                port: 0,
                keepalive: 30,
                will_topic: String::new(),
                will_message: String::new(),
                outbox: Vec::new(),
            },
        }
    }

    /// Track receiver health and publish it when it changes or goes stale.
    pub fn set_rx_good(&mut self, state: bool, now: u64)
        ensures
            final(self).rx_good == state,
            final(self).last_rx_good_update_time == if rx_should_send(*old(self), state, now) {
                now
            } else {
                old(self).last_rx_good_update_time
            },
            msg_views(final(self).mqtt.outbox@) == msg_views(old(self).mqtt.outbox@) + rx_msgs(
                *old(self),
                state,
                now,
            ),
            mqtt_config_eq(final(self).mqtt, old(self).mqtt),
            final(self).samples_since_edge == old(self).samples_since_edge,
            final(self).last_sample == old(self).last_sample,
            final(self).manchester == old(self).manchester,
            final(self).frame == old(self).frame,
            final(self).packet_count == old(self).packet_count,
            final(self).error_count == old(self).error_count,
            final(self).last_payload == old(self).last_payload,
            final(self).devices@ == old(self).devices@,
    {
        let since: u64 = if now >= self.last_rx_good_update_time {
            now - self.last_rx_good_update_time
        } else {
            0
        };
        if self.rx_good != state || since > RX_GOOD_MIN_SEC {
            let payload = if state {
                "OK"
            } else {
                "FAILED"
            };
            let _ = self.mqtt.send("/security/sensors345/rx_status".to_owned(), payload.to_owned());
            self.last_rx_good_update_time = now;
            proof {
                assert(msg_views(self.mqtt.outbox@) =~= msg_views(old(self).mqtt.outbox@) + rx_msgs(
                    *old(self),
                    state,
                    now,
                ));
            }
        } else {
            proof {
                assert(msg_views(self.mqtt.outbox@) =~= msg_views(old(self).mqtt.outbox@) + rx_msgs(
                    *old(self),
                    state,
                    now,
                ));
            }
        }
        self.rx_good = state;
    }

    /// Sweep the registry for stale devices: every device silent for more
    /// than the sensor timeout window and not yet flagged gets its timeout
    /// flag set and a `TIMEOUT` message on its status topic, in registry
    /// order.
    pub fn check_for_timeouts(&mut self, now: u64)
        ensures
            final(self).devices@ == sweep_entries(old(self).devices@, now),
            msg_views(final(self).mqtt.outbox@) == msg_views(old(self).mqtt.outbox@) + sweep_msgs(
                old(self).devices@,
                now,
            ),
            mqtt_config_eq(final(self).mqtt, old(self).mqtt),
            final(self).samples_since_edge == old(self).samples_since_edge,
            final(self).last_sample == old(self).last_sample,
            final(self).manchester == old(self).manchester,
            final(self).frame == old(self).frame,
            final(self).rx_good == old(self).rx_good,
            final(self).last_rx_good_update_time == old(self).last_rx_good_update_time,
            final(self).packet_count == old(self).packet_count,
            final(self).error_count == old(self).error_count,
            final(self).last_payload == old(self).last_payload,
    {
        let ghost devs0 = self.devices@;
        let n = self.devices.len();
        let mut i: usize = 0;
        while i < n
            invariant
                n == self.devices@.len(),
                devs0.len() == n,
                i <= n,
                forall|j: int| 0 <= j < i ==> self.devices@[j] == sweep_entry(devs0[j], now),
                forall|j: int| i <= j < n ==> self.devices@[j] == devs0[j],
                msg_views(self.mqtt.outbox@) == msg_views(old(self).mqtt.outbox@) + sweep_msgs(
                    devs0.take(i as int),
                    now,
                ),
                mqtt_config_eq(self.mqtt, old(self).mqtt),
                self.samples_since_edge == old(self).samples_since_edge,
                self.last_sample == old(self).last_sample,
                self.manchester == old(self).manchester,
                self.frame == old(self).frame,
                self.rx_good == old(self).rx_good,
                self.last_rx_good_update_time == old(self).last_rx_good_update_time,
                self.packet_count == old(self).packet_count,
                self.error_count == old(self).error_count,
                self.last_payload == old(self).last_payload,
            decreases n - i,
        {
            let e = self.devices[i];
            let since: u64 = if now >= e.state.last_update_time {
                now - e.state.last_update_time
            } else {
                0
            };
            proof {
                assert(devs0.take(i + 1).drop_last() =~= devs0.take(i as int));
                assert(devs0.take(i + 1).last() == devs0[i as int]);
            }
            if since > SENSOR_TIMEOUT_SEC && !e.state.timeout {
                self.devices[i] = DeviceEntry {
                    serial: e.serial,
                    state: DeviceState { timeout: true, ..e.state },
                };
                let topic = make_status_topic(e.serial);
                let _ = self.mqtt.send(topic, "TIMEOUT".to_owned());
                proof {
                    assert(msg_views(self.mqtt.outbox@) =~= msg_views(old(self).mqtt.outbox@)
                        + sweep_msgs(devs0.take(i + 1), now));
                }
            } else {
                proof {
                    assert(msg_views(self.mqtt.outbox@) =~= msg_views(old(self).mqtt.outbox@)
                        + sweep_msgs(devs0.take(i + 1), now));
                }
            }
            i = i + 1;
        }
        proof {
            assert(devs0.take(n as int) =~= devs0);
            assert(self.devices@ =~= sweep_entries(devs0, now));
        }
    }

    /// Apply one valid `(serial, status)` payload to the registry: create the
    /// device lazily, lower its baseline, derive its flags, and when the
    /// update is notified publish its alarm and fault status, refresh
    /// its bookkeeping and run the timeout sweep.
    pub fn update_device_state(&mut self, serial: u32, status: u8, now: u64)
        ensures
            final(self).devices@ == updated_registry(old(self).devices@, serial, status, now),
            msg_views(final(self).mqtt.outbox@) == msg_views(old(self).mqtt.outbox@)
                + device_update_msgs(old(self).devices@, serial, status, now),
            mqtt_config_eq(final(self).mqtt, old(self).mqtt),
            final(self).samples_since_edge == old(self).samples_since_edge,
            final(self).last_sample == old(self).last_sample,
            final(self).manchester == old(self).manchester,
            final(self).frame == old(self).frame,
            final(self).rx_good == old(self).rx_good,
            final(self).last_rx_good_update_time == old(self).last_rx_good_update_time,
            final(self).packet_count == old(self).packet_count,
            final(self).error_count == old(self).error_count,
            final(self).last_payload == old(self).last_payload,
    {
        let ghost devs0 = self.devices@;
        let n = self.devices.len();

        // Find the first entry with this serial.
        let mut i: usize = 0;
        let mut idx: usize = n;
        while i < n
            invariant
                n == self.devices@.len(),
                self.devices@ == devs0,
                i <= n,
                idx <= n,
                idx == n ==> forall|j: int| 0 <= j < i ==> devs0[j].serial != serial,
                idx < n ==> devs0[idx as int].serial == serial && forall|j: int|
                    0 <= j < idx ==> devs0[j].serial != serial,
            decreases n - i,
        {
            if idx == n && self.devices[i].serial == serial {
                idx = i;
            }
            i = i + 1;
        }
        proof {
            lemma_find_index(devs0, serial);
            let fi = find_index(devs0, serial);
            if idx < n {
                assert(0 <= fi <= idx as int);
                if fi < idx as int {
                    assert(devs0[fi].serial != serial);
                    assert(false);
                }
                assert(fi == idx as int);
            } else {
                if fi >= 0 {
                    assert(devs0[fi].serial == serial);
                    assert(false);
                }
                assert(fi == -1);
            }
        }

        // Prior state, or the fresh sentinel for a new serial.
        let prev: DeviceState = if idx < n {
            self.devices[idx].state
        } else {
            let mut f = DeviceState::new();
            f.min_alarm_state_seen = 0xFF;
            f
        };
        proof {
            assert(prev == prev_state(devs0, serial));
        }

        // Apply the status byte.
        let loops = status & LOOP_MASK;
        let mut ds = prev;
        if loops < ds.min_alarm_state_seen {
            ds.min_alarm_state_seen = loops;
        }
        ds.alarm = loops > ds.min_alarm_state_seen;
        ds.tamper = status & TAMPER_BIT == 0;
        ds.battery_low = status & BATTERY_BIT == 0;
        ds.timeout = false;
        if ds.alarm {
            ds.last_alarm_time = now;
        }
        proof {
            assert(ds == apply_status(prev, status, now));
        }

        // Decide whether this update is notified.
        let since: u64 = if now >= prev.last_update_time {
            now - prev.last_update_time
        } else {
            0
        };
        let notified = status != prev.last_raw_state || since > UPDATE_MIN_SEC;
        proof {
            assert(notified == should_notify(prev, status, now));
        }

        // Store the updated state, with the bookkeeping when notifying.
        let mut stored = ds;
        if notified {
            stored.last_update_time = now;
            stored.last_raw_state = status;
        }
        proof {
            assert(stored == step_device(prev, status, now));
        }
        if idx < n {
            self.devices[idx] = DeviceEntry { serial, state: stored };
        } else {
            self.devices.push(DeviceEntry { serial, state: stored });
        }
        proof {
            assert(self.devices@ =~= stored_registry(devs0, serial, status, now));
        }

        if notified {
            // Alarm state and combined fault status of this device.
            let alarm_payload = if ds.alarm {
                "ALARM"
            } else {
                "OK"
            };
            let _ = self.mqtt.send(make_alarm_topic(serial), alarm_payload.to_owned());
            let status_payload = if ds.tamper && ds.battery_low {
                "TAMPER LOWBATT"
            } else if ds.tamper {
                "TAMPER"
            } else if ds.battery_low {
                "LOWBATT"
            } else {
                "OK"
            };
            let _ = self.mqtt.send(make_status_topic(serial), status_payload.to_owned());

            // Sweep for stale devices while we are notifying anyway.
            self.check_for_timeouts(now);
            proof {
                assert(msg_views(self.mqtt.outbox@) =~= msg_views(old(self).mqtt.outbox@)
                    + device_update_msgs(devs0, serial, status, now));
            }
        } else {
            proof {
                assert(msg_views(self.mqtt.outbox@) =~= msg_views(old(self).mqtt.outbox@)
                    + device_update_msgs(devs0, serial, status, now));
            }
        }
    }

    /// Validate one framed payload: count it, report it, and on a valid
    /// checksum signal receiver health and update the device it names.
    pub fn handle_payload(&mut self, payload: u64, now: u64)
        ensures
            payload_post(*old(self), *final(self), payload, now),
            final(self).samples_since_edge == old(self).samples_since_edge,
            final(self).last_sample == old(self).last_sample,
            final(self).manchester == old(self).manchester,
            final(self).frame == old(self).frame,
    {
        let fields: PayloadFields = validate_payload(payload);

        self.last_payload = payload;
        self.packet_count = if self.packet_count == u32::MAX {
            0
        } else {
            self.packet_count + 1
        };
        if !fields.valid {
            self.error_count = if self.error_count == u32::MAX {
                0
            } else {
                self.error_count + 1
            };
        }

        if fields.valid {
            self.set_rx_good(true, now);
            self.update_device_state(fields.serial, fields.status, now);
            proof {
                assert(msg_views(self.mqtt.outbox@) =~= msg_views(old(self).mqtt.outbox@)
                    + rx_msgs(*old(self), true, now) + device_update_msgs(
                    old(self).devices@,
                    serial_of(payload) as u32,
                    status_of(payload) as u8,
                    now,
                ));
            }
        }
    }

    /// Shift one decoded bit into the frame register; when the high-order
    /// bits match the sync pattern, hand the full register to payload
    /// handling and clear it.
    pub fn handle_bit(&mut self, value: bool, now: u64)
        ensures
            final(self).frame == frame_step(old(self).frame, value).0,
            final(self).samples_since_edge == old(self).samples_since_edge,
            final(self).last_sample == old(self).last_sample,
            final(self).manchester == old(self).manchester,
            match frame_step(old(self).frame, value).1 {
                Some(pl) => payload_post(*old(self), *final(self), pl, now),
                None => decode_state_unchanged(*old(self), *final(self)),
            },
    {
        let shifted: u64 = (self.frame << 1) | (if value {
            1
        } else {
            0
        });
        self.frame = shifted;
        if shifted & SYNC_MASK == SYNC_PATTERN {
            self.handle_payload(shifted, now);
            self.frame = 0;
        }
    }

    /// Evaluate the Manchester machine on one mid-bit chip: emit the decoded
    /// bit its current phase calls for, then take the transition.
    pub fn decode_bit(&mut self, value: bool, now: u64)
        ensures
            final(self).manchester == midbit_step(pipeline_of(*old(self)), value).0.manchester,
            final(self).frame == midbit_step(pipeline_of(*old(self)), value).0.frame,
            final(self).samples_since_edge == old(self).samples_since_edge,
            final(self).last_sample == old(self).last_sample,
            match midbit_step(pipeline_of(*old(self)), value).1 {
                Some(pl) => payload_post(*old(self), *final(self), pl, now),
                None => decode_state_unchanged(*old(self), *final(self)),
            },
    {
        match self.manchester {
            ManchesterState::LowPhaseA => {
                self.manchester = if value {
                    ManchesterState::HighPhaseB
                } else {
                    ManchesterState::LowPhaseA
                };
            },
            ManchesterState::LowPhaseB => {
                self.handle_bit(false, now);
                self.manchester = if value {
                    ManchesterState::HighPhaseA
                } else {
                    ManchesterState::LowPhaseA
                };
            },
            ManchesterState::HighPhaseA => {
                self.manchester = if value {
                    ManchesterState::HighPhaseA
                } else {
                    ManchesterState::LowPhaseB
                };
            },
            ManchesterState::HighPhaseB => {
                self.handle_bit(true, now);
                self.manchester = if value {
                    ManchesterState::HighPhaseA
                } else {
                    ManchesterState::LowPhaseA
                };
            },
        }
    }

    /// Accept one chip of the decimated binary stream, with the current time
    /// in seconds. Out-of-range values are ignored with no state change; an
    /// edge re-anchors the since-edge counter; once per chip period, at its
    /// midpoint, the chip is taken as a mid-bit sample and decoded.
    pub fn handle_data(&mut self, data: u8, now: u64)
        ensures
            pipeline_of(*final(self)) == chip_step(pipeline_of(*old(self)), data).0,
            match chip_step(pipeline_of(*old(self)), data).1 {
                Some(pl) => payload_post(*old(self), *final(self), pl, now),
                None => decode_state_unchanged(*old(self), *final(self)),
            },
    {
        if data != 0 && data != 1 {
            return ;
        }
        let this_sample = data == 1;
        if this_sample == self.last_sample {
            self.samples_since_edge = if self.samples_since_edge == u32::MAX {
                0
            } else {
                self.samples_since_edge + 1
            };
            if self.samples_since_edge % 8 == 4 {
                self.decode_bit(this_sample, now);
            }
        } else {
            self.samples_since_edge = 1;
        }
        self.last_sample = this_sample;
    }
}

} // verus!
