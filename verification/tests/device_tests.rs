use sensors345::decoder::DigitalDecoder;
use sensors345::device::DeviceState;
use sensors345::mqtt::{make_alarm_topic, make_status_topic, Mqtt};

#[test]
fn device_state_new_is_zeroed() {
    let ds = DeviceState::new();
    assert_eq!(ds.last_update_time, 0);
    assert_eq!(ds.last_alarm_time, 0);
    assert_eq!(ds.last_raw_state, 0);
    assert!(!ds.tamper);
    assert!(!ds.alarm);
    assert!(!ds.battery_low);
    assert!(!ds.timeout);
    assert_eq!(ds.min_alarm_state_seen, 0);
}

#[test]
fn first_sighting_calibrates_baseline() {
    let mut d = DigitalDecoder::new();
    d.update_device_state(12345, 0xA0, 100);
    assert_eq!(d.devices.len(), 1);
    assert_eq!(d.devices[0].serial, 12345);
    let ds = d.devices[0].state;
    assert_eq!(ds.min_alarm_state_seen, 0xA0);
    assert!(!ds.alarm);
    assert_eq!(ds.last_raw_state, 0xA0);
    assert_eq!(ds.last_update_time, 100);
    // The status byte has the tamper and battery bits low, so both faults
    // are active.
    assert_eq!(d.mqtt.outbox.len(), 2);
    assert_eq!(d.mqtt.outbox[0].topic, "/security/sensors345/12345/alarm");
    assert_eq!(d.mqtt.outbox[0].payload, "OK");
    assert_eq!(d.mqtt.outbox[1].topic, "/security/sensors345/12345/status");
    assert_eq!(d.mqtt.outbox[1].payload, "TAMPER LOWBATT");
}

#[test]
fn raised_loop_bits_fire_alarm() {
    let mut d = DigitalDecoder::new();
    d.update_device_state(12345, 0xA0, 100);
    d.update_device_state(12345, 0xB0, 110);
    let ds = d.devices[0].state;
    assert_eq!(ds.min_alarm_state_seen, 0xA0);
    assert!(ds.alarm);
    assert_eq!(ds.last_alarm_time, 110);
    assert_eq!(d.mqtt.outbox[2].topic, "/security/sensors345/12345/alarm");
    assert_eq!(d.mqtt.outbox[2].payload, "ALARM");
}

#[test]
fn reading_at_baseline_clears_alarm() {
    let mut d = DigitalDecoder::new();
    d.update_device_state(7, 0xA0, 100);
    d.update_device_state(7, 0xB0, 110);
    assert!(d.devices[0].state.alarm);
    d.update_device_state(7, 0xA0, 120);
    assert!(!d.devices[0].state.alarm);
}

#[test]
fn baseline_never_rises() {
    let mut d = DigitalDecoder::new();
    let reads: [u8; 6] = [0xB0, 0xA0, 0xF8, 0x80, 0xA0, 0xB0];
    let mut t: u64 = 100;
    let mut last_min = 0xFFu8;
    for s in reads {
        d.update_device_state(99, s, t);
        let m = d.devices[0].state.min_alarm_state_seen;
        assert!(m <= last_min);
        last_min = m;
        t += 10;
    }
    assert_eq!(last_min, 0x80);
}

#[test]
fn identical_status_within_a_minute_is_suppressed() {
    let mut d = DigitalDecoder::new();
    d.update_device_state(5, 0xE8, 100);
    let sent = d.mqtt.outbox.len();
    assert_eq!(sent, 2);
    // Less than a minute later, unchanged byte: no notification.
    d.update_device_state(5, 0xE8, 150);
    assert_eq!(d.mqtt.outbox.len(), sent);
    // The bookkeeping still tracks the suppressed update's flags.
    assert!(!d.devices[0].state.alarm);
}

#[test]
fn identical_status_after_a_minute_is_notified() {
    let mut d = DigitalDecoder::new();
    d.update_device_state(5, 0xE8, 100);
    assert_eq!(d.mqtt.outbox.len(), 2);
    // 0xE8 has the tamper and battery bits high: no faults.
    assert_eq!(d.mqtt.outbox[1].payload, "OK");
    d.update_device_state(5, 0xE8, 161);
    assert_eq!(d.mqtt.outbox.len(), 4);
    assert_eq!(d.devices[0].state.last_update_time, 161);
}

#[test]
fn changed_status_is_notified_at_once() {
    let mut d = DigitalDecoder::new();
    d.update_device_state(5, 0xE8, 100);
    d.update_device_state(5, 0xA8, 101);
    assert_eq!(d.mqtt.outbox.len(), 4);
}

#[test]
fn stale_device_is_flagged_on_sweep() {
    let mut d = DigitalDecoder::new();
    d.update_device_state(1, 0xE8, 1000);
    assert!(!d.devices[0].state.timeout);
    // Another device notifies much later; the sweep flags the silent one.
    let later = 1000 + 450 * 60 + 1;
    d.update_device_state(2, 0xE8, later);
    assert!(d.devices[0].state.timeout);
    assert!(!d.devices[1].state.timeout);
    let last = d.mqtt.outbox.last().unwrap();
    assert_eq!(last.topic, "/security/sensors345/1/status");
    assert_eq!(last.payload, "TIMEOUT");
}

#[test]
fn fresh_payload_clears_timeout() {
    let mut d = DigitalDecoder::new();
    d.update_device_state(1, 0xE8, 1000);
    let later = 1000 + 450 * 60 + 1;
    d.update_device_state(2, 0xE8, later);
    assert!(d.devices[0].state.timeout);
    d.update_device_state(1, 0xE8, later + 5);
    assert!(!d.devices[0].state.timeout);
}

#[test]
fn sweep_respects_the_window() {
    let mut d = DigitalDecoder::new();
    d.update_device_state(1, 0xE8, 1000);
    // Exactly at the window's edge nothing is flagged yet.
    d.check_for_timeouts(1000 + 450 * 60);
    assert!(!d.devices[0].state.timeout);
    d.check_for_timeouts(1000 + 450 * 60 + 1);
    assert!(d.devices[0].state.timeout);
    // A second sweep does not repeat the message.
    let n = d.mqtt.outbox.len();
    d.check_for_timeouts(1000 + 450 * 60 + 2);
    assert_eq!(d.mqtt.outbox.len(), n);
}

#[test]
fn end_to_end_scenario() {
    let mut d = DigitalDecoder::new();
    d.update_device_state(12345, 0xA0, 100);
    assert_eq!(d.devices[0].state.min_alarm_state_seen, 0xA0);
    assert!(!d.devices[0].state.alarm);
    assert_eq!(d.mqtt.outbox[0].payload, "OK");
    d.update_device_state(12345, 0xB0, 110);
    assert_eq!(d.devices[0].state.min_alarm_state_seen, 0xA0);
    assert!(d.devices[0].state.alarm);
    assert_eq!(d.mqtt.outbox[2].topic, "/security/sensors345/12345/alarm");
    assert_eq!(d.mqtt.outbox[2].payload, "ALARM");
}

#[test]
fn topics_carry_the_decimal_serial() {
    assert_eq!(make_alarm_topic(0), "/security/sensors345/0/alarm");
    assert_eq!(make_status_topic(0), "/security/sensors345/0/status");
    assert_eq!(make_alarm_topic(1048575), "/security/sensors345/1048575/alarm");
    assert_eq!(make_status_topic(10), "/security/sensors345/10/status");
}

#[test]
fn mqtt_records_connection_and_will() {
    let mut m = Mqtt::new("sensors", "localhost", 1883, "/security/sensors345/rx_status", "FAILED");
    assert_eq!(m.id, "sensors");
    assert_eq!(m.host, "localhost");
    assert_eq!(m.port, 1883);
    assert_eq!(m.keepalive, 30);
    assert_eq!(m.will_topic, "/security/sensors345/rx_status");
    assert_eq!(m.will_message, "FAILED");
    assert!(m.outbox.is_empty());
    assert!(m.set_will("/security/sensors345/rx_status", "GONE"));
    assert_eq!(m.will_message, "GONE");
}

#[test]
fn mqtt_send_queues_messages_in_order() {
    let mut m = Mqtt::new("a", "b", 1, "", "");
    assert!(m.send("t1".to_string(), "p1".to_string()));
    assert!(m.send("t2".to_string(), "p2".to_string()));
    assert_eq!(m.outbox.len(), 2);
    assert_eq!(m.outbox[0].topic, "t1");
    assert_eq!(m.outbox[0].payload, "p1");
    assert_eq!(m.outbox[1].topic, "t2");
    assert_eq!(m.outbox[1].payload, "p2");
}
