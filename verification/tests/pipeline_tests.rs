use sensors345::crc::{validate_payload, PayloadFields};
use sensors345::decoder::DigitalDecoder;
use sensors345::manchester::ManchesterState;

/// A payload whose low 48 bits divide to zero under the default polynomial.
const VALID_PAYLOAD: u64 = 0xFFFE_8003_0000_8003;

/// Chips of the synthetic transmission of a payload: each bit becomes the
/// chip pair (!bit, bit), a trailing low chip flushes the final bit, and
/// every chip is held for one eight-sample period.
fn encode(payload: u64) -> Vec<u8> {
    let mut chips: Vec<u8> = Vec::new();
    for i in (0..64).rev() {
        let bit = (payload >> i) & 1 == 1;
        chips.push(if bit { 0 } else { 1 });
        chips.push(if bit { 1 } else { 0 });
    }
    chips.push(0);
    let mut samples: Vec<u8> = Vec::new();
    for c in chips {
        for _ in 0..8 {
            samples.push(c);
        }
    }
    samples
}

#[test]
fn round_trip_decodes_payload() {
    let mut d = DigitalDecoder::new();
    for s in encode(VALID_PAYLOAD) {
        d.handle_data(s, 1000);
    }
    assert_eq!(d.packet_count, 1);
    assert_eq!(d.last_payload, VALID_PAYLOAD);
    assert_eq!(d.frame, 0);
    assert_eq!(d.error_count, 0);
}

#[test]
fn round_trip_of_invalid_payload_counts_error() {
    let bad = VALID_PAYLOAD ^ (1 << 17);
    let mut d = DigitalDecoder::new();
    for s in encode(bad) {
        d.handle_data(s, 1000);
    }
    assert_eq!(d.packet_count, 1);
    assert_eq!(d.error_count, 1);
    assert_eq!(d.last_payload, bad);
    assert!(d.devices.is_empty());
    assert!(d.mqtt.outbox.is_empty());
}

#[test]
fn valid_payload_validates() {
    let f: PayloadFields = validate_payload(VALID_PAYLOAD);
    assert!(f.valid);
    assert_eq!(f.sof, 0x8);
    assert_eq!(f.serial, 768);
    assert_eq!(f.status, 0x00);
}

#[test]
fn crc_is_deterministic() {
    let a = validate_payload(VALID_PAYLOAD);
    let b = validate_payload(VALID_PAYLOAD);
    assert_eq!(a, b);
}

#[test]
fn flipping_status_bit_invalidates() {
    for i in 16..44 {
        let flipped = VALID_PAYLOAD ^ (1u64 << i);
        assert!(!validate_payload(flipped).valid);
    }
}

#[test]
fn brand_2gig_payload_selects_other_polynomial() {
    // Brand codes 2 and 10 select the 2GIG polynomial; under the kept
    // unconditional-XOR division, the one 48-bit word that divides to zero
    // carries brand code 8, so a brand-2 payload never validates.
    let f = validate_payload(0xFFFE_2003_0000_8003);
    assert_eq!(f.sof, 2);
    assert!(!f.valid);
}

#[test]
fn valid_payload_updates_device_and_health() {
    let mut d = DigitalDecoder::new();
    for s in encode(VALID_PAYLOAD) {
        d.handle_data(s, 1000);
    }
    assert!(d.rx_good);
    assert_eq!(d.devices.len(), 1);
    assert_eq!(d.devices[0].serial, 768);
    assert_eq!(d.devices[0].state.min_alarm_state_seen, 0x00);
    assert!(!d.devices[0].state.alarm);
    assert!(d.devices[0].state.tamper);
    assert!(d.devices[0].state.battery_low);
    // Health first, then the device's alarm and fault status.
    assert_eq!(d.mqtt.outbox.len(), 3);
    assert_eq!(d.mqtt.outbox[0].topic, "/security/sensors345/rx_status");
    assert_eq!(d.mqtt.outbox[0].payload, "OK");
    assert_eq!(d.mqtt.outbox[1].topic, "/security/sensors345/768/alarm");
    assert_eq!(d.mqtt.outbox[1].payload, "OK");
    assert_eq!(d.mqtt.outbox[2].topic, "/security/sensors345/768/status");
    assert_eq!(d.mqtt.outbox[2].payload, "TAMPER LOWBATT");
}

#[test]
fn out_of_range_chip_is_ignored() {
    let mut d = DigitalDecoder::new();
    d.handle_data(0, 5);
    d.handle_data(0, 5);
    let count_before = d.samples_since_edge;
    d.handle_data(7, 5);
    assert_eq!(d.samples_since_edge, count_before);
    assert_eq!(d.last_sample, false);
    assert_eq!(d.packet_count, 0);
}

#[test]
fn manchester_machine_follows_table() {
    let mut d = DigitalDecoder::new();
    assert_eq!(d.manchester, ManchesterState::LowPhaseA);
    d.decode_bit(true, 0);
    assert_eq!(d.manchester, ManchesterState::HighPhaseB);
    // HighPhaseB emits a one and moves on.
    d.decode_bit(false, 0);
    assert_eq!(d.manchester, ManchesterState::LowPhaseA);
    assert_eq!(d.frame, 1);
    d.decode_bit(true, 0);
    d.decode_bit(true, 0);
    assert_eq!(d.manchester, ManchesterState::HighPhaseA);
    d.decode_bit(false, 0);
    assert_eq!(d.manchester, ManchesterState::LowPhaseB);
    // LowPhaseB emits a zero.
    d.decode_bit(false, 0);
    assert_eq!(d.manchester, ManchesterState::LowPhaseA);
    assert_eq!(d.frame, 0b110);
}

#[test]
fn rx_health_messages_are_rate_limited() {
    let mut d = DigitalDecoder::new();
    d.set_rx_good(true, 100);
    assert_eq!(d.mqtt.outbox.len(), 1);
    assert_eq!(d.mqtt.outbox[0].payload, "OK");
    // Same state, little time passed: suppressed.
    d.set_rx_good(true, 130);
    assert_eq!(d.mqtt.outbox.len(), 1);
    // Same state, stale: sent again.
    d.set_rx_good(true, 200);
    assert_eq!(d.mqtt.outbox.len(), 2);
    // Changed state: sent at once.
    d.set_rx_good(false, 210);
    assert_eq!(d.mqtt.outbox.len(), 3);
    assert_eq!(d.mqtt.outbox[2].payload, "FAILED");
}
