//! The notification side of the decoder: topic and payload strings of the
//! fixed topic hierarchy, and the broker handle. Publishing is fire-and-
//! forget from the decoder's point of view: a sent message is appended to an
//! outbox of pending messages, and the host drains the outbox to the real
//! transport.

use vstd::prelude::*;
use vstd::string::StringExecFns;

verus! {

/// One pending notification: a topic and its payload.
pub struct Message {
    pub topic: String,
    pub payload: String,
}

/// The character sequences of a message queue, for contracts.
pub open spec fn msg_views(s: Seq<Message>) -> Seq<(Seq<char>, Seq<char>)> {
    s.map_values(|m: Message| (m.topic@, m.payload@))
}

/// The decimal digit character of `d`.
pub open spec fn digit_char(d: int) -> char {
    if d == 0 {
        '0'
    } else if d == 1 {
        '1'
    } else if d == 2 {
        '2'
    } else if d == 3 {
        '3'
    } else if d == 4 {
        '4'
    } else if d == 5 {
        '5'
    } else if d == 6 {
        '6'
    } else if d == 7 {
        '7'
    } else if d == 8 {
        '8'
    } else {
        '9'
    }
}

/// The decimal representation of a non-negative number, no leading zeros.
pub open spec fn dec_rep(n: int) -> Seq<char>
    decreases n,
{
    if n < 10 {
        seq![digit_char(n)]
    } else {
        dec_rep(n / 10) + seq![digit_char(n % 10)]
    }
}

/// Root of the fixed topic hierarchy.
pub open spec fn base_topic_view() -> Seq<char> {
    "/security/sensors345/"@
}

/// Topic of the receiver health messages.
pub open spec fn rx_topic_view() -> Seq<char> {
    "/security/sensors345/rx_status"@
}

/// Alarm topic of one device.
pub open spec fn alarm_topic_view(serial: u32) -> Seq<char> {
    base_topic_view() + dec_rep(serial as int) + "/alarm"@
}

/// Status topic of one device.
pub open spec fn status_topic_view(serial: u32) -> Seq<char> {
    base_topic_view() + dec_rep(serial as int) + "/status"@
}

/// Payload of an alarm notification.
pub open spec fn alarm_payload_view(alarm: bool) -> Seq<char> {
    if alarm {
        "ALARM"@
    } else {
        "OK"@
    }
}

/// Payload of a fault-status notification: "OK" when neither flag is up,
/// else whichever of the two faults apply.
pub open spec fn status_payload_view(tamper: bool, battery_low: bool) -> Seq<char> {
    if tamper && battery_low {
        "TAMPER LOWBATT"@
    } else if tamper {
        "TAMPER"@
    } else if battery_low {
        "LOWBATT"@
    } else {
        "OK"@
    }
}

/// Payload of a receiver health notification.
pub open spec fn rx_payload_view(good: bool) -> Seq<char> {
    if good {
        "OK"@
    } else {
        "FAILED"@
    }
}

/// Payload of a stale-device notification.
pub open spec fn timeout_payload_view() -> Seq<char> {
    "TIMEOUT"@
}

/// Append the decimal representation of `n` to `s`.
pub fn append_decimal(s: &mut String, n: u32)
    ensures
        final(s)@ == old(s)@ + dec_rep(n as int),
    decreases n,
{
    if n >= 10 {
        append_decimal(s, n / 10);
    }
    let d = n % 10;
    let digit: &str = if d == 0 {
        "0"
    } else if d == 1 {
        "1"
    } else if d == 2 {
        "2"
    } else if d == 3 {
        "3"
    } else if d == 4 {
        "4"
    } else if d == 5 {
        "5"
    } else if d == 6 {
        "6"
    } else if d == 7 {
        "7"
    } else if d == 8 {
        "8"
    } else {
        "9"
    };
    proof {
        reveal_strlit("0");
        reveal_strlit("1");
        reveal_strlit("2");
        reveal_strlit("3");
        reveal_strlit("4");
        reveal_strlit("5");
        reveal_strlit("6");
        reveal_strlit("7");
        reveal_strlit("8");
        reveal_strlit("9");
        assert(digit@ =~= seq![digit_char(d as int)]);
    }
    s.append(digit);
    proof {
        if n < 10 {
            assert(final(s)@ =~= old(s)@ + dec_rep(n as int));
        } else {
            assert(final(s)@ =~= old(s)@ + dec_rep(n as int));
        }
    }
}

/// Build the alarm topic of a device.
pub fn make_alarm_topic(serial: u32) -> (t: String)
    ensures
        t@ == alarm_topic_view(serial),
{
    let mut t = "/security/sensors345/".to_owned();
    append_decimal(&mut t, serial);
    t.append("/alarm");
    proof {
        assert(t@ =~= alarm_topic_view(serial));
    }
    t
}

/// Build the status topic of a device.
pub fn make_status_topic(serial: u32) -> (t: String)
    ensures
        t@ == status_topic_view(serial),
{
    let mut t = "/security/sensors345/".to_owned();
    append_decimal(&mut t, serial);
    t.append("/status");
    proof {
        assert(t@ =~= status_topic_view(serial));
    }
    t
}

/// Broker handle: connection parameters, the last-will message, and the
/// outbox of pending notifications.
pub struct Mqtt {
    pub host: String,
    pub id: String,
    pub port: i32,
    pub keepalive: i32,
    pub will_topic: String,
    pub will_message: String,
    pub outbox: Vec<Message>,
}

impl Mqtt {
    /// A broker handle with the given connection parameters, an empty outbox
    /// and the given last-will message recorded.
    pub fn new(id: &str, host: &str, port: i32, will_topic: &str, will_message: &str) -> (m:
        Mqtt)
        ensures
            m.id@ == id@,
            m.host@ == host@,
            m.port == port,
            m.keepalive == 30,
            m.will_topic@ == will_topic@,
            m.will_message@ == will_message@,
            m.outbox@.len() == 0,
    {
        let mut m = Mqtt {
            host: host.to_owned(),
            id: id.to_owned(),
            port: port,
            keepalive: 30,
            will_topic: String::new(),
            will_message: String::new(),
            outbox: Vec::new(),
        };
        let _ = m.set_will(will_topic, will_message);
        m
    }

    /// Record the last will and testament message. Always succeeds here; the
    /// host hands it to the transport when it connects.
    pub fn set_will(&mut self, topic: &str, message: &str) -> (ok: bool)
        ensures
            final(self).will_topic@ == topic@,
            final(self).will_message@ == message@,
            final(self).host == old(self).host,
            final(self).id == old(self).id,
            final(self).port == old(self).port,
            final(self).keepalive == old(self).keepalive,
            final(self).outbox == old(self).outbox,
            ok,
    {
        self.will_topic = topic.to_owned();
        self.will_message = message.to_owned();
        true
    }

    /// Queue one message for publication: exactly this topic and payload are
    /// appended to the pending outbox.
    pub fn send(&mut self, topic: String, payload: String) -> (ok: bool)
        ensures
            msg_views(final(self).outbox@) == msg_views(old(self).outbox@).push(
                (topic@, payload@),
            ),
            final(self).outbox@.len() == old(self).outbox@.len() + 1,
            final(self).host == old(self).host,
            final(self).id == old(self).id,
            final(self).port == old(self).port,
            final(self).keepalive == old(self).keepalive,
            final(self).will_topic == old(self).will_topic,
            final(self).will_message == old(self).will_message,
            ok,
    {
        let ghost t = topic@;
        let ghost p = payload@;
        self.outbox.push(Message { topic, payload });
        proof {
            assert(msg_views(self.outbox@) =~= msg_views(old(self).outbox@).push((t, p)));
        }
        true
    }
}

} // verus!
