use std::rc::Rc;

use bytes::Bytes;
use futures::future::FutureExt;
use futures::stream::StreamExt;
use ntex::channel::mpsc;
use ntex::channel::pool::Receiver;

use mqtt_sink::ack::{Ack, AckType, Info};
use mqtt_sink::codec::{
    ConnectAck, ConnectAckReason, Disconnect, DisconnectReasonCode, Packet, Publish, PublishAck,
    PublishAckReason, PublishProperties, RetainHandling, SubscribeAck, SubscribeAckReason,
    SubscriptionOptions, UnsubscribeAck, UnsubscribeAckReason,
};
use mqtt_sink::error::{
    ClientError, EncodeError, ProtocolError, PublishQos0Error, PublishQos1Error, SubscribeError,
    UnsubscribeError,
};
use mqtt_sink::publish::PublishBuilder;
use mqtt_sink::sink::{MqttSink, MqttSinkPool, Step};
use mqtt_sink::subscribe::{SubscribeBuilder, UnsubscribeBuilder};
use mqtt_sink::types::{NonZeroU16, NonZeroU32, QoS};

type Out = mpsc::Receiver<(Packet, usize)>;

fn sink(cap: usize) -> (MqttSink, Out) {
    let (tx, rx) = mpsc::channel();
    (MqttSink::new(tx, cap, Rc::new(MqttSinkPool::default())), rx)
}

fn id(n: u16) -> NonZeroU16 {
    NonZeroU16::new(n).unwrap()
}

fn puback(n: u16, reason_code: PublishAckReason) -> Ack {
    Ack::Publish(PublishAck {
        packet_id: id(n),
        reason_code,
        properties: Vec::new(),
        reason_string: None,
    })
}

fn suback(n: u16) -> Ack {
    Ack::Subscribe(SubscribeAck {
        packet_id: id(n),
        properties: Vec::new(),
        reason_string: None,
        status: vec![SubscribeAckReason::GrantedQos1],
    })
}

fn unsuback(n: u16) -> Ack {
    Ack::Unsubscribe(UnsubscribeAck {
        packet_id: id(n),
        properties: Vec::new(),
        reason_string: None,
        status: vec![UnsubscribeAckReason::Success],
    })
}

/// The next packet for the encoder, where there is one.
fn next(out: &mut Out) -> Option<(Packet, usize)> {
    out.next().now_or_never().flatten()
}

/// What the receiver got: `None` while it waits, `Some(None)` once its sender is gone.
fn got<T>(rx: Receiver<T>) -> Option<Option<T>> {
    rx.now_or_never().map(|r| r.ok())
}

fn next_publish(out: &mut Out) -> (Publish, usize) {
    match next(out) {
        Some((Packet::Publish(p), note)) => (p, note),
        other => panic!("no publish packet: {:?}", other),
    }
}

fn publish(s: &MqttSink) -> PublishBuilder {
    s.publish(String::from("a/b"), Bytes::from_static(b"payload"))
}

fn sent<B, E>(step: Step<B, E>) -> (Receiver<Info>, Receiver<Ack>) {
    match step {
        Step::Sent { info, ack } => (info, ack),
        Step::Wait { .. } => panic!("waits for credit"),
        Step::Failed(_) => panic!("failed"),
    }
}

fn send(s: &mut MqttSink) -> (Receiver<Info>, Receiver<Ack>) {
    sent(publish(s).send_at_least_once(s))
}

#[test]
fn new_sink_has_all_its_credit() {
    let (s, mut out) = sink(16);
    assert_eq!(s.credit(), 16);
    assert!(s.is_open());
    assert!(!s.awaits_report(0));
    assert!(!s.awaits_report(1));
    assert!(next(&mut out).is_none());
}

#[test]
fn publish_at_least_once_is_numbered_and_acknowledged() {
    let (mut s, mut out) = sink(2);
    let builder = s
        .publish(String::from("a/b"), Bytes::from_static(b"payload"))
        .dup(true)
        .retain()
        .properties(|p: &mut PublishProperties| p.content_type = Some(String::from("text")));
    let (info, ack) = sent(builder.send_at_least_once(&mut s));
    assert_eq!(s.credit(), 1);

    let (p, note) = next_publish(&mut out);
    assert_eq!(p.packet_id, Some(id(1)));
    assert_eq!(p.qos, QoS::AtLeastOnce);
    assert_eq!(p.topic, "a/b");
    assert_eq!(p.payload, Bytes::from_static(b"payload"));
    assert!(p.dup);
    assert!(p.retain);
    assert_eq!(p.properties.content_type, Some(String::from("text")));
    assert_eq!(note, 1);
    assert!(next(&mut out).is_none());

    assert!(s.awaits_report(1));
    s.pkt_written(1);
    assert!(!s.awaits_report(1));
    let info = got(info).unwrap();
    assert!(matches!(info, Some(Info::Written)));
    assert!(PublishBuilder::at_least_once_written(info).is_ok());

    assert!(s.pkt_ack(puback(1, PublishAckReason::Success)).is_ok());
    assert_eq!(s.credit(), 2);
    let pkt = PublishBuilder::at_least_once_acked(got(ack).unwrap()).unwrap();
    assert_eq!(pkt.packet_id.get(), 1);

    // the identifier is free again
    let _ = send(&mut s);
    assert_eq!(next_publish(&mut out).0.packet_id, Some(id(1)));
}

#[test]
fn publish_at_most_once_takes_no_credit() {
    let (mut s, mut out) = sink(1);
    let rx = publish(&s).send_at_most_once(&mut s).unwrap();
    assert_eq!(s.credit(), 1);
    let (p, note) = next_publish(&mut out);
    assert_eq!(p.packet_id, None);
    assert_eq!(p.qos, QoS::AtMostOnce);
    assert!(!p.dup);
    assert!(!p.retain);
    assert_eq!(note, 1);
    s.pkt_written(note);
    assert!(PublishBuilder::at_most_once_written(got(rx).unwrap()).is_ok());

    let rx = publish(&s).send_at_most_once(&mut s).unwrap();
    s.pkt_encode_err(1, EncodeError::InvalidLength);
    assert!(matches!(
        PublishBuilder::at_most_once_written(got(rx).unwrap()),
        Err(PublishQos0Error::Encode(EncodeError::InvalidLength))
    ));
    assert_eq!(s.credit(), 1);
}

#[test]
fn at_most_once_fails_where_nothing_takes_the_packet() {
    let (mut s, out) = sink(1);
    drop(out);
    assert!(matches!(
        publish(&s).send_at_most_once(&mut s),
        Err(PublishQos0Error::Disconnected)
    ));
    // the encoder never reports, so the number stays taken
    assert!(s.awaits_report(1));

    let (mut s, mut out) = sink(1);
    s.drop_sink();
    assert!(matches!(
        publish(&s).send_at_most_once(&mut s),
        Err(PublishQos0Error::Disconnected)
    ));
    assert!(next(&mut out).is_none());
    assert!(matches!(
        PublishBuilder::at_most_once_written(None),
        Err(PublishQos0Error::Disconnected)
    ));
}

#[test]
fn acks_are_accepted_in_order_only() {
    let (mut s, _out) = sink(4);
    let (_i1, a1) = send(&mut s);
    let (_i2, a2) = send(&mut s);
    assert_eq!(s.credit(), 2);

    // the second one first: the oldest request waits no longer, and keeps its credit
    assert!(matches!(
        s.pkt_ack(puback(2, PublishAckReason::Success)),
        Err(ProtocolError::PacketIdMismatch)
    ));
    assert_eq!(s.credit(), 2);
    assert!(got(a1).is_none());

    assert!(s.pkt_ack(puback(2, PublishAckReason::Success)).is_ok());
    assert_eq!(s.credit(), 3);
    assert!(matches!(got(a2), Some(Some(Ack::Publish(_)))));

    // nothing waits
    assert!(matches!(
        s.pkt_ack(puback(1, PublishAckReason::Success)),
        Err(ProtocolError::PacketIdMismatch)
    ));
    assert_eq!(s.credit(), 3);

    // the first identifier is still taken
    let (_i, _a) = send(&mut s);
    assert!(s.pkt_ack(puback(2, PublishAckReason::Success)).is_ok());
}

#[test]
fn requests_of_all_kinds_are_acknowledged_in_the_order_sent() {
    let (mut s, mut out) = sink(3);
    let (_i1, a1) = send(&mut s);
    let opts = SubscriptionOptions {
        qos: QoS::AtLeastOnce,
        no_local: true,
        retain_as_published: false,
        retain_handling: RetainHandling::AtSubscribe,
    };
    let (_i2, a2) = sent(
        s.subscribe(NonZeroU32::new(7))
            .topic_filter(String::from("x/#"), opts)
            .property(String::from("k"), String::from("v"))
            .send(&mut s),
    );
    let (_i3, a3) = sent(
        s.unsubscribe()
            .topic_filter(String::from("x/#"))
            .topic_filter(String::from("y"))
            .property(String::from("k"), String::from("w"))
            .send(&mut s),
    );
    assert_eq!(s.credit(), 0);

    let _ = next_publish(&mut out);
    match next(&mut out) {
        Some((Packet::Subscribe(p), 2)) => {
            assert_eq!(p.packet_id.get(), 2);
            assert_eq!(p.id.unwrap().get(), 7);
            assert_eq!(p.topic_filters, vec![(String::from("x/#"), opts)]);
            assert_eq!(p.user_properties, vec![(String::from("k"), String::from("v"))]);
        }
        other => panic!("{:?}", other),
    }
    match next(&mut out) {
        Some((Packet::Unsubscribe(p), 3)) => {
            assert_eq!(p.packet_id.get(), 3);
            assert_eq!(p.topic_filters, vec![String::from("x/#"), String::from("y")]);
            assert_eq!(p.user_properties, vec![(String::from("k"), String::from("w"))]);
        }
        other => panic!("{:?}", other),
    }

    assert!(s.pkt_ack(puback(1, PublishAckReason::Success)).is_ok());
    assert!(s.pkt_ack(suback(2)).is_ok());
    assert!(s.pkt_ack(unsuback(3)).is_ok());
    assert!(PublishBuilder::at_least_once_acked(got(a1).unwrap()).is_ok());
    let sub = SubscribeBuilder::acked(got(a2).unwrap()).unwrap();
    assert_eq!(sub.status, vec![SubscribeAckReason::GrantedQos1]);
    let unsub = UnsubscribeBuilder::acked(got(a3).unwrap()).unwrap();
    assert_eq!(unsub.status, vec![UnsubscribeAckReason::Success]);
    assert_eq!(s.credit(), 3);
}

#[test]
fn ack_of_the_wrong_type_is_unexpected() {
    let (mut s, _out) = sink(1);
    let (_i, a) = send(&mut s);
    match s.pkt_ack(suback(1)) {
        Err(ProtocolError::Unexpected(byte, name)) => {
            assert_eq!(byte, 0x90);
            assert_eq!(name, "PublishAck");
        }
        other => panic!("{:?}", other),
    }
    // the request is over, and its credit is back
    assert!(matches!(got(a), Some(None)));
    assert_eq!(s.credit(), 1);
    assert!(matches!(
        PublishBuilder::at_least_once_acked(None),
        Err(PublishQos1Error::Disconnected)
    ));
}

#[test]
fn negative_ack_fails_the_publish() {
    let r = PublishBuilder::at_least_once_acked(Some(puback(3, PublishAckReason::QuotaExceeded)));
    match r {
        Err(PublishQos1Error::Fail(pkt)) => {
            assert_eq!(pkt.packet_id.get(), 3);
            assert_eq!(pkt.reason_code, PublishAckReason::QuotaExceeded);
        }
        other => panic!("{:?}", other),
    }
    let r = PublishBuilder::at_least_once_acked(Some(puback(
        3,
        PublishAckReason::NoMatchingSubscribers,
    )));
    assert!(matches!(r, Err(PublishQos1Error::Fail(_))));
}

#[test]
fn packet_that_cannot_be_encoded_is_withdrawn() {
    let (mut s, _out) = sink(4);
    let (i1, a1) = send(&mut s);
    let (i2, _a2) = send(&mut s);
    let (_i3, a3) = send(&mut s);
    assert_eq!(s.credit(), 1);

    // in the middle: zero takes its place
    s.pkt_encode_err(2, EncodeError::MalformedPacket);
    assert_eq!(s.credit(), 2);
    assert!(matches!(
        PublishBuilder::at_least_once_written(got(i2).unwrap()),
        Err(PublishQos1Error::Encode(EncodeError::MalformedPacket))
    ));
    // in front
    s.pkt_encode_err(1, EncodeError::PacketIdRequired);
    assert_eq!(s.credit(), 3);
    assert!(matches!(got(i1), Some(Some(Info::Error(EncodeError::PacketIdRequired)))));
    assert!(matches!(got(a1), Some(None)));

    assert!(s.pkt_ack(puback(3, PublishAckReason::Success)).is_ok());
    assert!(matches!(got(a3), Some(Some(_))));
    assert_eq!(s.credit(), 4);
}

#[test]
fn encode_error_after_the_ack_leaves_the_others() {
    let (mut s, _out) = sink(2);
    let (i1, _a1) = send(&mut s);
    assert!(s.pkt_ack(puback(1, PublishAckReason::Success)).is_ok());
    s.pkt_encode_err(1, EncodeError::UnsupportedVersion);
    assert!(matches!(got(i1), Some(Some(Info::Error(EncodeError::UnsupportedVersion)))));
    assert_eq!(s.credit(), 2);
}

#[test]
fn last_identifiers_are_reused_first() {
    let (mut s, mut out) = sink(3);
    let (_i1, _a1) = send(&mut s);
    let (_i2, _a2) = send(&mut s);
    let (_i3, _a3) = send(&mut s);
    for n in 1..4 {
        assert_eq!(next_publish(&mut out).0.packet_id, Some(id(n)));
    }
    for n in 1..4 {
        assert!(s.pkt_ack(puback(n, PublishAckReason::Success)).is_ok());
    }
    for n in [3, 2, 1] {
        let _ = send(&mut s);
        assert_eq!(next_publish(&mut out).0.packet_id, Some(id(n)));
    }
}

#[test]
fn request_without_credit_waits_and_goes_on() {
    let (mut s, mut out) = sink(1);
    let (_i1, _a1) = send(&mut s);
    let _ = next(&mut out);
    let (builder, wake) = match publish(&s).dup(true).send_at_least_once(&mut s) {
        Step::Wait { builder, wake } => (builder, wake),
        _ => panic!("there is no credit"),
    };
    assert!(next(&mut out).is_none());

    assert!(s.pkt_ack(puback(1, PublishAckReason::Success)).is_ok());
    assert!(matches!(got(wake), Some(Some(()))));
    let (_i2, a2) = sent(builder.resume_at_least_once(&mut s, true));
    let (p, _) = next_publish(&mut out);
    assert_eq!(p.packet_id, Some(id(1)));
    assert_eq!(p.qos, QoS::AtLeastOnce);
    assert!(p.dup);
    assert_eq!(s.credit(), 0);
    assert!(s.pkt_ack(puback(1, PublishAckReason::Success)).is_ok());
    assert!(matches!(got(a2), Some(Some(_))));
}

#[test]
fn first_waiting_request_that_is_still_there_is_woken() {
    let (mut s, _out) = sink(1);
    let (_i1, _a1) = send(&mut s);
    let mut wakes = Vec::new();
    for _ in 0..3 {
        match s.subscribe(None).send(&mut s) {
            Step::Wait { wake, .. } => wakes.push(wake),
            _ => panic!("there is no credit"),
        }
    }
    let w3 = wakes.pop().unwrap();
    let w2 = wakes.pop().unwrap();
    drop(wakes);
    assert!(s.pkt_ack(puback(1, PublishAckReason::Success)).is_ok());
    assert!(matches!(got(w2), Some(Some(()))));
    assert!(got(w3).is_none());
}

#[test]
fn request_that_is_not_woken_is_disconnected() {
    let (mut s, mut out) = sink(0);
    match publish(&s).send_at_least_once(&mut s) {
        Step::Wait { builder, .. } => assert!(matches!(
            builder.resume_at_least_once(&mut s, false),
            Step::Failed(PublishQos1Error::Disconnected)
        )),
        _ => panic!("there is no credit"),
    }
    match s.subscribe(None).send(&mut s) {
        Step::Wait { builder, .. } => assert!(matches!(
            builder.resume(&mut s, false),
            Step::Failed(SubscribeError::Disconnected)
        )),
        _ => panic!("there is no credit"),
    }
    match s.unsubscribe().send(&mut s) {
        Step::Wait { builder, .. } => assert!(matches!(
            builder.resume(&mut s, false),
            Step::Failed(UnsubscribeError::Disconnected)
        )),
        _ => panic!("there is no credit"),
    }
    assert!(next(&mut out).is_none());
    assert_eq!(s.credit(), 0);
}

#[test]
fn woken_request_waits_again_where_the_credit_was_taken() {
    let (mut s, mut out) = sink(1);
    let (_i1, _a1) = send(&mut s);
    let (builder, wake) = match publish(&s).dup(true).send_at_least_once(&mut s) {
        Step::Wait { builder, wake } => (builder, wake),
        _ => panic!("there is no credit"),
    };
    let (sub, sub_wake) = match s.subscribe(None).send(&mut s) {
        Step::Wait { builder, wake } => (builder, wake),
        _ => panic!("there is no credit"),
    };
    let (unsub, unsub_wake) = match s.unsubscribe().send(&mut s) {
        Step::Wait { builder, wake } => (builder, wake),
        _ => panic!("there is no credit"),
    };
    let _ = next(&mut out);

    // each request is woken, and finds that another was faster
    let (mut wakes, mut again) = (vec![wake, sub_wake, unsub_wake].into_iter(), Vec::new());
    let mut steal = |s: &mut MqttSink, out: &mut Out| {
        assert!(s.pkt_ack(puback(1, PublishAckReason::Success)).is_ok());
        assert!(matches!(got(wakes.next().unwrap()), Some(Some(()))));
        assert_eq!(s.credit(), 1);
        let _ = send(s);
        assert_eq!(s.credit(), 0);
        let _ = next_publish(out);
    };
    steal(&mut s, &mut out);
    let builder = match builder.resume_at_least_once(&mut s, true) {
        Step::Wait { builder, wake } => {
            again.push(wake);
            builder
        }
        _ => panic!("there is no credit"),
    };
    steal(&mut s, &mut out);
    match sub.resume(&mut s, true) {
        Step::Wait { wake, .. } => again.push(wake),
        _ => panic!("there is no credit"),
    }
    steal(&mut s, &mut out);
    match unsub.resume(&mut s, true) {
        Step::Wait { wake, .. } => again.push(wake),
        _ => panic!("there is no credit"),
    }
    assert_eq!(s.credit(), 0);
    assert!(next(&mut out).is_none());

    // the first that waits is woken once more, and goes out
    assert!(s.pkt_ack(puback(1, PublishAckReason::Success)).is_ok());
    assert!(matches!(got(again.remove(0)), Some(Some(()))));
    let _ = sent(builder.resume_at_least_once(&mut s, true));
    let (p, _) = next_publish(&mut out);
    assert_eq!(p.packet_id, Some(id(1)));
    assert_eq!(p.qos, QoS::AtLeastOnce);
    assert!(p.dup);
    assert_eq!(s.credit(), 0);
}

#[test]
fn request_woken_after_the_connection_was_closed_is_disconnected() {
    let (mut s, mut out) = sink(1);
    let (_i1, _a1) = send(&mut s);
    let (builder, wake) = match publish(&s).send_at_least_once(&mut s) {
        Step::Wait { builder, wake } => (builder, wake),
        _ => panic!("there is no credit"),
    };
    let (sub, unsub) = match (s.subscribe(None).send(&mut s), s.unsubscribe().send(&mut s)) {
        (Step::Wait { builder: sub, .. }, Step::Wait { builder: unsub, .. }) => (sub, unsub),
        _ => panic!("there is no credit"),
    };
    let _ = next(&mut out);
    s.drop_sink();
    assert!(s.pkt_ack(puback(1, PublishAckReason::Success)).is_ok());
    assert!(matches!(got(wake), Some(Some(()))));
    assert!(matches!(
        builder.resume_at_least_once(&mut s, true),
        Step::Failed(PublishQos1Error::Disconnected)
    ));
    assert!(matches!(sub.resume(&mut s, true), Step::Failed(SubscribeError::Disconnected)));
    assert!(matches!(unsub.resume(&mut s, true), Step::Failed(UnsubscribeError::Disconnected)));
    assert_eq!(s.credit(), 1);
    assert!(next(&mut out).is_none());
}

#[test]
fn identifiers_run_out() {
    let (mut s, out) = sink(70_000);
    drop(out);
    for _ in 0..65_535 {
        assert!(matches!(
            publish(&s).send_at_least_once(&mut s),
            Step::Failed(PublishQos1Error::Disconnected)
        ));
    }
    assert_eq!(s.credit(), 4_465);
    assert!(matches!(
        publish(&s).send_at_least_once(&mut s),
        Step::Failed(PublishQos1Error::PacketIdNotAvailable)
    ));
    assert!(matches!(
        s.subscribe(None).send(&mut s),
        Step::Failed(SubscribeError::PacketIdNotAvailable)
    ));
    assert!(matches!(
        s.unsubscribe().send(&mut s),
        Step::Failed(UnsubscribeError::PacketIdNotAvailable)
    ));
    assert_eq!(s.credit(), 4_465);

    // an acknowledgement makes one available again, and only one
    assert!(s.pkt_ack(puback(1, PublishAckReason::Success)).is_ok());
    assert!(matches!(
        publish(&s).send_at_least_once(&mut s),
        Step::Failed(PublishQos1Error::Disconnected)
    ));
    assert!(matches!(
        publish(&s).send_at_least_once(&mut s),
        Step::Failed(PublishQos1Error::PacketIdNotAvailable)
    ));
}

#[test]
fn close_sends_a_normal_disconnect_once() {
    let (mut s, mut out) = sink(1);
    s.close();
    assert!(!s.is_open());
    match next(&mut out) {
        Some((Packet::Disconnect(p), 0)) => {
            assert_eq!(p.reason_code, DisconnectReasonCode::NormalDisconnection);
            assert_eq!(p.session_expiry_interval_secs, None);
            assert_eq!(p.server_reference, None);
            assert_eq!(p.reason_string, None);
            assert!(p.user_properties.is_empty());
        }
        other => panic!("{:?}", other),
    }
    s.close();
    s.send(Packet::PingRequest);
    assert!(!s.ping());
    assert!(next(&mut out).is_none());
    assert!(matches!(
        publish(&s).send_at_least_once(&mut s),
        Step::Failed(PublishQos1Error::Disconnected)
    ));
    assert!(matches!(
        s.subscribe(None).send(&mut s),
        Step::Failed(SubscribeError::Disconnected)
    ));
    assert!(matches!(
        s.unsubscribe().send(&mut s),
        Step::Failed(UnsubscribeError::Disconnected)
    ));
    assert_eq!(s.credit(), 1);
}

#[test]
fn close_with_reason_sends_the_packet() {
    let (mut s, mut out) = sink(1);
    let mut pkt = Disconnect::default();
    pkt.reason_code = DisconnectReasonCode::ServerBusy;
    s.close_with_reason(pkt);
    match next(&mut out) {
        Some((Packet::Disconnect(p), 0)) => {
            assert_eq!(p.reason_code, DisconnectReasonCode::ServerBusy)
        }
        other => panic!("{:?}", other),
    }
    assert!(!s.is_open());
}

#[test]
fn send_and_ping_keep_the_connection_open() {
    let (mut s, mut out) = sink(1);
    s.send(Packet::PingRequest);
    assert!(s.is_open());
    assert!(matches!(next(&mut out), Some((Packet::PingRequest, 0))));
    for _ in 0..2 {
        assert!(s.ping());
        assert!(s.is_open());
        assert!(matches!(next(&mut out), Some((Packet::PingRequest, 0))));
    }
    let _ = send(&mut s);
    assert_eq!(next_publish(&mut out).0.packet_id, Some(id(1)));

    let (mut s, out) = sink(1);
    drop(out);
    assert!(!s.ping());
    assert!(s.is_open());
}

#[test]
fn drop_sink_sends_nothing() {
    let (mut s, mut out) = sink(1);
    s.drop_sink();
    assert!(!s.is_open());
    assert!(next(&mut out).is_none());
}

#[test]
fn set_properties_changes_the_packet() {
    let (mut s, mut out) = sink(1);
    let mut builder = publish(&s);
    builder.set_properties(|p: &mut PublishProperties| {
        p.topic_alias = NonZeroU16::new(9);
        p.user_properties.push((String::from("a"), String::from("b")));
    });
    let _ = builder.send_at_most_once(&mut s).unwrap();
    let (p, _) = next_publish(&mut out);
    assert_eq!(p.properties.topic_alias, Some(id(9)));
    assert_eq!(p.properties.user_properties.len(), 1);
    assert_eq!(p.properties.correlation_data, None);
    assert!(!p.properties.is_utf8_payload);
}

#[test]
fn sinks_may_share_their_pools() {
    let pool = Rc::new(MqttSinkPool::default());
    let (tx1, _out1) = mpsc::channel();
    let (tx2, _out2) = mpsc::channel();
    let mut s1 = MqttSink::new(tx1, 1, pool.clone());
    let mut s2 = MqttSink::new(tx2, 1, pool);
    let (_i1, a1) = send(&mut s1);
    let (_i2, a2) = send(&mut s2);
    assert!(s2.pkt_ack(puback(1, PublishAckReason::Success)).is_ok());
    assert!(got(a1).is_none());
    assert!(matches!(got(a2), Some(Some(_))));
}

#[test]
fn reports_of_subscribe_requests() {
    assert!(SubscribeBuilder::written(Some(Info::Written)).is_ok());
    assert!(matches!(
        SubscribeBuilder::written(Some(Info::Error(EncodeError::InvalidLength))),
        Err(SubscribeError::Encode(EncodeError::InvalidLength))
    ));
    assert!(matches!(SubscribeBuilder::written(None), Err(SubscribeError::Disconnected)));
    assert!(matches!(SubscribeBuilder::acked(None), Err(SubscribeError::Disconnected)));
    assert!(UnsubscribeBuilder::written(Some(Info::Written)).is_ok());
    assert!(matches!(
        UnsubscribeBuilder::written(Some(Info::Error(EncodeError::InvalidLength))),
        Err(UnsubscribeError::Encode(EncodeError::InvalidLength))
    ));
    assert!(matches!(UnsubscribeBuilder::written(None), Err(UnsubscribeError::Disconnected)));
    assert!(matches!(UnsubscribeBuilder::acked(None), Err(UnsubscribeError::Disconnected)));
    assert!(matches!(
        PublishBuilder::at_least_once_written(None),
        Err(PublishQos1Error::Disconnected)
    ));
}

#[test]
fn acks_tell_their_type_and_identifier() {
    assert_eq!(puback(5, PublishAckReason::Success).packet_type(), 0x40);
    assert_eq!(suback(6).packet_type(), 0x90);
    assert_eq!(unsuback(7).packet_type(), 0xb0);
    assert_eq!(puback(5, PublishAckReason::Success).packet_id(), 5);
    assert_eq!(suback(6).packet_id(), 6);
    assert_eq!(unsuback(65_535).packet_id(), 65_535);
    assert!(suback(6).is_match(AckType::Subscribe));
    assert!(!suback(6).is_match(AckType::Publish));
    assert!(!unsuback(6).is_match(AckType::Subscribe));
    assert_eq!(AckType::Publish.name(), "PublishAck");
    assert_eq!(AckType::Subscribe.name(), "SubscribeAck");
    assert_eq!(AckType::Unsubscribe.name(), "UnsubscribeAck");
    assert_eq!(puback(5, PublishAckReason::Success).publish().packet_id.get(), 5);
    assert_eq!(suback(6).subscribe().packet_id.get(), 6);
    assert_eq!(unsuback(7).unsubscribe().packet_id.get(), 7);
}

#[test]
fn zero_is_no_identifier() {
    assert!(NonZeroU16::new(0).is_none());
    assert!(NonZeroU32::new(0).is_none());
    assert_eq!(NonZeroU16::new(1).unwrap().get(), 1);
    assert_eq!(NonZeroU32::new(70_000).unwrap().get(), 70_000);
}

#[test]
fn client_errors_from_what_caused_them() {
    let err = ClientError::from(either::Either::Left(EncodeError::InvalidLength));
    assert!(matches!(
        err,
        ClientError::Protocol(ProtocolError::Encode(EncodeError::InvalidLength))
    ));
    let io = std::io::Error::new(std::io::ErrorKind::Other, "gone");
    let err = ClientError::from(either::Either::Right(io));
    assert!(matches!(
        err,
        ClientError::Protocol(ProtocolError::Io(e)) if e.to_string() == "gone"
    ));
    let err = ClientError::from(ProtocolError::PacketIdMismatch);
    assert!(matches!(err, ClientError::Protocol(ProtocolError::PacketIdMismatch)));
    let err = ClientError::from(ntex::connect::ConnectError::NoRecords);
    assert!(matches!(err, ClientError::Connect(ntex::connect::ConnectError::NoRecords)));
    let err = ClientError::from(ConnectAck {
        session_present: false,
        reason_code: ConnectAckReason::Banned,
        receive_max: None,
        reason_string: None,
        user_properties: Vec::new(),
    });
    assert!(matches!(
        err,
        ClientError::Ack(ConnectAck { reason_code: ConnectAckReason::Banned, .. })
    ));
}

#[test]
fn reports_and_acks_reach_the_request_that_they_are_for() {
    let (mut s, _out) = sink(3);
    let (i1, a1) = send(&mut s);
    let i2 = publish(&s).send_at_most_once(&mut s).unwrap();
    let (i3, a3) = send(&mut s);

    // the encoder may report in any order, and between acknowledgements
    s.pkt_written(3);
    assert!(s.pkt_ack(puback(1, PublishAckReason::Success)).is_ok());
    s.pkt_encode_err(2, EncodeError::InvalidLength);
    let (i4, a4) = send(&mut s);
    s.pkt_written(1);
    assert!(s.pkt_ack(puback(2, PublishAckReason::QuotaExceeded)).is_ok());

    assert!(matches!(got(i1), Some(Some(Info::Written))));
    assert!(matches!(got(i2), Some(Some(Info::Error(EncodeError::InvalidLength)))));
    assert!(matches!(got(i3), Some(Some(Info::Written))));
    assert!(got(i4).is_none());
    match got(a1) {
        Some(Some(Ack::Publish(pkt))) => assert_eq!(pkt.reason_code, PublishAckReason::Success),
        other => panic!("{:?}", other),
    }
    match got(a3) {
        Some(Some(Ack::Publish(pkt))) => {
            assert_eq!(pkt.reason_code, PublishAckReason::QuotaExceeded)
        }
        other => panic!("{:?}", other),
    }
    assert!(got(a4).is_none());
}

#[test]
fn builders_show_their_packets() {
    let (s, _out) = sink(1);
    let builder = publish(&s).retain();
    assert_eq!(builder.packet().topic, "a/b");
    assert_eq!(builder.packet().qos, QoS::AtMostOnce);
    assert_eq!(builder.packet().packet_id, None);
    assert!(builder.packet().retain);
    let builder = s.subscribe(NonZeroU32::new(7)).property(String::from("k"), String::from("v"));
    assert_eq!(builder.packet().id.unwrap().get(), 7);
    assert_eq!(builder.packet().user_properties, vec![(String::from("k"), String::from("v"))]);
    let builder = s.unsubscribe().topic_filter(String::from("x"));
    assert_eq!(builder.packet().packet_id.get(), 1);
    assert_eq!(builder.packet().topic_filters, vec![String::from("x")]);
}

#[test]
fn resumed_publish_has_the_quality_of_service_that_is_acknowledged() {
    let (mut s, mut out) = sink(1);
    let builder = publish(&s);
    assert_eq!(builder.packet().qos, QoS::AtMostOnce);
    let _ = sent(builder.resume_at_least_once(&mut s, true));
    let (p, _) = next_publish(&mut out);
    assert_eq!(p.qos, QoS::AtLeastOnce);
    assert_eq!(p.packet_id, Some(id(1)));
}

#[test]
fn report_numbers_differ_until_they_are_reported() {
    let (mut s, mut out) = sink(4);
    let mut notes = Vec::new();
    for _ in 0..2 {
        let _ = publish(&s).send_at_most_once(&mut s);
        notes.push(next_publish(&mut out).1);
        let _ = send(&mut s);
        notes.push(next_publish(&mut out).1);
    }
    assert_eq!(notes, vec![1, 2, 3, 4]);
    s.pkt_written(2);
    s.pkt_encode_err(3, EncodeError::InvalidLength);
    let _ = sent(s.subscribe(None).send(&mut s));
    assert!(matches!(next(&mut out), Some((Packet::Subscribe(_), 3))));
    let _ = publish(&s).send_at_most_once(&mut s);
    assert_eq!(next_publish(&mut out).1, 2);
    let _ = sent(s.unsubscribe().send(&mut s));
    assert!(matches!(next(&mut out), Some((Packet::Unsubscribe(_), 5))));
}

#[test]
fn requests_are_woken_in_the_order_in_which_they_wait() {
    let (mut s, _out) = sink(2);
    let (_i1, _a1) = send(&mut s);
    let (_i2, _a2) = send(&mut s);
    let mut wait = |s: &mut MqttSink| match publish(s).send_at_least_once(s) {
        Step::Wait { wake, .. } => wake,
        _ => panic!("there is no credit"),
    };
    let (w1, w2) = (wait(&mut s), wait(&mut s));
    assert!(s.pkt_ack(puback(1, PublishAckReason::Success)).is_ok());
    assert!(matches!(got(w1), Some(Some(()))));
    let (_i3, _a3) = send(&mut s);
    let w3 = wait(&mut s);
    assert!(s.pkt_ack(puback(2, PublishAckReason::Success)).is_ok());
    assert!(matches!(got(w2), Some(Some(()))));
    assert!(s.pkt_ack(puback(1, PublishAckReason::Success)).is_ok());
    assert!(matches!(got(w3), Some(Some(()))));
}
