use netevents::channels::SERVER_ID;
use netevents::error::NetworkError;
use netevents::message::{ClientMsg, ServerMsg};
use netevents::session::{
    send_server_event, ClientSn, InternalConnectionEvent, SendMode, ServerSn, ServerTransportEvent,
};
use netevents::tick::{LastRepliconTick, RepliconTick};

fn sorted(mut v: Vec<u128>) -> Vec<u128> {
    v.sort();
    v
}

fn msg(channel_id: u8, event: Vec<u8>) -> ClientMsg {
    ClientMsg { channel_id, event }
}

#[test]
fn disconnect_of_unknown_connection_is_rejected() {
    let mut s = ServerSn::new();
    assert_eq!(s.record_disconnect(42), Err(NetworkError::NotConnected(42)));
    assert_eq!(s.record_connect(42), Ok(()));
    assert_eq!(s.record_disconnect(42), Ok(()));
    assert_eq!(s.record_disconnect(42), Err(NetworkError::NotConnected(42)));
}

#[test]
fn duplicate_connect_is_rejected() {
    let mut s = ServerSn::new();
    assert_eq!(s.record_connect(7), Ok(()));
    assert_eq!(s.record_connect(7), Err(NetworkError::AlreadyConnected(7)));
    assert_eq!(s.client_connections.len(), 1);
}

#[test]
fn live_count_is_connects_minus_disconnects() {
    let mut s = ServerSn::new();
    for id in 1..=5u128 {
        assert_eq!(s.record_connect(id), Ok(()));
    }
    for id in [2u128, 4] {
        assert_eq!(s.record_disconnect(id), Ok(()));
    }
    assert_eq!(s.client_connections.len(), 3);
}

#[test]
fn transport_reports_update_the_live_set() {
    let mut s = ServerSn::new();
    assert_eq!(
        s.handle_transport_event(9, ServerTransportEvent::Connected),
        Ok(Some(InternalConnectionEvent::Connected(9)))
    );
    assert_eq!(
        s.handle_transport_event(9, ServerTransportEvent::Connected),
        Err(NetworkError::AlreadyConnected(9))
    );
    assert_eq!(s.handle_transport_event(9, ServerTransportEvent::Msg(msg(1, vec![3]))), Ok(None));
    assert_eq!(
        s.handle_transport_event(9, ServerTransportEvent::Disconnected),
        Ok(Some(InternalConnectionEvent::Disconnected(9)))
    );
    assert_eq!(
        s.handle_transport_event(9, ServerTransportEvent::Disconnected),
        Err(NetworkError::NotConnected(9))
    );
    let drained = s.drain_bucket(1);
    assert_eq!(drained.len(), 1);
    assert_eq!(drained[0].0, 9);
}

#[test]
fn buckets_keep_arrival_order_per_channel() {
    let mut s = ServerSn::new();
    s.bucket_inbound(1, msg(2, vec![10]));
    s.bucket_inbound(2, msg(3, vec![20]));
    s.bucket_inbound(3, msg(2, vec![30]));
    let two = s.drain_bucket(2);
    assert_eq!(two.iter().map(|p| p.0).collect::<Vec<_>>(), vec![1, 3]);
    assert_eq!(two.iter().map(|p| p.1.event.clone()).collect::<Vec<_>>(), vec![vec![10], vec![30]]);
    assert!(s.drain_bucket(2).is_empty());
    assert_eq!(s.drain_bucket(3).len(), 1);
    assert!(s.drain_bucket(200).is_empty());
}

#[test]
fn broadcast_except_skips_one_connection() {
    let mut s = ServerSn::new();
    for id in [1u128, 2, 3] {
        s.record_connect(id).unwrap();
    }
    assert_eq!(sorted(s.targets(SendMode::Broadcast)), vec![1, 2, 3]);
    assert_eq!(sorted(s.targets(SendMode::BroadcastExcept(2))), vec![1, 3]);
    assert_eq!(sorted(s.targets(SendMode::BroadcastExcept(99))), vec![1, 2, 3]);
}

#[test]
fn broadcast_except_only_live_connection_reaches_nobody() {
    let mut s = ServerSn::new();
    s.record_connect(5).unwrap();
    assert!(s.targets(SendMode::BroadcastExcept(5)).is_empty());
}

#[test]
fn direct_send_to_server_is_a_no_op() {
    let mut s = ServerSn::new();
    s.record_connect(5).unwrap();
    assert!(s.targets(SendMode::Direct(SERVER_ID)).is_empty());
    assert_eq!(s.targets(SendMode::Direct(5)), vec![5]);
}

#[test]
fn send_server_event_builds_one_message_per_target() {
    let mut s = ServerSn::new();
    for id in [4u128, 8] {
        s.record_connect(id).unwrap();
    }
    let out = send_server_event(&s, 3, SendMode::Broadcast, Some(RepliconTick::new(12)), &vec![1, 2]);
    assert_eq!(sorted(out.iter().map(|p| p.0).collect()), vec![4, 8]);
    for (_, m) in &out {
        assert_eq!(m.channel_id, 3);
        assert_eq!(m.tick, Some(RepliconTick::new(12)));
        assert_eq!(m.event, vec![1, 2]);
    }
    let none = send_server_event(&s, 3, SendMode::Direct(SERVER_ID), None, &vec![1]);
    assert!(none.is_empty());
}

fn smsg(tick: Option<u32>, event: u8) -> ServerMsg {
    ServerMsg { channel_id: 1, tick: tick.map(RepliconTick::new), event: vec![event] }
}

#[test]
fn unacknowledged_messages_are_pushed_back_in_order() {
    let mut c = ClientSn::new();
    c.bucket_inbound(smsg(Some(5), 1));
    c.bucket_inbound(smsg(Some(9), 2));
    c.bucket_inbound(smsg(None, 3));
    c.bucket_inbound(smsg(Some(12), 4));
    c.bucket_inbound(smsg(Some(7), 5));
    let last = LastRepliconTick::new(RepliconTick::new(7));
    let ready = c.take_ready(1, &last);
    assert_eq!(ready.iter().map(|m| m.event[0]).collect::<Vec<_>>(), vec![1, 3, 5]);
    let later = LastRepliconTick::new(RepliconTick::new(12));
    let rest = c.take_ready(1, &later);
    assert_eq!(rest.iter().map(|m| m.event[0]).collect::<Vec<_>>(), vec![2, 4]);
    assert!(c.drain_bucket(1).is_empty());
}

#[test]
fn authority_belongs_to_processes_without_a_client() {
    let c = ClientSn::new();
    assert!(!netevents::session::has_authority(Some(&c)));
    assert!(netevents::session::has_authority(None));
}
