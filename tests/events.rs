use bincode::Options;
use netevents::channels::{ChannelManager, EventChannel, SERVER_ID};
use netevents::client_events;
use netevents::helper::count_objects;
use netevents::message::ClientMsg;
use netevents::server_events::{self, ToClient};
use netevents::session::{send_server_event, ClientSn, SendMode, ServerSn};
use netevents::tick::{LastRepliconTick, RepliconTick};

#[test]
fn server_receives_client_events_with_sender_ids() {
    let mut s = ServerSn::new();
    s.bucket_inbound(3, ClientMsg { channel_id: 1, event: vec![9] });
    s.bucket_inbound(4, ClientMsg { channel_id: 1, event: vec![8] });
    s.bucket_inbound(4, ClientMsg { channel_id: 2, event: vec![7] });
    let got = client_events::receiving_system(&mut s, 1);
    assert_eq!(got.len(), 2);
    assert_eq!((got[0].client_id, got[0].event.clone()), (3, vec![9]));
    assert_eq!((got[1].client_id, got[1].event.clone()), (4, vec![8]));
    assert!(client_events::receiving_system(&mut s, 1).is_empty());
    assert_eq!(client_events::receiving_system(&mut s, 2).len(), 1);
}

#[test]
fn client_sending_tags_each_event_with_the_channel() {
    let channel: EventChannel<u32> = EventChannel::new(6);
    let msgs = client_events::sending_system(&channel, vec![vec![1], vec![2, 3]]);
    assert_eq!(msgs.len(), 2);
    assert_eq!(msgs[0].channel_id, 6);
    assert_eq!(msgs[1].event, vec![2, 3]);
}

#[test]
fn local_loopback_comes_from_the_server_id() {
    let got = client_events::local_resending_system(vec!["jump", "fire"]);
    assert_eq!(got.len(), 2);
    assert!(got.iter().all(|e| e.client_id == SERVER_ID));
    assert_eq!(got[0].event, "jump");
    assert_eq!(got[1].event, "fire");
}

#[test]
fn server_loopback_follows_the_send_mode() {
    let events = vec![
        ToClient { mode: Some(SendMode::Broadcast), event: 1 },
        ToClient { mode: Some(SendMode::BroadcastExcept(SERVER_ID)), event: 2 },
        ToClient { mode: Some(SendMode::BroadcastExcept(5)), event: 3 },
        ToClient { mode: Some(SendMode::Direct(5)), event: 4 },
        ToClient { mode: Some(SendMode::Direct(SERVER_ID)), event: 5 },
        ToClient { mode: None, event: 6 },
    ];
    assert_eq!(server_events::local_resending_system(events), vec![1, 3, 5]);
}

#[test]
fn ping_is_withheld_until_its_tick_is_acknowledged() {
    let options = bincode::DefaultOptions::new();
    let mut channels = ChannelManager::default();
    let ping: EventChannel<u32> = EventChannel::new(channels.create_server_channel());

    let mut server = ServerSn::new();
    server.record_connect(77).unwrap();
    let mut tick = RepliconTick::new(9);
    tick.increment();
    assert_eq!(tick.get(), 10);
    let payload = options.serialize(&5u32).unwrap();
    let out = send_server_event(&server, ping.channel_id, SendMode::Broadcast, Some(tick), &payload);
    assert_eq!(out.len(), 1);
    assert_eq!(out[0].0, 77);

    let mut client = ClientSn::new();
    client.bucket_inbound(out[0].1.clone());
    let mut last = LastRepliconTick::new(RepliconTick::new(9));
    assert!(server_events::receiving_system(&mut client, &ping, &last).is_empty());

    assert!(last.acknowledge(RepliconTick::new(10)));
    let got = server_events::receiving_system(&mut client, &ping, &last);
    assert_eq!(got.len(), 1);
    assert!(got[0].mode.is_none());
    let seq: u32 = options.deserialize(&got[0].event).unwrap();
    assert_eq!(seq, 5);
}

#[test]
fn count_objects_counts_each_value() {
    let counts = count_objects(vec!["a", "b", "a", "c", "a"]);
    assert_eq!(counts.len(), 3);
    assert_eq!(counts["a"], 3);
    assert_eq!(counts["b"], 1);
    assert_eq!(counts["c"], 1);
    assert!(count_objects(Vec::<u8>::new()).is_empty());
}
