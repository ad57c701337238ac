use netevents::channels::{ChannelManager, Direction, EventChannel};

#[test]
fn channel_ids_start_at_one_per_direction() {
    let mut m = ChannelManager::default();
    assert_eq!(m.create_server_channel(), 1);
    assert_eq!(m.create_server_channel(), 2);
    assert_eq!(m.create_client_channel(), 1);
    assert_eq!(m.create_server_channel(), 3);
    assert_eq!(m.create_client_channel(), 2);
    assert_eq!(m.create_channel(Direction::ClientToServer), 3);
}

#[test]
fn allocation_is_deterministic_across_managers() {
    let dirs = vec![
        Direction::ServerToClient,
        Direction::ClientToServer,
        Direction::ServerToClient,
        Direction::ServerToClient,
        Direction::ClientToServer,
    ];
    let mut first = ChannelManager::default();
    let mut second = ChannelManager::default();
    let a = first.create_channels(&dirs);
    let b = second.create_channels(&dirs);
    assert_eq!(a, vec![1, 1, 2, 3, 2]);
    assert_eq!(a, b);
    assert_eq!(first.server, 3);
    assert_eq!(first.client, 2);
}

#[test]
fn last_channel_id_is_the_largest() {
    let mut m = ChannelManager::default();
    let mut id = 0;
    for _ in 0..255 {
        id = m.create_client_channel();
    }
    assert_eq!(id, u8::MAX);
    assert_eq!(m.server, 0);
}

#[test]
fn event_channel_keeps_its_id() {
    let c: EventChannel<u32> = EventChannel::new(4);
    assert_eq!(c.channel_id, 4);
}

#[test]
fn registration_allocates_per_direction() {
    let mut m = ChannelManager::default();
    let a: EventChannel<u8> = netevents::channels::add_server_event(&mut m);
    let b: EventChannel<u16> = netevents::channels::add_client_event(&mut m);
    let c: EventChannel<u32> = netevents::channels::add_server_event(&mut m);
    assert_eq!((a.channel_id, b.channel_id, c.channel_id), (1, 1, 2));
}
