use vstd::prelude::*;

use crate::channels::{ChannelId, ClientId, EventChannel, SERVER_ID};
use crate::message::ClientMsg;
use crate::session::ServerSn;

verus! {

/// An event received from a client, tagged with the connection it came from.
#[derive(Clone, Copy, Debug)]
pub struct FromClient<T> {
    pub client_id: ClientId,
    pub event: T,
}

/// Server side of a client channel: drains the channel's inbox and hands out
/// each payload with the id of the client that sent it, in order of arrival.
pub fn receiving_system(server: &mut ServerSn, channel_id: ChannelId) -> (r: Vec<FromClient<Vec<u8>>>)
    ensures
        r@.len() == old(server).pending(channel_id).len(),
        forall|i: int|
            0 <= i < r@.len() ==> (#[trigger] r@[i]).client_id == old(server).pending(
                channel_id,
            )[i].0 && r@[i].event@ == old(server).pending(channel_id)[i].1.event@,
        final(server).pending(channel_id) == Seq::<(ClientId, ClientMsg)>::empty(),
        forall|d: ChannelId| d != channel_id ==> final(server).pending(d) == old(server).pending(d),
        final(server).live() == old(server).live(),
{
    let drained = server.drain_bucket(channel_id);
    let ghost all = drained@;
    let mut out: Vec<FromClient<Vec<u8>>> = Vec::new();
    for item in it: drained
        invariant
            it.seq() == all,
            out@.len() == it.index(),
            forall|i: int|
                0 <= i < it.index() ==> (#[trigger] out@[i]).client_id == all[i].0
                    && out@[i].event@ == all[i].1.event@,
    {
        let (client_id, msg) = item;
        out.push(FromClient { client_id, event: msg.event });
    }
    out
}

/// Client side of a client channel: wraps each serialized event raised during
/// the cycle into a message for the channel, in order.
pub fn sending_system<T>(channel: &EventChannel<T>, events: Vec<Vec<u8>>) -> (r: Vec<ClientMsg>)
    ensures
        r@.len() == events@.len(),
        forall|i: int|
            0 <= i < r@.len() ==> (#[trigger] r@[i]).channel_id == channel.channel_id
                && r@[i].event@ == events@[i]@,
{
    let ghost all = events@;
    let mut out: Vec<ClientMsg> = Vec::new();
    for event in it: events
        invariant
            it.seq() == all,
            out@.len() == it.index(),
            forall|i: int|
                0 <= i < it.index() ==> (#[trigger] out@[i]).channel_id == channel.channel_id
                    && out@[i].event@ == all[i]@,
    {
        out.push(ClientMsg::from_bytes(event, channel.channel_id));
    }
    out
}

/// Delivers the events raised locally as if they had been received from a
/// client, for offline play or a server that also plays: every event comes out,
/// in order, from the server's own id, with no serialization on the way.
pub fn local_resending_system<T>(events: Vec<T>) -> (r: Vec<FromClient<T>>)
    ensures
        r@.len() == events@.len(),
        forall|i: int|
            0 <= i < r@.len() ==> (#[trigger] r@[i]).client_id == SERVER_ID && r@[i].event
                == events@[i],
{
    let ghost all = events@;
    let mut out: Vec<FromClient<T>> = Vec::new();
    for event in it: events
        invariant
            it.seq() == all,
            out@.len() == it.index(),
            forall|i: int|
                0 <= i < it.index() ==> (#[trigger] out@[i]).client_id == SERVER_ID
                    && out@[i].event == all[i],
    {
        out.push(FromClient { client_id: SERVER_ID, event });
    }
    out
}

} // verus!
