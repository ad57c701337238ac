use vstd::prelude::*;

use crate::channels::{ChannelId, EventChannel, SERVER_ID};
use crate::session::{ready_part, waiting_part, ClientSn, SendMode};
use crate::tick::LastRepliconTick;

verus! {

/// An event addressed to clients. Events that arrived from the server carry
/// no mode.
#[derive(Clone, Copy, Debug)]
pub struct ToClient<T> {
    pub mode: Option<SendMode>,
    pub event: T,
}

/// Whether an event sent in `mode` reaches the server's own player.
pub open spec fn reaches_server(mode: Option<SendMode>) -> bool {
    match mode {
        Some(SendMode::Broadcast) => true,
        Some(SendMode::BroadcastExcept(id)) => id != SERVER_ID,
        Some(SendMode::Direct(id)) => id == SERVER_ID,
        None => false,
    }
}

/// The events of `s` that reach the server's own player, in order.
pub open spec fn local_events<T>(s: Seq<ToClient<T>>) -> Seq<T>
    decreases s.len(),
{
    if s.len() == 0 {
        Seq::empty()
    } else if reaches_server(s.last().mode) {
        local_events(s.drop_last()).push(s.last().event)
    } else {
        local_events(s.drop_last())
    }
}

/// Client side of a server channel: takes the messages whose tick the client
/// has acknowledged, oldest first, and hands out their payloads; the others stay
/// queued for a later cycle.
pub fn receiving_system<T>(
    client: &mut ClientSn,
    channel: &EventChannel<T>,
    last: &LastRepliconTick,
) -> (r: Vec<ToClient<Vec<u8>>>)
    ensures
        r@.len() == ready_part(old(client).pending(channel.channel_id), last.0.0).len(),
        forall|i: int|
            0 <= i < r@.len() ==> (#[trigger] r@[i]).mode is None && r@[i].event@ == ready_part(
                old(client).pending(channel.channel_id),
                last.0.0,
            )[i].event@,
        final(client).pending(channel.channel_id) == waiting_part(
            old(client).pending(channel.channel_id),
            last.0.0,
        ),
        forall|d: ChannelId|
            d != channel.channel_id ==> final(client).pending(d) == old(client).pending(d),
{
    let ready = client.take_ready(channel.channel_id, last);
    let ghost all = ready@;
    let mut out: Vec<ToClient<Vec<u8>>> = Vec::new();
    for msg in it: ready
        invariant
            it.seq() == all,
            out@.len() == it.index(),
            forall|i: int|
                0 <= i < it.index() ==> (#[trigger] out@[i]).mode is None && out@[i].event@
                    == all[i].event@,
    {
        out.push(ToClient { mode: None, event: msg.event });
    }
    out
}

/// Delivers the server events raised locally to the server's own player, for
/// offline play or a server that also plays: broadcasts, broadcasts that do not
/// exclude the server, and events sent directly to the server come out, in
/// order; the rest only go over the wire.
pub fn local_resending_system<T>(events: Vec<ToClient<T>>) -> (r: Vec<T>)
    ensures
        r@ == local_events(events@),
{
    let ghost all = events@;
    let mut out: Vec<T> = Vec::new();
    for ev in it: events
        invariant
            it.seq() == all,
            out@ == local_events(all.take(it.index())),
    {
        let ghost k = it.index();
        proof {
            assert(all.take(k + 1).drop_last() =~= all.take(k));
        }
        let deliver = match ev.mode {
            Some(SendMode::Broadcast) => true,
            Some(SendMode::BroadcastExcept(id)) => id != SERVER_ID,
            Some(SendMode::Direct(id)) => id == SERVER_ID,
            None => false,
        };
        if deliver {
            out.push(ev.event);
        }
    }
    proof {
        assert(all.take(all.len() as int) =~= all);
    }
    out
}

} // verus!
