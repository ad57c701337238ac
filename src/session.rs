use vstd::prelude::*;

use std::collections::{HashMap, HashSet};

use crate::channels::{ChannelId, ClientId, SERVER_ID};
use crate::error::NetworkError;
use crate::message::{ClientMsg, ServerMsg};
use crate::tick::{
    lemma_event_gating, tick_before, tick_ready, wrapping_diff, LastRepliconTick, RepliconTick,
    HALF_RANGE,
};

verus! {

broadcast use vstd::std_specs::hash::group_hash_axioms;

/// How a server event is addressed.
#[derive(Clone, Copy, Debug, PartialEq, Eq, Structural)]
pub enum SendMode {
    /// Every live connection.
    Broadcast,
    /// Every live connection but the given one.
    BroadcastExcept(ClientId),
    /// Exactly the given connection; nothing when it names the server itself.
    Direct(ClientId),
}

/// The connections a send in `mode` reaches when `live` are connected.
pub open spec fn targets_of(live: Set<ClientId>, mode: SendMode) -> Set<ClientId> {
    match mode {
        SendMode::Broadcast => live,
        SendMode::BroadcastExcept(except) => live.remove(except),
        SendMode::Direct(id) => if id == SERVER_ID {
            Set::empty()
        } else {
            Set::empty().insert(id)
        },
    }
}

/// Broadcast targeting: a broadcast that excludes `x` reaches every live
/// connection but `x`, one fewer than are live when `x` is live, and none at all
/// when `x` is the only live connection.
pub proof fn lemma_broadcast_except(live: Set<ClientId>, x: ClientId)
    requires
        live.finite(),
    ensures
        forall|y: ClientId|
            targets_of(live, SendMode::BroadcastExcept(x)).contains(y) <==> (live.contains(y) && y
                != x),
        live.contains(x) ==> targets_of(live, SendMode::BroadcastExcept(x)).len() + 1 == live.len(),
        live == Set::<ClientId>::empty().insert(x) ==> targets_of(
            live,
            SendMode::BroadcastExcept(x),
        ).len() == 0,
{
    if live == Set::<ClientId>::empty().insert(x) {
        assert(targets_of(live, SendMode::BroadcastExcept(x)) =~= Set::<ClientId>::empty());
    }
}

/// A connection change, told to every client through an ordinary server channel.
#[derive(Clone, Copy, Debug, PartialEq, Eq, Structural)]
pub enum InternalConnectionEvent {
    Connected(ClientId),
    Disconnected(ClientId),
}

/// The live set after one connection change, or `None` when the change breaks
/// the bookkeeping (a connect of a live id, a disconnect of an id not live).
pub open spec fn connection_step(live: Set<ClientId>, ev: InternalConnectionEvent) -> Option<Set<ClientId>> {
    match ev {
        InternalConnectionEvent::Connected(id) => if live.contains(id) {
            None
        } else {
            Some(live.insert(id))
        },
        InternalConnectionEvent::Disconnected(id) => if live.contains(id) {
            Some(live.remove(id))
        } else {
            None
        },
    }
}

/// The live set after the changes `evs`, in order, starting from `live`.
pub open spec fn replay(live: Set<ClientId>, evs: Seq<InternalConnectionEvent>) -> Option<Set<ClientId>>
    decreases evs.len(),
{
    if evs.len() == 0 {
        Some(live)
    } else {
        match replay(live, evs.drop_last()) {
            Some(l) => connection_step(l, evs.last()),
            None => None,
        }
    }
}

/// Number of connects among `evs`.
pub open spec fn count_connects(evs: Seq<InternalConnectionEvent>) -> nat
    decreases evs.len(),
{
    if evs.len() == 0 {
        0
    } else {
        count_connects(evs.drop_last()) + if evs.last() is Connected {
            1nat
        } else {
            0nat
        }
    }
}

/// Number of disconnects among `evs`.
pub open spec fn count_disconnects(evs: Seq<InternalConnectionEvent>) -> nat
    decreases evs.len(),
{
    if evs.len() == 0 {
        0
    } else {
        count_disconnects(evs.drop_last()) + if evs.last() is Disconnected {
            1nat
        } else {
            0nat
        }
    }
}

/// Connection bookkeeping: from no connections, a run of accepted reports with
/// `N` connects and `M` disconnects leaves exactly `N - M` live connections.
/// A disconnect of an id that is not live is never accepted.
pub proof fn lemma_live_count(evs: Seq<InternalConnectionEvent>)
    requires
        replay(Set::empty(), evs) is Some,
    ensures
        replay(Set::empty(), evs)->Some_0.finite(),
        replay(Set::empty(), evs)->Some_0.len() + count_disconnects(evs) == count_connects(evs),
        forall|live: Set<ClientId>, id: ClientId|
            !live.contains(id) ==> connection_step(live, InternalConnectionEvent::Disconnected(id))
                is None,
    decreases evs.len(),
{
    if evs.len() > 0 {
        lemma_live_count(evs.drop_last());
    }
}

/// What the server's transport reports for one connection.
#[derive(Debug)]
pub enum ServerTransportEvent {
    Connected,
    Disconnected,
    Msg(ClientMsg),
}

/// Server-side session state: per-channel inboxes of messages from clients, in
/// order of arrival, and the set of live connections.
#[derive(Debug)]
pub struct ServerSn {
    pub message_channel_buckets: HashMap<ChannelId, Vec<(ClientId, ClientMsg)>>,
    pub client_connections: HashSet<ClientId>,
}

impl ServerSn {
    /// Messages waiting on channel `c`, oldest first.
    pub open spec fn pending(&self, c: ChannelId) -> Seq<(ClientId, ClientMsg)> {
        if self.message_channel_buckets@.contains_key(c) {
            self.message_channel_buckets@[c]@
        } else {
            Seq::empty()
        }
    }

    /// The live connections.
    pub open spec fn live(&self) -> Set<ClientId> {
        self.client_connections@
    }

    pub fn new() -> (r: Self)
        ensures
            forall|c: ChannelId| r.pending(c) == Seq::<(ClientId, ClientMsg)>::empty(),
            r.live() == Set::<ClientId>::empty(),
    {
        ServerSn { message_channel_buckets: HashMap::new(), client_connections: HashSet::new() }
    }

    /// Records a new connection; a connection that is already live is refused.
    pub fn record_connect(&mut self, id: ClientId) -> (r: Result<(), NetworkError>)
        ensures
            old(self).live().contains(id) ==> r == Err::<(), NetworkError>(
                NetworkError::AlreadyConnected(id),
            ) && final(self).live() == old(self).live(),
            !old(self).live().contains(id) ==> r is Ok && final(self).live() == old(
                self,
            ).live().insert(id),
            final(self).message_channel_buckets@ == old(self).message_channel_buckets@,
    {
        if self.client_connections.insert(id) {
            Ok(())
        } else {
            Err(NetworkError::AlreadyConnected(id))
        }
    }

    /// Records the end of a connection; one that is not live is refused.
    pub fn record_disconnect(&mut self, id: ClientId) -> (r: Result<(), NetworkError>)
        ensures
            !old(self).live().contains(id) ==> r == Err::<(), NetworkError>(
                NetworkError::NotConnected(id),
            ) && final(self).live() == old(self).live(),
            old(self).live().contains(id) ==> r is Ok && final(self).live() == old(
                self,
            ).live().remove(id),
            final(self).message_channel_buckets@ == old(self).message_channel_buckets@,
    {
        if self.client_connections.remove(&id) {
            Ok(())
        } else {
            Err(NetworkError::NotConnected(id))
        }
    }

    /// Applies one report of the transport about connection `from`: a connect or
    /// a disconnect updates the live set and yields the change to announce; a
    /// message is appended to its channel's inbox.
    pub fn handle_transport_event(&mut self, from: ClientId, event: ServerTransportEvent) -> (r:
        Result<Option<InternalConnectionEvent>, NetworkError>)
        ensures
            match event {
                ServerTransportEvent::Connected => match connection_step(
                    old(self).live(),
                    InternalConnectionEvent::Connected(from),
                ) {
                    Some(l) => r == Ok::<Option<InternalConnectionEvent>, NetworkError>(
                        Some(InternalConnectionEvent::Connected(from)),
                    ) && final(self).live() == l,
                    None => r == Err::<Option<InternalConnectionEvent>, NetworkError>(
                        NetworkError::AlreadyConnected(from),
                    ) && final(self).live() == old(self).live(),
                },
                ServerTransportEvent::Disconnected => match connection_step(
                    old(self).live(),
                    InternalConnectionEvent::Disconnected(from),
                ) {
                    Some(l) => r == Ok::<Option<InternalConnectionEvent>, NetworkError>(
                        Some(InternalConnectionEvent::Disconnected(from)),
                    ) && final(self).live() == l,
                    None => r == Err::<Option<InternalConnectionEvent>, NetworkError>(
                        NetworkError::NotConnected(from),
                    ) && final(self).live() == old(self).live(),
                },
                ServerTransportEvent::Msg(m) => r == Ok::<
                    Option<InternalConnectionEvent>,
                    NetworkError,
                >(None) && final(self).live() == old(self).live() && final(self).pending(
                    m.channel_id,
                ) == old(self).pending(m.channel_id).push((from, m)) && forall|c: ChannelId|
                    c != m.channel_id ==> final(self).pending(c) == old(self).pending(c),
            },
            !(event is Msg) ==> final(self).message_channel_buckets@ == old(
                self,
            ).message_channel_buckets@,
    {
        match event {
            ServerTransportEvent::Connected => match self.record_connect(from) {
                Ok(()) => Ok(Some(InternalConnectionEvent::Connected(from))),
                Err(e) => Err(e),
            },
            ServerTransportEvent::Disconnected => match self.record_disconnect(from) {
                Ok(()) => Ok(Some(InternalConnectionEvent::Disconnected(from))),
                Err(e) => Err(e),
            },
            ServerTransportEvent::Msg(m) => {
                self.bucket_inbound(from, m);
                Ok(None)
            },
        }
    }

    /// Appends a message from `from` to the inbox of its channel.
    pub fn bucket_inbound(&mut self, from: ClientId, msg: ClientMsg)
        ensures
            final(self).pending(msg.channel_id) == old(self).pending(msg.channel_id).push(
                (from, msg),
            ),
            forall|c: ChannelId| c != msg.channel_id ==> final(self).pending(c) == old(self).pending(c),
            final(self).live() == old(self).live(),
    {
        let c = msg.channel_id;
        let mut bucket = match self.message_channel_buckets.remove(&c) {
            Some(b) => b,
            None => Vec::new(),
        };
        bucket.push((from, msg));
        self.message_channel_buckets.insert(c, bucket);
    }

    /// Takes every message waiting on channel `c`, oldest first, and leaves its
    /// inbox empty.
    pub fn drain_bucket(&mut self, c: ChannelId) -> (r: Vec<(ClientId, ClientMsg)>)
        ensures
            r@ == old(self).pending(c),
            final(self).pending(c) == Seq::<(ClientId, ClientMsg)>::empty(),
            forall|d: ChannelId| d != c ==> final(self).pending(d) == old(self).pending(d),
            final(self).live() == old(self).live(),
    {
        match self.message_channel_buckets.remove(&c) {
            Some(b) => {
                self.message_channel_buckets.insert(c, Vec::new());
                b
            },
            None => Vec::new(),
        }
    }

    /// The connections a send in `mode` goes to, each once.
    pub fn targets(&self, mode: SendMode) -> (r: Vec<ClientId>)
        ensures
            r@.to_set() == targets_of(self.live(), mode),
            r@.no_duplicates(),
    {
        let mut out: Vec<ClientId> = Vec::new();
        match mode {
            SendMode::Direct(id) => {
                if id != SERVER_ID {
                    out.push(id);
                    proof {
                        assert(out@ =~= seq![id]);
                        assert(out@[0] == id);
                    }
                }
                proof {
                    assert(out@.to_set() =~= targets_of(self.live(), mode));
                }
            },
            _ => {
                let ghost skip: Option<ClientId> = match mode {
                    SendMode::BroadcastExcept(x) => Some(x),
                    _ => None,
                };
                for id in it: self.client_connections.iter()
                    invariant
                        it.seq().unref().to_set() == self.live(),
                        it.seq().unref().no_duplicates(),
                        !(mode is Direct),
                        skip == match mode {
                            SendMode::BroadcastExcept(x) => Some(x),
                            _ => None::<ClientId>,
                        },
                        out@.no_duplicates(),
                        forall|x: ClientId|
                            out@.contains(x) <==> (exists|j: int|
                                0 <= j < it.index() && it.seq().unref()[j] == x && Some(x)
                                    != skip),
                    ensures
                        forall|x: ClientId|
                            out@.contains(x) <==> (self.live().contains(x) && Some(x) != skip),
                {
                    let ghost before = out@;
                    let ghost k = it.index();
                    let keep = match mode {
                        SendMode::BroadcastExcept(x) => *id != x,
                        _ => true,
                    };
                    proof {
                        assert(it.seq().unref()[k] == *id);
                        assert(keep <==> Some(*id) != skip);
                    }
                    if keep {
                        proof {
                            if before.contains(*id) {
                                let j = choose|j: int|
                                    0 <= j < k && it.seq().unref()[j] == *id && Some(*id) != skip;
                                assert(it.seq().unref()[j] == it.seq().unref()[k]);
                            }
                        }
                        out.push(*id);
                    }
                    proof {
                        assert forall|x: ClientId|
                            out@.contains(x) <==> (exists|j: int|
                                0 <= j < k + 1 && it.seq().unref()[j] == x && Some(x) != skip) by {
                            if out@.contains(x) && !before.contains(x) {
                                assert(x == *id);
                                assert(it.seq().unref()[k] == x);
                            }
                            if (exists|j: int|
                                0 <= j < k + 1 && it.seq().unref()[j] == x && Some(x) != skip) {
                                let j = choose|j: int|
                                    0 <= j < k + 1 && it.seq().unref()[j] == x && Some(x) != skip;
                                if j < k {
                                    assert(before.contains(x));
                                    let i = choose|i: int| 0 <= i < before.len() && before[i] == x;
                                    assert(out@[i] == x);
                                } else {
                                    assert(out@.last() == x);
                                }
                            }
                        }
                    }
                }
                proof {
                    assert(out@.to_set() =~= targets_of(self.live(), mode));
                }
            },
        }
        out
    }
}

/// A server message may be applied by a client that has acknowledged `acked`:
/// it carries no tick, or its tick is not later than `acked`.
pub open spec fn msg_ready(m: ServerMsg, acked: u32) -> bool {
    match m.tick {
        Some(t) => tick_ready(t.0, acked),
        None => true,
    }
}

/// The messages of `s` that may be applied, in order.
pub open spec fn ready_part(s: Seq<ServerMsg>, acked: u32) -> Seq<ServerMsg>
    decreases s.len(),
{
    if s.len() == 0 {
        s
    } else if msg_ready(s.last(), acked) {
        ready_part(s.drop_last(), acked).push(s.last())
    } else {
        ready_part(s.drop_last(), acked)
    }
}

/// The messages of `s` that must wait for a later acknowledgement, in order.
pub open spec fn waiting_part(s: Seq<ServerMsg>, acked: u32) -> Seq<ServerMsg>
    decreases s.len(),
{
    if s.len() == 0 {
        s
    } else if msg_ready(s.last(), acked) {
        waiting_part(s.drop_last(), acked)
    } else {
        waiting_part(s.drop_last(), acked).push(s.last())
    }
}

proof fn lemma_parts_contain(s: Seq<ServerMsg>, acked: u32, m: ServerMsg)
    ensures
        ready_part(s, acked).contains(m) <==> (s.contains(m) && msg_ready(m, acked)),
        waiting_part(s, acked).contains(m) <==> (s.contains(m) && !msg_ready(m, acked)),
    decreases s.len(),
{
    if s.len() > 0 {
        let p = s.drop_last();
        lemma_parts_contain(p, acked, m);
        assert(s =~= p.push(s.last()));
        if p.contains(m) {
            let i = choose|i: int| 0 <= i < p.len() && p[i] == m;
            assert(s[i] == m);
        }
        if s.contains(m) && s.last() != m {
            let i = choose|i: int| 0 <= i < s.len() && s[i] == m;
            assert(p[i] == m);
        }
        let r = ready_part(p, acked);
        let w = waiting_part(p, acked);
        if r.contains(m) {
            let i = choose|i: int| 0 <= i < r.len() && r[i] == m;
            assert(r.push(s.last())[i] == m);
        }
        if w.contains(m) {
            let i = choose|i: int| 0 <= i < w.len() && w[i] == m;
            assert(w.push(s.last())[i] == m);
        }
        if r.push(s.last()).contains(m) && s.last() != m {
            let i = choose|i: int| 0 <= i < r.len() + 1 && r.push(s.last())[i] == m;
            assert(r[i] == m);
        }
        if w.push(s.last()).contains(m) && s.last() != m {
            let i = choose|i: int| 0 <= i < w.len() + 1 && w.push(s.last())[i] == m;
            assert(w[i] == m);
        }
        assert(r.push(s.last())[r.len() as int] == s.last());
        assert(w.push(s.last())[w.len() as int] == s.last());
    }
}

/// Tick gating of server events: for ticks `t1 < t2 < t3`, a queued message
/// stamped `t2` is withheld, and kept queued, while the client has acknowledged
/// `t1`, and is handed out once it has acknowledged `t2` or `t3`. (Ticks exactly
/// half of the range apart are incomparable and left out.)
pub proof fn lemma_server_event_gating(pending: Seq<ServerMsg>, m: ServerMsg, t1: u32, t2: u32, t3: u32)
    requires
        pending.contains(m),
        m.tick == Some(RepliconTick(t2)),
        tick_before(t1, t2),
        tick_before(t2, t3),
        wrapping_diff(t2, t1) != HALF_RANGE + 1,
    ensures
        !ready_part(pending, t1).contains(m),
        waiting_part(pending, t1).contains(m),
        ready_part(pending, t2).contains(m),
        ready_part(pending, t3).contains(m),
{
    lemma_event_gating(t1, t2, t3);
    lemma_parts_contain(pending, t1, m);
    lemma_parts_contain(pending, t2, m);
    lemma_parts_contain(pending, t3, m);
}

/// Client-side session state: per-channel inboxes of messages from the server,
/// in order of arrival.
#[derive(Debug)]
pub struct ClientSn {
    pub message_channel_buckets: HashMap<ChannelId, Vec<ServerMsg>>,
}

impl ClientSn {
    /// Messages waiting on channel `c`, oldest first.
    pub open spec fn pending(&self, c: ChannelId) -> Seq<ServerMsg> {
        if self.message_channel_buckets@.contains_key(c) {
            self.message_channel_buckets@[c]@
        } else {
            Seq::empty()
        }
    }

    pub fn new() -> (r: Self)
        ensures
            forall|c: ChannelId| r.pending(c) == Seq::<ServerMsg>::empty(),
    {
        ClientSn { message_channel_buckets: HashMap::new() }
    }

    /// Appends a message from the server to the inbox of its channel.
    pub fn bucket_inbound(&mut self, msg: ServerMsg)
        ensures
            final(self).pending(msg.channel_id) == old(self).pending(msg.channel_id).push(msg),
            forall|c: ChannelId| c != msg.channel_id ==> final(self).pending(c) == old(self).pending(c),
    {
        let c = msg.channel_id;
        let mut bucket = match self.message_channel_buckets.remove(&c) {
            Some(b) => b,
            None => Vec::new(),
        };
        bucket.push(msg);
        self.message_channel_buckets.insert(c, bucket);
    }

    /// Takes every message waiting on channel `c`, oldest first, and leaves its
    /// inbox empty.
    pub fn drain_bucket(&mut self, c: ChannelId) -> (r: Vec<ServerMsg>)
        ensures
            r@ == old(self).pending(c),
            final(self).pending(c) == Seq::<ServerMsg>::empty(),
            forall|d: ChannelId| d != c ==> final(self).pending(d) == old(self).pending(d),
    {
        match self.message_channel_buckets.remove(&c) {
            Some(b) => {
                self.message_channel_buckets.insert(c, Vec::new());
                b
            },
            None => Vec::new(),
        }
    }

    /// Takes the messages of channel `c` that the acknowledged tick `last`
    /// allows, oldest first; the others stay queued, in order, for a later cycle.
    pub fn take_ready(&mut self, c: ChannelId, last: &LastRepliconTick) -> (r: Vec<ServerMsg>)
        ensures
            r@ == ready_part(old(self).pending(c), last.0.0),
            final(self).pending(c) == waiting_part(old(self).pending(c), last.0.0),
            forall|d: ChannelId| d != c ==> final(self).pending(d) == old(self).pending(d),
    {
        let drained = self.drain_bucket(c);
        let ghost all = drained@;
        let acked = last.0.0;
        let mut ready: Vec<ServerMsg> = Vec::new();
        let mut waiting: Vec<ServerMsg> = Vec::new();
        for m in it: drained
            invariant
                it.seq() == all,
                acked == last.0.0,
                ready@ == ready_part(all.take(it.index()), acked),
                waiting@ == waiting_part(all.take(it.index()), acked),
        {
            let ghost k = it.index();
            proof {
                assert(all.take(k + 1).drop_last() =~= all.take(k));
                assert(all.take(k + 1).last() == m);
            }
            let ok = match m.tick {
                Some(t) => last.is_ready(t),
                None => true,
            };
            proof {
                assert(ok == msg_ready(m, acked));
            }
            if ok {
                ready.push(m);
            } else {
                waiting.push(m);
            }
            proof {
                assert(ready@ == ready_part(all.take(k + 1), acked));
                assert(waiting@ == waiting_part(all.take(k + 1), acked));
            }
        }
        proof {
            assert(all.take(all.len() as int) =~= all);
        }
        self.message_channel_buckets.insert(c, waiting);
        ready
    }
}

/// Whether this process holds authority: it does unless it runs as a client
/// of a remote server (a server, or a single process in solo play).
pub fn has_authority(client: Option<&ClientSn>) -> (r: bool)
    ensures
        r == client is None,
{
    client.is_none()
}

/// Builds the messages that send `message` on `channel_id` to every connection
/// that `mode` addresses, stamped with `tick`; the server never sends to itself.
pub fn send_server_event(
    server: &ServerSn,
    channel_id: ChannelId,
    mode: SendMode,
    tick: Option<RepliconTick>,
    message: &Vec<u8>,
) -> (r: Vec<(ClientId, ServerMsg)>)
    ensures
        r@.map_values(|p: (ClientId, ServerMsg)| p.0).to_set() == targets_of(server.live(), mode),
        r@.map_values(|p: (ClientId, ServerMsg)| p.0).no_duplicates(),
        forall|i: int|
            0 <= i < r@.len() ==> (#[trigger] r@[i]).1.channel_id == channel_id && r@[i].1.tick
                == tick && r@[i].1.event@ == message@,
{
    let ids = server.targets(mode);
    let mut out: Vec<(ClientId, ServerMsg)> = Vec::new();
    let mut i: usize = 0;
    while i < ids.len()
        invariant
            i <= ids.len(),
            out@.len() == i,
            forall|j: int| 0 <= j < i ==> (#[trigger] out@[j]).0 == ids@[j],
            forall|j: int|
                0 <= j < i ==> (#[trigger] out@[j]).1.channel_id == channel_id && out@[j].1.tick
                    == tick && out@[j].1.event@ == message@,
        decreases ids.len() - i,
    {
        out.push((ids[i], ServerMsg { channel_id, tick, event: message.clone() }));
        i = i + 1;
    }
    proof {
        assert(out@.map_values(|p: (ClientId, ServerMsg)| p.0) =~= ids@);
    }
    out
}

} // verus!
