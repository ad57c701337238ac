use vstd::prelude::*;

verus! {

/// Identity of a channel, unique within one direction.
pub type ChannelId = u8;

/// Identity of a peer connection.
pub type ClientId = u128;

/// The reserved connection id that names the authority itself.
pub const SERVER_ID: ClientId = 0;

/// The direction a channel carries events in. Each direction has its own
/// namespace of channel ids.
#[derive(Clone, Copy, Debug, PartialEq, Eq, Hash, Structural)]
pub enum Direction {
    ClientToServer,
    ServerToClient,
}

/// Number of entries of `dirs` equal to `d`.
pub open spec fn count_of(dirs: Seq<Direction>, d: Direction) -> nat
    decreases dirs.len(),
{
    if dirs.len() == 0 {
        0
    } else {
        count_of(dirs.drop_last(), d) + if dirs.last() == d {
            1nat
        } else {
            0nat
        }
    }
}

/// Allocates channel ids, separately for client and server channels.
///
/// Each counter holds the last id handed out in its direction (0: none yet).
#[derive(Clone, Copy, Debug)]
pub struct ChannelManager {
    pub server: u8,
    pub client: u8,
}

/// The ids that registering channels for `dirs`, in order, hands out when
/// starting from the counters of `m`: the `i`-th gets its direction's counter
/// plus the number of registrations in that direction up to and including it.
pub open spec fn channel_ids(m: ChannelManager, dirs: Seq<Direction>) -> Seq<u8> {
    Seq::new(
        dirs.len(),
        |i: int| (m.counter(dirs[i]) + count_of(dirs.take(i + 1), dirs[i])) as u8,
    )
}

impl Default for ChannelManager {
    fn default() -> (r: Self)
        ensures
            r.server == 0,
            r.client == 0,
    {
        ChannelManager { server: 0, client: 0 }
    }
}

impl ChannelManager {
    /// The last id handed out in direction `d`.
    pub open spec fn counter(&self, d: Direction) -> u8 {
        match d {
            Direction::ClientToServer => self.client,
            Direction::ServerToClient => self.server,
        }
    }

    /// Allocates the next client channel id. The id space must not be exhausted.
    pub fn create_client_channel(&mut self) -> (id: ChannelId)
        requires
            old(self).client < u8::MAX,
        ensures
            final(self).client == old(self).client + 1,
            final(self).server == old(self).server,
            id == final(self).client,
    {
        self.client = self.client + 1;
        self.client
    }

    /// Allocates the next server channel id. The id space must not be exhausted.
    pub fn create_server_channel(&mut self) -> (id: ChannelId)
        requires
            old(self).server < u8::MAX,
        ensures
            final(self).server == old(self).server + 1,
            final(self).client == old(self).client,
            id == final(self).server,
    {
        self.server = self.server + 1;
        self.server
    }

    /// Allocates the next channel id of direction `d`.
    pub fn create_channel(&mut self, d: Direction) -> (id: ChannelId)
        requires
            old(self).counter(d) < u8::MAX,
        ensures
            final(self).counter(d) == old(self).counter(d) + 1,
            forall|e: Direction| e != d ==> final(self).counter(e) == old(self).counter(e),
            id == final(self).counter(d),
    {
        match d {
            Direction::ClientToServer => self.create_client_channel(),
            Direction::ServerToClient => self.create_server_channel(),
        }
    }

    /// Registers one channel per entry of `dirs`, in order, and returns their ids.
    pub fn create_channels(&mut self, dirs: &Vec<Direction>) -> (ids: Vec<ChannelId>)
        requires
            forall|d: Direction| old(self).counter(d) + count_of(dirs@, d) <= u8::MAX,
        ensures
            ids@ == channel_ids(*old(self), dirs@),
            forall|d: Direction| final(self).counter(d) == old(self).counter(d) + count_of(dirs@, d),
    {
        let ghost start = *self;
        let mut ids: Vec<ChannelId> = Vec::new();
        let mut i: usize = 0;
        while i < dirs.len()
            invariant
                i <= dirs.len(),
                forall|d: Direction| start.counter(d) + count_of(dirs@, d) <= u8::MAX,
                forall|d: Direction| self.counter(d) == start.counter(d) + count_of(dirs@.take(i as int), d),
                ids@ == channel_ids(start, dirs@.take(i as int)),
            decreases dirs.len() - i,
        {
            let d = dirs[i];
            proof {
                assert(dirs@.take(i as int + 1).drop_last() == dirs@.take(i as int));
                lemma_count_of_prefix(dirs@, i as int + 1, d);
            }
            let id = self.create_channel(d);
            ids.push(id);
            i = i + 1;
            proof {
                assert(dirs@.take(i as int).drop_last() == dirs@.take(i as int - 1));
                assert(ids@ =~= channel_ids(start, dirs@.take(i as int))) by {
                    assert forall|k: int| 0 <= k < i as int implies
                        #[trigger] dirs@.take(i as int).take(k + 1) == dirs@.take(k + 1) by {
                        assert(dirs@.take(i as int).take(k + 1) =~= dirs@.take(k + 1));
                    }
                    assert forall|k: int| 0 <= k < i as int - 1 implies
                        #[trigger] dirs@.take(i as int - 1).take(k + 1) == dirs@.take(k + 1) by {
                        assert(dirs@.take(i as int - 1).take(k + 1) =~= dirs@.take(k + 1));
                    }
                }
            }
        }
        assert(dirs@.take(dirs.len() as int) =~= dirs@);
        ids
    }
}

/// A count over a prefix never exceeds the count over the whole sequence.
proof fn lemma_count_of_prefix(dirs: Seq<Direction>, n: int, d: Direction)
    requires
        0 <= n <= dirs.len(),
    ensures
        count_of(dirs.take(n), d) <= count_of(dirs, d),
    decreases dirs.len(),
{
    if n < dirs.len() {
        assert(dirs.drop_last().take(n) =~= dirs.take(n));
        lemma_count_of_prefix(dirs.drop_last(), n, d);
    } else {
        assert(dirs.take(n) =~= dirs);
    }
}

/// A later prefix counts at least one more of the direction that ends it.
proof fn lemma_count_of_grows(dirs: Seq<Direction>, i: int, j: int)
    requires
        0 <= i < j < dirs.len(),
        dirs[i] == dirs[j],
    ensures
        count_of(dirs.take(i + 1), dirs[i]) < count_of(dirs.take(j + 1), dirs[j]),
    decreases j - i,
{
    assert(dirs.take(j + 1).drop_last() =~= dirs.take(j));
    if i < j - 1 {
        if dirs[j - 1] == dirs[i] {
            lemma_count_of_grows(dirs, i, j - 1);
        } else {
            lemma_count_of_prefix(dirs.take(j), i + 1, dirs[i]);
            assert(dirs.take(j).take(i + 1) =~= dirs.take(i + 1));
        }
    }
}

/// Channel allocation is deterministic and stable: two managers that start from
/// the same counters (two fresh processes, say) give identical ids to the same
/// sequence of registrations, every id is at least 1, and within one direction
/// a later registration always gets a larger id.
pub proof fn lemma_allocation_deterministic(
    m1: ChannelManager,
    m2: ChannelManager,
    dirs: Seq<Direction>,
)
    requires
        m1.server == m2.server,
        m1.client == m2.client,
        forall|d: Direction| m1.counter(d) + count_of(dirs, d) <= u8::MAX,
    ensures
        channel_ids(m1, dirs) == channel_ids(m2, dirs),
        forall|i: int| 0 <= i < dirs.len() ==> channel_ids(m1, dirs)[i] >= 1,
        forall|i: int, j: int|
            0 <= i < j < dirs.len() && dirs[i] == dirs[j] ==> channel_ids(m1, dirs)[i]
                < channel_ids(m1, dirs)[j],
{
    assert(channel_ids(m1, dirs) =~= channel_ids(m2, dirs));
    assert forall|i: int| 0 <= i < dirs.len() implies channel_ids(m1, dirs)[i] >= 1 by {
        assert(dirs.take(i + 1).drop_last() =~= dirs.take(i));
        lemma_count_of_prefix(dirs, i + 1, dirs[i]);
    }
    assert forall|i: int, j: int|
        0 <= i < j < dirs.len() && dirs[i] == dirs[j] implies channel_ids(m1, dirs)[i]
            < channel_ids(m1, dirs)[j] by {
        lemma_count_of_grows(dirs, i, j);
        lemma_count_of_prefix(dirs, j + 1, dirs[j]);
    }
}

/// Binds a payload type to the id of its channel.
#[derive(Debug)]
pub struct EventChannel<T> {
    pub channel_id: ChannelId,
    pub marker: core::marker::PhantomData<T>,
}

impl<T> EventChannel<T> {
    pub fn new(channel_id: ChannelId) -> (r: Self)
        ensures
            r.channel_id == channel_id,
    {
        EventChannel { channel_id, marker: core::marker::PhantomData }
    }
}

/// Registers a client-to-server event type: allocates its channel id.
pub fn add_client_event<T>(manager: &mut ChannelManager) -> (r: EventChannel<T>)
    requires
        old(manager).client < u8::MAX,
    ensures
        final(manager).client == old(manager).client + 1,
        final(manager).server == old(manager).server,
        r.channel_id == final(manager).client,
{
    EventChannel::new(manager.create_client_channel())
}

/// Registers a server-to-client event type: allocates its channel id.
pub fn add_server_event<T>(manager: &mut ChannelManager) -> (r: EventChannel<T>)
    requires
        old(manager).server < u8::MAX,
    ensures
        final(manager).server == old(manager).server + 1,
        final(manager).client == old(manager).client,
        r.channel_id == final(manager).server,
{
    EventChannel::new(manager.create_server_channel())
}

/// Stages of the server's update cycle.
#[derive(Clone, Copy, Debug, PartialEq, Eq, Hash, Structural)]
pub enum ServerSet {
    /// Polls the transport and buckets what arrived.
    PreRecieve,
    /// Drains the buckets and raises received events.
    Receive,
    /// Sends the events raised during the cycle.
    Send,
}

/// Stages of a client's update cycle.
#[derive(Clone, Copy, Debug, PartialEq, Eq, Hash, Structural)]
pub enum ClientSet {
    /// Polls the transport and buckets what arrived.
    PreReceive,
    /// Drains the buckets and raises received events.
    Receive,
    /// Sends the events raised during the cycle.
    Send,
}

} // verus!
