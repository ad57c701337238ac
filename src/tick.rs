use vstd::prelude::*;

verus! {

/// Half of the tick space, the distance at which two ticks stop being comparable.
pub const HALF_RANGE: u32 = 2147483647;

/// `a - b`, wrapped into the range of `u32`.
pub open spec fn wrapping_diff(a: u32, b: u32) -> u32 {
    ((a as int - b as int) % 0x1_0000_0000) as u32
}

/// `a + b`, wrapped into the range of `u32`.
pub open spec fn wrapping_sum(a: u32, b: u32) -> u32 {
    ((a as int + b as int) % 0x1_0000_0000) as u32
}

/// Wraparound-aware ordering of two tick values: `a` lies before `b` when the
/// forward distance from `b` to `a` exceeds half of the integer range.
pub open spec fn tick_order(a: u32, b: u32) -> core::cmp::Ordering {
    let d = wrapping_diff(a, b);
    if d == 0 {
        core::cmp::Ordering::Equal
    } else if d > HALF_RANGE {
        core::cmp::Ordering::Less
    } else {
        core::cmp::Ordering::Greater
    }
}

/// `a` lies strictly before `b` under wraparound ordering.
pub open spec fn tick_before(a: u32, b: u32) -> bool {
    tick_order(a, b) == core::cmp::Ordering::Less
}

/// A message stamped with tick `event` may be acted on by a receiver that has
/// acknowledged tick `acked`: the stamp is not later than the acknowledgement.
pub open spec fn tick_ready(event: u32, acked: u32) -> bool {
    tick_order(event, acked) != core::cmp::Ordering::Greater
}

/// A tick that increments each time the server computes and sends an update.
#[derive(Clone, Copy, Debug, Default, PartialEq, Eq, Hash, Structural)]
pub struct RepliconTick(pub u32);

impl RepliconTick {
    pub fn new(value: u32) -> (r: Self)
        ensures
            r.0 == value,
    {
        RepliconTick(value)
    }

    /// Gets the value of this tick.
    pub fn get(self) -> (r: u32)
        ensures
            r == self.0,
    {
        self.0
    }

    /// Increments the tick by `value`, wrapping around at the end of the range.
    pub fn increment_by(&mut self, value: u32)
        ensures
            final(self).0 == wrapping_sum(old(self).0, value),
    {
        self.0 = self.0.wrapping_add(value);
    }

    /// Same as `increment_by`, but increments only by 1.
    pub fn increment(&mut self)
        ensures
            final(self).0 == wrapping_sum(old(self).0, 1),
    {
        self.increment_by(1)
    }

    /// Wraparound-aware comparison with `other`.
    pub fn compare(&self, other: &Self) -> (r: core::cmp::Ordering)
        ensures
            r == tick_order(self.0, other.0),
    {
        let difference = self.0.wrapping_sub(other.0);
        if difference == 0 {
            core::cmp::Ordering::Equal
        } else if difference > HALF_RANGE {
            core::cmp::Ordering::Less
        } else {
            core::cmp::Ordering::Greater
        }
    }
}

impl PartialOrd for RepliconTick {
    fn partial_cmp(&self, other: &Self) -> (r: Option<core::cmp::Ordering>)
        ensures
            r == Some(tick_order(self.0, other.0)),
    {
        Some(self.compare(other))
    }
}

impl vstd::std_specs::cmp::PartialOrdSpecImpl for RepliconTick {
    open spec fn obeys_partial_cmp_spec() -> bool {
        true
    }

    open spec fn partial_cmp_spec(&self, other: &Self) -> Option<core::cmp::Ordering> {
        Some(tick_order(self.0, other.0))
    }
}

/// The last tick received from the server, kept by a client.
///
/// It only moves forward under wraparound ordering: an update that is not later
/// than the stored tick is stale and leaves it as it is.
#[derive(Clone, Copy, Debug, Default)]
pub struct LastRepliconTick(pub RepliconTick);

impl LastRepliconTick {
    pub fn new(tick: RepliconTick) -> (r: Self)
        ensures
            r.0 == tick,
    {
        LastRepliconTick(tick)
    }

    /// The acknowledged tick.
    pub fn get(&self) -> (r: RepliconTick)
        ensures
            r == self.0,
    {
        self.0
    }

    /// Records the tick of an authoritative update; returns whether it advanced
    /// the acknowledged tick (`false` for a stale update).
    pub fn acknowledge(&mut self, tick: RepliconTick) -> (advanced: bool)
        ensures
            advanced == (tick_order(tick.0, old(self).0.0) == core::cmp::Ordering::Greater),
            advanced ==> final(self).0 == tick,
            !advanced ==> *final(self) == *old(self),
    {
        match tick.compare(&self.0) {
            core::cmp::Ordering::Greater => {
                self.0 = tick;
                true
            },
            _ => false,
        }
    }

    /// Whether a message stamped with `event` may be applied now.
    pub fn is_ready(&self, event: RepliconTick) -> (r: bool)
        ensures
            r == tick_ready(event.0, self.0.0),
    {
        match event.compare(&self.0) {
            core::cmp::Ordering::Greater => false,
            _ => true,
        }
    }
}

/// The lowest tick that clients must acknowledge.
///
/// A client cannot consume a server event until it has acknowledged the tick at
/// which the event was created, so once an event is sent the server keeps
/// sending updates stamped at least with this tick, even when nothing changed.
#[derive(Clone, Copy, Debug, Default)]
pub struct MinRepliconTick(pub RepliconTick);

impl MinRepliconTick {
    /// Raises the minimum to `current` when events were sent during this cycle.
    pub fn note_sent_events(&mut self, sent: usize, current: RepliconTick)
        ensures
            sent > 0 ==> final(self).0 == current,
            sent == 0 ==> *final(self) == *old(self),
    {
        if sent > 0 {
            self.0 = current;
        }
    }

    /// Whether an update must be sent to a client that acknowledged `acked`,
    /// even if no state changed: the client has not reached the minimum yet.
    pub fn must_force_send(&self, acked: RepliconTick) -> (r: bool)
        ensures
            r == !tick_ready(self.0.0, acked.0),
    {
        match self.0.compare(&acked) {
            core::cmp::Ordering::Greater => true,
            _ => false,
        }
    }
}

/// One step forward is later: the successor of every tick, the largest value
/// included (whose successor is 0), compares after it, and it before its successor.
pub proof fn lemma_successor_is_later(t: u32)
    ensures
        tick_before(t, wrapping_sum(t, 1)),
        tick_order(wrapping_sum(t, 1), t) == core::cmp::Ordering::Greater,
        wrapping_diff(wrapping_sum(t, 1), t) == 1,
{
}

/// Visibility of an authority event follows the acknowledged tick: for ticks
/// `t1 < t2 < t3`, an event stamped `t2` is withheld from a receiver that has
/// acknowledged `t1`, and is applied by one that has acknowledged `t2` or `t3`.
/// (Ticks exactly half of the range apart are incomparable and left out.)
pub proof fn lemma_event_gating(t1: u32, t2: u32, t3: u32)
    requires
        tick_before(t1, t2),
        tick_before(t2, t3),
        wrapping_diff(t2, t1) != HALF_RANGE + 1,
    ensures
        !tick_ready(t2, t1),
        tick_ready(t2, t2),
        tick_ready(t2, t3),
{
}

} // verus!
