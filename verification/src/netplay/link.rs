//! A simulated link between two endpoints: packets wait in a queue until they are due.
//! Latency, jitter and loss are the host's to choose; times are in microseconds.

use crate::text::{decimal, push_decimal};
use vstd::prelude::*;

verus! {

/// Address of an endpoint.
#[derive(Clone, Copy, Debug, PartialEq, Eq, Hash, Structural)]
pub struct SimAddr(pub u8);

impl SimAddr {
    /// The address as text.
    pub fn name(&self) -> (r: String)
        ensures
            r@ == "sim:"@ + decimal(self.0 as nat),
    {
        let mut s = String::from_str("sim:");
        push_decimal(&mut s, self.0 as u64);
        s
    }
}

/// A packet on its way.
pub struct SimPacket<T> {
    pub from: SimAddr,
    pub to: SimAddr,
    pub msg: T,
    pub deliver_at: u64,
}

/// A packet has reached an endpoint.
pub open spec fn is_due<T>(p: SimPacket<T>, to: SimAddr, now: u64) -> bool {
    p.to == to && p.deliver_at <= now
}

/// What an endpoint receives of some packets, in the order of sending.
pub open spec fn received<T>(packets: Seq<SimPacket<T>>, to: SimAddr, now: u64) -> Seq<(SimAddr, T)>
    decreases packets.len(),
{
    if packets.len() == 0 {
        Seq::empty()
    } else {
        let before = received(packets.drop_last(), to, now);
        let p = packets.last();
        if is_due(p, to, now) { before.push((p.from, p.msg)) } else { before }
    }
}

/// What stays on its way.
pub open spec fn left_in_flight<T>(packets: Seq<SimPacket<T>>, to: SimAddr, now: u64) -> Seq<SimPacket<T>>
    decreases packets.len(),
{
    if packets.len() == 0 {
        Seq::empty()
    } else {
        let before = left_in_flight(packets.drop_last(), to, now);
        let p = packets.last();
        if is_due(p, to, now) { before } else { before.push(p) }
    }
}

/// The packets between the endpoints.
pub struct LinkQueue<T> {
    packets: Vec<SimPacket<T>>,
}

impl<T> View for LinkQueue<T> {
    type V = Seq<SimPacket<T>>;

    closed spec fn view(&self) -> Seq<SimPacket<T>> {
        self.packets@
    }
}

impl<T> LinkQueue<T> {
    pub fn new() -> (r: Self)
        ensures
            r@ == Seq::<SimPacket<T>>::empty(),
    {
        LinkQueue { packets: Vec::new() }
    }

    /// Packets on their way.
    pub fn packets_in_flight(&self) -> (r: usize)
        ensures
            r == self@.len(),
    {
        self.packets.len()
    }

    /// Send a packet that is due at `deliver_at`.
    pub fn send(&mut self, from: SimAddr, to: SimAddr, msg: T, deliver_at: u64)
        ensures
            final(self)@ == old(self)@.push(SimPacket { from, to, msg, deliver_at }),
    {
        self.packets.push(SimPacket { from, to, msg, deliver_at });
    }

    /// Take what has reached an endpoint.
    pub fn receive(&mut self, to: SimAddr, now: u64) -> (r: Vec<(SimAddr, T)>)
        ensures
            r@ == received(old(self)@, to, now),
            final(self)@ == left_in_flight(old(self)@, to, now),
    {
        let ghost all = self.packets@;
        let total: usize = self.packets.len();
        let mut out: Vec<(SimAddr, T)> = Vec::new();
        let mut i: usize = 0;
        let mut seen: usize = 0;
        assert(all.take(0) =~= Seq::<SimPacket<T>>::empty());
        assert(all.skip(0) =~= all);
        assert(left_in_flight(all.take(0), to, now) + all.skip(0) =~= all);
        while seen < total
            invariant
                i <= seen <= total,
                total == all.len(),
                i == left_in_flight(all.take(seen as int), to, now).len(),
                self.packets@ == left_in_flight(all.take(seen as int), to, now) + all.skip(seen as int),
                out@ == received(all.take(seen as int), to, now),
            decreases total - seen,
        {
            let ghost head = left_in_flight(all.take(seen as int), to, now);
            let ghost rest = all.skip(seen as int);
            assert(all.take(seen + 1).drop_last() =~= all.take(seen as int));
            assert(all.take(seen + 1).last() == all[seen as int]);
            assert(self.packets@[i as int] == all[seen as int]);
            let due = self.packets[i].to == to && self.packets[i].deliver_at <= now;
            if due {
                let p = self.packets.remove(i);
                out.push((p.from, p.msg));
                assert(self.packets@ =~= head + all.skip(seen + 1));
            } else {
                i = i + 1;
                assert(head + rest =~= head.push(all[seen as int]) + all.skip(seen + 1));
            }
            seen = seen + 1;
        }
        assert(all.take(total as int) =~= all);
        assert(left_in_flight(all, to, now) + all.skip(total as int) =~= left_in_flight(all, to, now));
        out
    }
}

// ── Laws ─────────────────────────────────────────────────────────────────────

/// Nothing is delivered early, to the wrong endpoint or twice: what stays is exactly what is
/// not due, so that receiving again at the same time gives nothing.
pub proof fn packets_arrive_once<T>(packets: Seq<SimPacket<T>>, to: SimAddr, now: u64)
    ensures
        forall|i: int|
            0 <= i < left_in_flight(packets, to, now).len() ==> !is_due(
                #[trigger] left_in_flight(packets, to, now)[i],
                to,
                now,
            ),
        received(packets, to, now).len() + left_in_flight(packets, to, now).len() == packets.len(),
        received(left_in_flight(packets, to, now), to, now).len() == 0,
    decreases packets.len(),
{
    if packets.len() > 0 {
        packets_arrive_once(packets.drop_last(), to, now);
        let before = left_in_flight(packets.drop_last(), to, now);
        if !is_due(packets.last(), to, now) {
            assert(before.push(packets.last()).drop_last() =~= before);
        }
    }
}

/// A packet arrives when its time has come and not before, at its own endpoint; packets arrive with
/// their sender, in the order of sending.
pub proof fn packets_arrive_in_time_and_order<T>(packets: Seq<SimPacket<T>>, to: SimAddr, now: u64, i: int)
    requires
        0 <= i < packets.len(),
    ensures
        (forall|k: int| 0 <= k < packets.len() ==> (#[trigger] packets[k]).to == to && packets[k].deliver_at <= now)
            ==> received(packets, to, now).len() == packets.len() && received(packets, to, now)[i] == (
            packets[i].from,
            packets[i].msg,
        ),
        (forall|k: int| 0 <= k < packets.len() ==> (#[trigger] packets[k]).to != to || packets[k].deliver_at > now)
            ==> received(packets, to, now).len() == 0,
    decreases packets.len(),
{
    let head = packets.drop_last();
    assert(head.len() == 0 ==> received(head, to, now) =~= Seq::empty());
    assert(forall|k: int| 0 <= k < head.len() ==> #[trigger] head[k] == packets[k]);
    assert(packets.last() == packets[packets.len() - 1]);
    if head.len() > 0 {
        packets_arrive_in_time_and_order(head, to, now, if i < head.len() { i } else { 0 });
    }
}

} // verus!
