//! Pacing of the host's main loop: when the next frame is due, and how often the network is
//! served before it.  Times are in nanoseconds.

use vstd::prelude::*;

verus! {

/// Network rounds per displayed frame while the peers are still synchronising.
pub const SYNC_ROUNDS: u32 = 16;

/// When frames are due.
pub struct Pacer {
    pub frame_time: u64,
    /// The next frame is due then.
    pub next: u64,
}

/// The deadline after the one at `next`, with the time read again after waiting: one frame
/// later, or a frame from now where the loop has fallen behind by more than a frame.
pub open spec fn next_deadline(next: int, frame_time: int, now: int) -> int {
    if now > next + 2 * frame_time { now + frame_time } else { next + frame_time }
}

impl Pacer {
    /// Two frames after the one that is due, and a frame from now, are still times.
    pub open spec fn in_range(&self, now: u64) -> bool {
        &&& self.next + 2 * self.frame_time <= u64::MAX
        &&& now + self.frame_time <= u64::MAX
    }

    /// Whether the next [`Pacer::advance`] at `now` stays within the clock's range.
    pub fn can_advance(&self, now: u64) -> (r: bool)
        ensures
            r == self.in_range(now),
    {
        match self.next.checked_add(self.frame_time) {
            Some(due) => due.checked_add(self.frame_time).is_some() && now.checked_add(
                self.frame_time,
            ).is_some(),
            None => false,
        }
    }

    /// The first frame is due one frame time from now.
    pub fn new(frame_time: u64, now: u64) -> (r: Self)
        requires
            now + frame_time <= u64::MAX,
        ensures
            r.frame_time == frame_time,
            r.next == now + frame_time,
    {
        Pacer { frame_time, next: now + frame_time }
    }

    /// How long to wait for the frame that is due.
    pub fn wait(&self, now: u64) -> (r: u64)
        ensures
            r == (if now < self.next { self.next - now } else { 0 }),
    {
        if now < self.next { self.next - now } else { 0 }
    }

    /// The frame was shown; `now` is the time after the wait.
    pub fn advance(&mut self, now: u64)
        requires
            old(self).in_range(now),
        ensures
            final(self).frame_time == old(self).frame_time,
            final(self).next == next_deadline(old(self).next as int, old(self).frame_time as int, now as int),
    {
        self.next = self.next + self.frame_time;
        if now > self.next + self.frame_time {
            self.next = now + self.frame_time;
        }
    }

    /// Nothing was paced: the next frame is due one frame time from now.
    pub fn restart(&mut self, now: u64)
        requires
            now + old(self).frame_time <= u64::MAX,
        ensures
            final(self).frame_time == old(self).frame_time,
            final(self).next == now + old(self).frame_time,
    {
        self.next = now + self.frame_time;
    }
}

/// How often the network is served for one displayed frame: often while the peers
/// synchronise, once when the game runs.
pub fn rounds(video_ready: bool) -> (r: u32)
    ensures
        r == (if video_ready { 1 } else { SYNC_ROUNDS }),
{
    if video_ready { 1 } else { SYNC_ROUNDS }
}

/// Whether the network is served once more for this frame, after `served` of `total` rounds: a
/// frame that was shown or a session that failed ends them.
pub fn another_round(served: u32, total: u32, shown: bool, failed: bool) -> (r: bool)
    ensures
        r == (served < total && !shown && !failed),
{
    served < total && !shown && !failed
}

/// What was heard on the socket while waiting for a peer.
pub enum Heard {
    /// A packet came; its sender is the peer.
    Packet,
    Nothing,
    /// The socket failed.
    Failure(String),
}

/// How the wait for a peer goes on.
pub enum PeerWait {
    /// The sender of the packet is the peer.
    Found,
    /// Sleep a millisecond and look again.
    Sleep,
    /// Give up with this message.
    Stop(String),
}

/// Whether the player left while waiting for a peer, and the message for it.
pub fn left_waiting(running: bool, quit: bool) -> (r: Option<String>)
    ensures
        r is Some <==> !running || quit,
        r matches Some(m) ==> m@ == "quit while waiting for joiner"@,
{
    if !running || quit { Some(String::from_str("quit while waiting for joiner")) } else { None }
}

/// How the wait for a peer goes on after the socket was read.
pub fn after_listening(heard: Heard) -> (r: PeerWait)
    ensures
        match heard {
            Heard::Packet => r is Found,
            Heard::Nothing => r is Sleep,
            Heard::Failure(e) => r matches PeerWait::Stop(m) && m@
                == "UDP recv while waiting for joiner: "@ + e@,
        },
{
    match heard {
        Heard::Packet => PeerWait::Found,
        Heard::Nothing => PeerWait::Sleep,
        Heard::Failure(e) => {
            let mut m = String::from_str("UDP recv while waiting for joiner: ");
            m.append(e.as_str());
            PeerWait::Stop(m)
        },
    }
}

/// A loop that keeps up drifts by nothing: its deadlines are whole frame times apart.  One
/// that fell behind is due at most a frame from now.
pub proof fn deadlines_keep_step(next: int, frame_time: int, now: int)
    requires
        frame_time >= 0,
    ensures
        now <= next + 2 * frame_time ==> next_deadline(next, frame_time, now) == next + frame_time,
        now > next + 2 * frame_time ==> next_deadline(next, frame_time, now) - now == frame_time,
        next_deadline(next, frame_time, now) >= next + frame_time,
{
}

} // verus!
