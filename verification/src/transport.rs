//! The rules of the link between the host and its clients: the two tokens
//! that open a session and keep it alive, the count of missed heartbeats
//! that ends one, the sequence numbers of a session's frames, and the two
//! time limits that a client puts on the host.

use crate::packets::{frame, EncodePacket, SyncPacket};
use vstd::prelude::*;

verus! {

/// Number of heartbeat intervals in a row without a heartbeat that end a session.
pub const MAX_MISSED_HEARTBEATS: u8 = 3;

/// Seconds that the host waits for a heartbeat before it counts one as missed.
pub const HEARTBEAT_WAIT_SECS: u64 = 1;

/// Milliseconds between two heartbeats of a client.
pub const KEEP_ALIVE_INTERVAL_MILLIS: u64 = 500;

/// Seconds within which the first datagram of the host must arrive.
pub const CONNECT_WINDOW_SECS: u64 = 5;

/// Seconds without a datagram after which a client gives the host up.
pub const READ_WINDOW_SECS: u64 = 1;

/// Milliseconds that a client sleeps when no datagram is waiting.
pub const POLL_SLEEP_MILLIS: u64 = 5;

/// The token by which a client asks for a session.
pub open spec fn memory_magic() -> Seq<u8> {
    seq![7u8, 2, 6, 2, 2, 5, 4, 4]
}

/// The token by which a client says that it is still there.
pub open spec fn keep_alive_magic() -> Seq<u8> {
    seq![123u8, 157, 225, 223, 116, 254, 178, 126]
}

/// The token by which a client asks for a session.
pub fn memory_magic_bytes() -> (token: [u8; 8])
    ensures
        token@ == memory_magic(),
{
    let token: [u8; 8] = [7, 2, 6, 2, 2, 5, 4, 4];
    assert(token@ =~= memory_magic());
    token
}

/// The token by which a client says that it is still there.
pub fn keep_alive_magic_bytes() -> (token: [u8; 8])
    ensures
        token@ == keep_alive_magic(),
{
    let token: [u8; 8] = [123, 157, 225, 223, 116, 254, 178, 126];
    assert(token@ =~= keep_alive_magic());
    token
}

/// What a datagram that reached the host is.
#[derive(Clone, Copy, Debug, PartialEq, Eq)]
pub enum Datagram {
    /// The token that asks for a session.
    Connect,
    /// The token that keeps a session alive.
    KeepAlive,
    /// Anything else.
    Other,
}

/// What the host does about a datagram.
#[derive(Clone, Copy, Debug, PartialEq, Eq)]
pub enum ServerAction {
    /// Open a session for the sender, in place of any that it has.
    Register,
    /// Tell the sender's session that a heartbeat came.
    Heartbeat,
    /// Nothing.
    Ignore,
}

/// What `bytes` is, as a spec.
pub open spec fn datagram_kind(bytes: Seq<u8>) -> Datagram {
    if bytes == memory_magic() {
        Datagram::Connect
    } else if bytes == keep_alive_magic() {
        Datagram::KeepAlive
    } else {
        Datagram::Other
    }
}

/// Whether `bytes` are exactly the eight bytes of `token`.
fn is_token(bytes: &[u8], token: &[u8; 8]) -> (same: bool)
    ensures
        same == (bytes@ == token@),
{
    if bytes.len() != 8 {
        return false;
    }
    let mut i: usize = 0;
    while i < 8
        invariant
            i <= 8,
            bytes@.len() == 8,
            forall|j: int| 0 <= j < i ==> bytes@[j] == token@[j],
        decreases 8 - i,
    {
        if bytes[i] != token[i] {
            return false;
        }
        i += 1;
    }
    assert(bytes@ =~= token@);
    true
}

/// Tells the two tokens from each other and from everything else.
pub fn classify_datagram(bytes: &[u8]) -> (kind: Datagram)
    ensures
        kind == datagram_kind(bytes@),
{
    let connect = memory_magic_bytes();
    let keep_alive = keep_alive_magic_bytes();
    if is_token(bytes, &connect) {
        Datagram::Connect
    } else if is_token(bytes, &keep_alive) {
        Datagram::KeepAlive
    } else {
        Datagram::Other
    }
}

/// What the host does about the datagram `bytes`, given whether its sender
/// has a session: the connect token opens one; the heartbeat token counts
/// for a sender that has one; all else is ignored.
pub fn on_datagram(bytes: &[u8], registered: bool) -> (action: ServerAction)
    ensures
        action == match datagram_kind(bytes@) {
            Datagram::Connect => ServerAction::Register,
            Datagram::KeepAlive => if registered {
                ServerAction::Heartbeat
            } else {
                ServerAction::Ignore
            },
            Datagram::Other => ServerAction::Ignore,
        },
{
    match classify_datagram(bytes) {
        Datagram::Connect => ServerAction::Register,
        Datagram::KeepAlive => if registered {
            ServerAction::Heartbeat
        } else {
            ServerAction::Ignore
        },
        Datagram::Other => ServerAction::Ignore,
    }
}

/// The watch that the host keeps on one session's heartbeats.
#[derive(Clone, Copy, Debug, PartialEq, Eq)]
pub struct HeartbeatMonitor {
    /// Intervals in a row that went by without a heartbeat.
    pub heartbeats_missed: u8,
}

/// The count of missed heartbeats after one more round of the watch: zero
/// where a heartbeat was waiting, one more where the interval went by
/// without one. A count that has reached the limit stays there.
pub open spec fn missed_after(missed: u8, heartbeat: bool) -> u8 {
    if missed >= MAX_MISSED_HEARTBEATS {
        MAX_MISSED_HEARTBEATS
    } else if heartbeat {
        0
    } else {
        (missed + 1) as u8
    }
}

/// The count of missed heartbeats after `rounds` rounds without a heartbeat.
pub open spec fn missed_after_silence(missed: u8, rounds: nat) -> u8
    decreases rounds,
{
    if rounds == 0 {
        missed
    } else {
        missed_after(missed_after_silence(missed, (rounds - 1) as nat), false)
    }
}

impl HeartbeatMonitor {
    /// Whether the session is to be torn down.
    pub open spec fn is_expired(&self) -> bool {
        self.heartbeats_missed >= MAX_MISSED_HEARTBEATS
    }

    /// The watch on a session that has just been opened.
    pub fn new() -> (monitor: HeartbeatMonitor)
        ensures
            monitor.heartbeats_missed == 0,
    {
        HeartbeatMonitor { heartbeats_missed: 0 }
    }

    /// One round of the watch. `heartbeat` says whether a heartbeat was
    /// waiting; where none was, an interval has gone by. Returns whether the
    /// session is to be torn down.
    pub fn observe(&mut self, heartbeat: bool) -> (expired: bool)
        ensures
            final(self).heartbeats_missed == missed_after(old(self).heartbeats_missed, heartbeat),
            expired == final(self).is_expired(),
    {
        if self.heartbeats_missed >= MAX_MISSED_HEARTBEATS {
            self.heartbeats_missed = MAX_MISSED_HEARTBEATS;
        } else if heartbeat {
            self.heartbeats_missed = 0;
        } else {
            self.heartbeats_missed = self.heartbeats_missed + 1;
        }
        self.heartbeats_missed >= MAX_MISSED_HEARTBEATS
    }
}

/// After a heartbeat, a session is torn down by the third interval in a row
/// without one: not by the first, not by the second, and no later than the
/// third, at which the count of misses is exactly three.
pub proof fn lemma_three_strikes(rounds: nat)
    ensures
        missed_after_silence(0, rounds) >= MAX_MISSED_HEARTBEATS <==> rounds >= 3,
        rounds <= 3 ==> missed_after_silence(0, rounds) == rounds,
    decreases rounds,
{
    if rounds > 0 {
        lemma_three_strikes((rounds - 1) as nat);
    }
}

/// A heartbeat at any time before the third miss starts the count again.
pub proof fn lemma_heartbeat_resets(missed: u8)
    requires
        missed < MAX_MISSED_HEARTBEATS,
    ensures
        missed_after(missed, true) == 0,
        missed_after(missed, false) == missed + 1,
        missed_after(missed, false) >= MAX_MISSED_HEARTBEATS <==> missed == 2,
{
}

/// One client's session on the host: the numbering of its frames.
#[derive(Clone, Copy, Debug, PartialEq, Eq)]
pub struct Session {
    /// The sequence number of the next frame.
    pub sync_sequence: u64,
}

impl Session {
    /// A session that has sent nothing.
    pub fn new() -> (session: Session)
        ensures
            session.sync_sequence == 0,
    {
        Session { sync_sequence: 0 }
    }

    /// The frame of `packet` under the next sequence number of this session.
    /// `None`, and nothing changes, once the numbers have run out.
    pub fn next_frame(&mut self, packet: SyncPacket) -> (out: Option<Vec<u8>>)
        ensures
            match out {
                Some(bytes) => {
                    &&& old(self).sync_sequence < u64::MAX
                    &&& bytes@ == frame(packet@, old(self).sync_sequence)
                    &&& final(self).sync_sequence == old(self).sync_sequence + 1
                },
                None => old(self).sync_sequence == u64::MAX && *final(self) == *old(self),
            },
    {
        if self.sync_sequence == u64::MAX {
            return None;
        }
        let bytes = packet.encode_packet(self.sync_sequence);
        self.sync_sequence = self.sync_sequence + 1;
        Some(bytes)
    }
}

/// What a client concludes when no datagram is waiting.
#[derive(Clone, Copy, Debug, PartialEq, Eq)]
pub enum LinkVerdict {
    /// Keep waiting.
    Wait,
    /// The host never answered.
    UnableToConnect,
    /// The host answered once and then fell silent.
    ReadTimedOut,
}

/// What a client concludes when no datagram is waiting, from whether one
/// ever came, the whole seconds since it asked for the session, and the
/// whole seconds since the last datagram.
pub fn on_idle(has_received: bool, secs_since_start: u64, secs_since_last: u64) -> (verdict:
    LinkVerdict)
    ensures
        verdict == if !has_received && secs_since_start >= CONNECT_WINDOW_SECS {
            LinkVerdict::UnableToConnect
        } else if has_received && secs_since_last >= READ_WINDOW_SECS {
            LinkVerdict::ReadTimedOut
        } else {
            LinkVerdict::Wait
        },
{
    if !has_received && secs_since_start >= CONNECT_WINDOW_SECS {
        LinkVerdict::UnableToConnect
    } else if has_received && secs_since_last >= READ_WINDOW_SECS {
        LinkVerdict::ReadTimedOut
    } else {
        LinkVerdict::Wait
    }
}

} // verus!
