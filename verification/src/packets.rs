//! The frames that the host sends to its clients: one byte for the kind of
//! packet, the sequence number in eight bytes, then what the kind calls for.
//! Every number is little-endian.

use crate::bytes::{
    le_bytes, le_value, lemma_le_bytes_len, lemma_le_value_of_bytes, lemma_pow256_values,
    read_u16_le, read_u32_le, read_u64_le, u16_le_bytes, u32_le_bytes, u64_le_bytes,
};
use vstd::prelude::*;
use vstd::slice::slice_subrange;
use vstd::slice::slice_to_vec;

verus! {

/// Number of bytes in front of every payload: the kind and the sequence number.
pub const HEADER_SIZE: usize = 9;

/// The identities of the three combatants that the player has targeted,
/// hovers over and has in focus; zero where there is none.
#[derive(Clone, Copy, Debug, PartialEq, Eq)]
pub struct Target {
    pub target: u64,
    pub hover_target: u64,
    pub focus_target: u64,
}

/// Offset of the targeted combatant's address in the game's target table.
pub const TARGET_AT: usize = 192;

/// Offset of the hovered combatant's address in the game's target table.
pub const HOVER_TARGET_AT: usize = 200;

/// Offset of the focused combatant's address in the game's target table.
pub const FOCUS_TARGET_AT: usize = 280;

/// The shortest prefix of the target table that holds the three addresses.
pub const TARGET_READ_SIZE: usize = 288;

impl Target {
    /// The three targets that the game's target table `b` holds.
    pub open spec fn decoded(b: Seq<u8>) -> Target {
        Target {
            target: le_value(b.subrange(TARGET_AT as int, TARGET_AT + 8)) as u64,
            hover_target: le_value(b.subrange(HOVER_TARGET_AT as int, HOVER_TARGET_AT + 8)) as u64,
            focus_target: le_value(b.subrange(FOCUS_TARGET_AT as int, FOCUS_TARGET_AT + 8)) as u64,
        }
    }

    /// Reads the three targets from the game's target table, if `data` is
    /// long enough to hold them.
    pub fn try_from_ffxiv_slice(data: &[u8]) -> (r: Option<Target>)
        ensures
            r == if data@.len() >= TARGET_READ_SIZE {
                Some(Target::decoded(data@))
            } else {
                None
            },
    {
        if data.len() < TARGET_READ_SIZE {
            return None;
        }
        Some(
            Target {
                target: read_u64_le(data, TARGET_AT),
                hover_target: read_u64_le(data, HOVER_TARGET_AT),
                focus_target: read_u64_le(data, FOCUS_TARGET_AT),
            },
        )
    }
}

/// One change of state that the host reports.
#[derive(Clone, Debug, PartialEq, Eq)]
pub enum SyncPacket {
    /// The zone that the player is in.
    ZoneID(u32),
    /// The slot, the identity and the compressed record of a combatant.
    MobUpdate(u16, u64, Vec<u8>),
    /// A slot that holds no combatant.
    MobNull(u16),
    /// The three targets.
    Target(Target),
    /// The server's clock.
    ServerTime(u64),
}

/// A packet as a mathematical value.
pub enum SyncPacketView {
    ZoneID(u32),
    MobUpdate(u16, u64, Seq<u8>),
    MobNull(u16),
    Target(Target),
    ServerTime(u64),
}

impl View for SyncPacket {
    type V = SyncPacketView;

    open spec fn view(&self) -> SyncPacketView {
        match *self {
            SyncPacket::ZoneID(zone) => SyncPacketView::ZoneID(zone),
            SyncPacket::MobUpdate(index, pointer, data) => SyncPacketView::MobUpdate(
                index,
                pointer,
                data@,
            ),
            SyncPacket::MobNull(index) => SyncPacketView::MobNull(index),
            SyncPacket::Target(target) => SyncPacketView::Target(target),
            SyncPacket::ServerTime(time) => SyncPacketView::ServerTime(time),
        }
    }
}

/// The byte that stands for the kind of a packet.
pub open spec fn packet_id(p: SyncPacketView) -> u8 {
    match p {
        SyncPacketView::ZoneID(_) => 1,
        SyncPacketView::MobUpdate(_, _, _) => 2,
        SyncPacketView::MobNull(_) => 3,
        SyncPacketView::Target(_) => 4,
        SyncPacketView::ServerTime(_) => 5,
    }
}

/// What follows the header in the frame of a packet.
pub open spec fn payload(p: SyncPacketView) -> Seq<u8> {
    match p {
        SyncPacketView::ZoneID(zone) => le_bytes(zone as nat, 4),
        SyncPacketView::MobUpdate(index, pointer, data) => le_bytes(index as nat, 2) + le_bytes(
            pointer as nat,
            8,
        ) + le_bytes(data.len(), 8) + data,
        SyncPacketView::MobNull(index) => le_bytes(index as nat, 2),
        SyncPacketView::Target(t) => le_bytes(t.target as nat, 8) + le_bytes(
            t.hover_target as nat,
            8,
        ) + le_bytes(t.focus_target as nat, 8),
        SyncPacketView::ServerTime(time) => le_bytes(time as nat, 8),
    }
}

/// The header of a frame: the kind, then the sequence number.
pub open spec fn header(id: u8, seq: u64) -> Seq<u8> {
    seq![id] + le_bytes(seq as nat, 8)
}

/// The frame of packet `p` with sequence number `seq`.
pub open spec fn frame(p: SyncPacketView, seq: u64) -> Seq<u8> {
    header(packet_id(p), seq) + payload(p)
}

/// A type that can be sent as a frame.
pub trait EncodePacket {
    /// The frame of `self` with sequence number `seq`.
    fn encode_packet(self, seq: u64) -> Vec<u8>;
}

impl EncodePacket for SyncPacket {
    fn encode_packet(self, seq: u64) -> (out: Vec<u8>)
        ensures
            out@ == frame(self@, seq),
    {
        let mut head: Vec<u8> = Vec::new();
        head.push(get_packet_id(&self));
        let mut number = u64_le_bytes(seq);
        head.append(&mut number);
        match self {
            SyncPacket::ZoneID(zone) => write_zone_packet(head, zone),
            SyncPacket::MobUpdate(index, pointer, mob_data) => write_mob_packet(
                head,
                index,
                pointer,
                mob_data,
            ),
            SyncPacket::MobNull(index) => write_mob_null_packet(head, index),
            SyncPacket::Target(target) => write_target_packet(head, target),
            SyncPacket::ServerTime(server_time) => write_server_time_packet(head, server_time),
        }
    }
}

/// The byte that stands for the kind of `packet_data`.
pub fn get_packet_id(packet_data: &SyncPacket) -> (id: u8)
    ensures
        id == packet_id(packet_data@),
{
    match packet_data {
        SyncPacket::ZoneID(_) => 1,
        SyncPacket::MobUpdate(_, _, _) => 2,
        SyncPacket::MobNull(_) => 3,
        SyncPacket::Target(_) => 4,
        SyncPacket::ServerTime(_) => 5,
    }
}

/// `header` followed by the payload of a zone packet.
pub fn write_zone_packet(header: Vec<u8>, zone_id: u32) -> (packet: Vec<u8>)
    ensures
        packet@ == header@ + payload(SyncPacketView::ZoneID(zone_id)),
{
    let mut packet = header;
    let mut field = u32_le_bytes(zone_id);
    packet.append(&mut field);
    packet
}

/// `header` followed by the payload of a server-time packet.
pub fn write_server_time_packet(header: Vec<u8>, server_time: u64) -> (packet: Vec<u8>)
    ensures
        packet@ == header@ + payload(SyncPacketView::ServerTime(server_time)),
{
    let mut packet = header;
    let mut field = u64_le_bytes(server_time);
    packet.append(&mut field);
    packet
}

/// `header` followed by the payload of a combatant packet: slot, identity,
/// length of the record, record.
pub fn write_mob_packet(header: Vec<u8>, index: u16, pointer: u64, mob_data: Vec<u8>) -> (packet:
    Vec<u8>)
    ensures
        packet@ == header@ + payload(SyncPacketView::MobUpdate(index, pointer, mob_data@)),
{
    let ghost data = mob_data@;
    let mut mob_data = mob_data;
    let mut packet = header;
    let mut slot = u16_le_bytes(index);
    let mut identity = u64_le_bytes(pointer);
    let mut length = u64_le_bytes(mob_data.len() as u64);
    packet.append(&mut slot);
    packet.append(&mut identity);
    packet.append(&mut length);
    packet.append(&mut mob_data);
    assert(packet@ =~= header@ + payload(SyncPacketView::MobUpdate(index, pointer, data)));
    packet
}

/// `header` followed by the payload of an empty-slot packet.
pub fn write_mob_null_packet(header: Vec<u8>, index: u16) -> (packet: Vec<u8>)
    ensures
        packet@ == header@ + payload(SyncPacketView::MobNull(index)),
{
    let mut packet = header;
    let mut field = u16_le_bytes(index);
    packet.append(&mut field);
    packet
}

/// `header` followed by the payload of a target packet.
pub fn write_target_packet(header: Vec<u8>, target: Target) -> (packet: Vec<u8>)
    ensures
        packet@ == header@ + payload(SyncPacketView::Target(target)),
{
    let mut packet = header;
    let mut first = u64_le_bytes(target.target);
    let mut second = u64_le_bytes(target.hover_target);
    let mut third = u64_le_bytes(target.focus_target);
    packet.append(&mut first);
    packet.append(&mut second);
    packet.append(&mut third);
    assert(packet@ =~= header@ + payload(SyncPacketView::Target(target)));
    packet
}

/// Why bytes are not a frame.
#[derive(Clone, Copy, Debug, PartialEq, Eq)]
pub enum PacketError {
    /// The bytes end before the frame does.
    Truncated,
    /// The first byte stands for no kind of packet.
    UnknownType(u8),
}

/// Whether `id` stands for a kind of packet.
pub open spec fn is_packet_id(id: u8) -> bool {
    1 <= id <= 5
}

/// The length of the frame that begins `bytes`, as far as the kind and, for
/// a combatant, the length field tell it; `None` where `bytes` end before
/// they tell. `bytes` begins with a known kind.
pub open spec fn frame_len(bytes: Seq<u8>) -> Option<int> {
    if bytes[0] == 1 {
        Some(13)
    } else if bytes[0] == 3 {
        Some(11)
    } else if bytes[0] == 4 {
        Some(33)
    } else if bytes[0] == 5 {
        Some(17)
    } else if bytes.len() < 27 {
        None
    } else {
        Some(27 + le_value(bytes.subrange(19, 27)) as int)
    }
}

/// Whether `bytes` begins with a whole frame.
pub open spec fn holds_frame(bytes: Seq<u8>) -> bool {
    &&& bytes.len() >= 1
    &&& is_packet_id(bytes[0])
    &&& frame_len(bytes) matches Some(n) && n <= bytes.len()
}

/// Why `bytes`, which begin with no whole frame, do not: their first byte
/// stands for no kind of packet, or they end too early.
pub open spec fn frame_error(bytes: Seq<u8>) -> PacketError {
    if bytes.len() >= 1 && !is_packet_id(bytes[0]) {
        PacketError::UnknownType(bytes[0])
    } else {
        PacketError::Truncated
    }
}

/// Whether `bytes` begins with the frame of `p` with sequence number `seq`.
pub open spec fn is_frame_start(bytes: Seq<u8>, p: SyncPacketView, seq: u64) -> bool {
    &&& frame(p, seq).len() <= bytes.len()
    &&& bytes.subrange(0, frame(p, seq).len() as int) == frame(p, seq)
}

/// The bytes of a number read from `bytes` at `at` are the `width` bytes there.
proof fn lemma_field_bytes(bytes: Seq<u8>, at: int, width: nat, v: nat)
    requires
        0 <= at,
        at + width <= bytes.len(),
        v == le_value(bytes.subrange(at, at + width)),
    ensures
        le_bytes(v, width) == bytes.subrange(at, at + width),
        le_bytes(v, width).len() == width,
{
    crate::bytes::lemma_le_bytes_of_value(bytes.subrange(at, at + width));
}

/// Reads the frame that `bytes` begins with: its sequence number and its
/// packet. Bytes after the frame are not looked at.
pub fn decode_packet(bytes: &[u8]) -> (r: Result<(u64, SyncPacket), PacketError>)
    ensures
        r is Ok <==> holds_frame(bytes@),
        r matches Ok((seq, p)) ==> is_frame_start(bytes@, p@, seq),
        r matches Err(e) ==> e == frame_error(bytes@),
{
    let len: usize = bytes.len();
    if len == 0 {
        return Err(PacketError::Truncated);
    }
    let id: u8 = bytes[0];
    if id < 1 || id > 5 {
        return Err(PacketError::UnknownType(id));
    }
    let fixed: usize = if id == 1 {
        13
    } else if id == 2 {
        27
    } else if id == 3 {
        11
    } else if id == 4 {
        33
    } else {
        17
    };
    if len < fixed {
        return Err(PacketError::Truncated);
    }
    let seq: u64 = read_u64_le(bytes, 1);
    proof {
        lemma_field_bytes(bytes@, 1, 8, seq as nat);
    }
    if id == 1 {
        let zone: u32 = read_u32_le(bytes, 9);
        proof {
            lemma_field_bytes(bytes@, 9, 4, zone as nat);
            assert(bytes@.subrange(0, 13) =~= frame(SyncPacketView::ZoneID(zone), seq));
        }
        Ok((seq, SyncPacket::ZoneID(zone)))
    } else if id == 2 {
        let index: u16 = read_u16_le(bytes, 9);
        let pointer: u64 = read_u64_le(bytes, 11);
        let size: u64 = read_u64_le(bytes, 19);
        if size > (len - 27) as u64 {
            return Err(PacketError::Truncated);
        }
        let end: usize = 27 + size as usize;
        let data = slice_to_vec(slice_subrange(bytes, 27, end));
        proof {
            lemma_field_bytes(bytes@, 9, 2, index as nat);
            lemma_field_bytes(bytes@, 11, 8, pointer as nat);
            lemma_field_bytes(bytes@, 19, 8, size as nat);
            assert(bytes@.subrange(0, end as int) =~= frame(
                SyncPacketView::MobUpdate(index, pointer, data@),
                seq,
            ));
        }
        Ok((seq, SyncPacket::MobUpdate(index, pointer, data)))
    } else if id == 3 {
        let index: u16 = read_u16_le(bytes, 9);
        proof {
            lemma_field_bytes(bytes@, 9, 2, index as nat);
            assert(bytes@.subrange(0, 11) =~= frame(SyncPacketView::MobNull(index), seq));
        }
        Ok((seq, SyncPacket::MobNull(index)))
    } else if id == 4 {
        let target = Target {
            target: read_u64_le(bytes, 9),
            hover_target: read_u64_le(bytes, 17),
            focus_target: read_u64_le(bytes, 25),
        };
        proof {
            lemma_field_bytes(bytes@, 9, 8, target.target as nat);
            lemma_field_bytes(bytes@, 17, 8, target.hover_target as nat);
            lemma_field_bytes(bytes@, 25, 8, target.focus_target as nat);
            assert(bytes@.subrange(0, 33) =~= frame(SyncPacketView::Target(target), seq));
        }
        Ok((seq, SyncPacket::Target(target)))
    } else {
        let time: u64 = read_u64_le(bytes, 9);
        proof {
            lemma_field_bytes(bytes@, 9, 8, time as nat);
            assert(bytes@.subrange(0, 17) =~= frame(SyncPacketView::ServerTime(time), seq));
        }
        Ok((seq, SyncPacket::ServerTime(time)))
    }
}

/// The length of a frame: header, fixed fields, and the record of a combatant.
pub proof fn lemma_frame_len(p: SyncPacketView, seq: u64)
    ensures
        frame(p, seq).len() == match p {
            SyncPacketView::ZoneID(_) => 13,
            SyncPacketView::MobUpdate(_, _, data) => 27 + data.len(),
            SyncPacketView::MobNull(_) => 11,
            SyncPacketView::Target(_) => 33,
            SyncPacketView::ServerTime(_) => 17,
        },
        frame(p, seq)[0] == packet_id(p),
        frame(p, seq).subrange(1, 9) == le_bytes(seq as nat, 8),
{
    lemma_le_bytes_len(seq as nat, 8);
    match p {
        SyncPacketView::ZoneID(zone) => {
            lemma_le_bytes_len(zone as nat, 4);
        },
        SyncPacketView::MobUpdate(index, pointer, data) => {
            lemma_le_bytes_len(index as nat, 2);
            lemma_le_bytes_len(pointer as nat, 8);
            lemma_le_bytes_len(data.len(), 8);
        },
        SyncPacketView::MobNull(index) => {
            lemma_le_bytes_len(index as nat, 2);
        },
        SyncPacketView::Target(t) => {
            lemma_le_bytes_len(t.target as nat, 8);
            lemma_le_bytes_len(t.hover_target as nat, 8);
            lemma_le_bytes_len(t.focus_target as nat, 8);
        },
        SyncPacketView::ServerTime(time) => {
            lemma_le_bytes_len(time as nat, 8);
        },
    }
    assert(frame(p, seq).subrange(1, 9) =~= le_bytes(seq as nat, 8));
}

/// Two numbers that fit in `width` bytes and have the same bytes are the same.
proof fn lemma_le_bytes_injective(a: nat, b: nat, width: nat)
    requires
        a < crate::bytes::pow256(width),
        b < crate::bytes::pow256(width),
        le_bytes(a, width) == le_bytes(b, width),
    ensures
        a == b,
{
    lemma_le_value_of_bytes(a, width);
    lemma_le_value_of_bytes(b, width);
}

/// A frame with anything after it begins with that frame and, where the
/// record of a combatant is short enough for its length to be written, is
/// decodable.
pub proof fn lemma_frame_is_decodable(p: SyncPacketView, seq: u64, tail: Seq<u8>)
    requires
        p matches SyncPacketView::MobUpdate(_, _, data) ==> data.len() <= u64::MAX,
    ensures
        is_frame_start(frame(p, seq) + tail, p, seq),
        holds_frame(frame(p, seq) + tail),
{
    let bytes = frame(p, seq) + tail;
    lemma_frame_len(p, seq);
    lemma_pow256_values();
    assert(bytes.subrange(0, frame(p, seq).len() as int) =~= frame(p, seq));
    match p {
        SyncPacketView::MobUpdate(index, pointer, data) => {
            lemma_le_bytes_len(seq as nat, 8);
            lemma_le_bytes_len(index as nat, 2);
            lemma_le_bytes_len(pointer as nat, 8);
            lemma_le_bytes_len(data.len(), 8);
            assert(bytes.subrange(19, 27) =~= le_bytes(data.len(), 8));
            lemma_le_value_of_bytes(data.len(), 8);
        },
        _ => {},
    }
}

/// Bytes begin with at most one frame: the sequence number and the packet
/// are determined by the bytes. (The record of a combatant is no longer than
/// its length field can say, as every record in memory is.)
pub proof fn lemma_frame_start_unique(
    bytes: Seq<u8>,
    p: SyncPacketView,
    s: u64,
    q: SyncPacketView,
    t: u64,
)
    requires
        is_frame_start(bytes, p, s),
        is_frame_start(bytes, q, t),
        p matches SyncPacketView::MobUpdate(_, _, data) ==> data.len() <= u64::MAX,
        q matches SyncPacketView::MobUpdate(_, _, data) ==> data.len() <= u64::MAX,
    ensures
        p == q,
        s == t,
{
    lemma_frame_len(p, s);
    lemma_frame_len(q, t);
    lemma_pow256_values();
    let f = frame(p, s);
    let g = frame(q, t);
    assert(f[0] == bytes.subrange(0, f.len() as int)[0]);
    assert(g[0] == bytes.subrange(0, g.len() as int)[0]);
    assert(packet_id(p) == packet_id(q));
    assert(f.subrange(1, 9) =~= bytes.subrange(1, 9));
    assert(g.subrange(1, 9) =~= bytes.subrange(1, 9));
    lemma_le_bytes_injective(s as nat, t as nat, 8);
    match (p, q) {
        (SyncPacketView::ZoneID(a), SyncPacketView::ZoneID(b)) => {
            lemma_le_bytes_len(a as nat, 4);
            lemma_le_bytes_len(b as nat, 4);
            assert(le_bytes(a as nat, 4) =~= f.subrange(9, 13));
            assert(le_bytes(b as nat, 4) =~= g.subrange(9, 13));
            assert(f.subrange(9, 13) =~= bytes.subrange(9, 13));
            assert(g.subrange(9, 13) =~= bytes.subrange(9, 13));
            lemma_le_bytes_injective(a as nat, b as nat, 4);
        },
        (SyncPacketView::MobNull(a), SyncPacketView::MobNull(b)) => {
            lemma_le_bytes_len(a as nat, 2);
            lemma_le_bytes_len(b as nat, 2);
            assert(le_bytes(a as nat, 2) =~= f.subrange(9, 11));
            assert(le_bytes(b as nat, 2) =~= g.subrange(9, 11));
            assert(f.subrange(9, 11) =~= bytes.subrange(9, 11));
            assert(g.subrange(9, 11) =~= bytes.subrange(9, 11));
            lemma_le_bytes_injective(a as nat, b as nat, 2);
        },
        (SyncPacketView::ServerTime(a), SyncPacketView::ServerTime(b)) => {
            lemma_le_bytes_len(a as nat, 8);
            lemma_le_bytes_len(b as nat, 8);
            assert(le_bytes(a as nat, 8) =~= f.subrange(9, 17));
            assert(le_bytes(b as nat, 8) =~= g.subrange(9, 17));
            assert(f.subrange(9, 17) =~= bytes.subrange(9, 17));
            assert(g.subrange(9, 17) =~= bytes.subrange(9, 17));
            lemma_le_bytes_injective(a as nat, b as nat, 8);
        },
        (SyncPacketView::Target(a), SyncPacketView::Target(b)) => {
            lemma_le_bytes_len(a.target as nat, 8);
            lemma_le_bytes_len(a.hover_target as nat, 8);
            lemma_le_bytes_len(a.focus_target as nat, 8);
            lemma_le_bytes_len(b.target as nat, 8);
            lemma_le_bytes_len(b.hover_target as nat, 8);
            lemma_le_bytes_len(b.focus_target as nat, 8);
            assert(le_bytes(a.target as nat, 8) =~= f.subrange(9, 17));
            assert(le_bytes(b.target as nat, 8) =~= g.subrange(9, 17));
            assert(le_bytes(a.hover_target as nat, 8) =~= f.subrange(17, 25));
            assert(le_bytes(b.hover_target as nat, 8) =~= g.subrange(17, 25));
            assert(le_bytes(a.focus_target as nat, 8) =~= f.subrange(25, 33));
            assert(le_bytes(b.focus_target as nat, 8) =~= g.subrange(25, 33));
            assert(f.subrange(9, 17) =~= bytes.subrange(9, 17));
            assert(g.subrange(9, 17) =~= bytes.subrange(9, 17));
            assert(f.subrange(17, 25) =~= bytes.subrange(17, 25));
            assert(g.subrange(17, 25) =~= bytes.subrange(17, 25));
            assert(f.subrange(25, 33) =~= bytes.subrange(25, 33));
            assert(g.subrange(25, 33) =~= bytes.subrange(25, 33));
            lemma_le_bytes_injective(a.target as nat, b.target as nat, 8);
            lemma_le_bytes_injective(a.hover_target as nat, b.hover_target as nat, 8);
            lemma_le_bytes_injective(a.focus_target as nat, b.focus_target as nat, 8);
        },
        (SyncPacketView::MobUpdate(ai, ap, ad), SyncPacketView::MobUpdate(bi, bp, bd)) => {
            lemma_le_bytes_len(ai as nat, 2);
            lemma_le_bytes_len(bi as nat, 2);
            lemma_le_bytes_len(ap as nat, 8);
            lemma_le_bytes_len(bp as nat, 8);
            lemma_le_bytes_len(ad.len(), 8);
            lemma_le_bytes_len(bd.len(), 8);
            assert(le_bytes(ai as nat, 2) =~= f.subrange(9, 11));
            assert(le_bytes(bi as nat, 2) =~= g.subrange(9, 11));
            assert(le_bytes(ap as nat, 8) =~= f.subrange(11, 19));
            assert(le_bytes(bp as nat, 8) =~= g.subrange(11, 19));
            assert(f.subrange(9, 11) =~= bytes.subrange(9, 11));
            assert(g.subrange(9, 11) =~= bytes.subrange(9, 11));
            assert(f.subrange(11, 19) =~= bytes.subrange(11, 19));
            assert(g.subrange(11, 19) =~= bytes.subrange(11, 19));
            lemma_le_bytes_injective(ai as nat, bi as nat, 2);
            lemma_le_bytes_injective(ap as nat, bp as nat, 8);
            // the records: the shorter frame is the start of the longer
            let n = if ad.len() <= bd.len() { ad.len() } else { bd.len() };
            assert forall|k: int| 0 <= k < n implies ad[k] == bd[k] by {
                assert(f[27 + k] == bytes.subrange(0, f.len() as int)[27 + k]);
                assert(g[27 + k] == bytes.subrange(0, g.len() as int)[27 + k]);
            }
            // their lengths: the eight bytes in front of them
            assert(le_bytes(ad.len(), 8) =~= f.subrange(19, 27));
            assert(le_bytes(bd.len(), 8) =~= g.subrange(19, 27));
            assert(f.subrange(19, 27) =~= bytes.subrange(19, 27));
            assert(g.subrange(19, 27) =~= bytes.subrange(19, 27));
            lemma_le_bytes_injective(ad.len(), bd.len(), 8);
            assert(ad =~= bd);
        },
        _ => {},
    }
}

} // verus!
