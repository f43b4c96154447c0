//! The client's mirror of the game's memory: the published tables and, for
//! each slot of the table of combatants, the record that the slot's address
//! stands for.
//!
//! Addresses of records are handed out by the mirror itself, in ascending
//! order from 1, and never twice; zero is the null address. Whoever maps the
//! mirror into real memory keeps one allocation per address.

use crate::combatant::{
    foreign_of_wire, gunzip, lemma_foreign_of_decoded, Combatant, DecodeError, COMBATANT_SIZE,
    WIRE_SIZE,
};
use crate::models::{AllMemory, ServerTimePart1, ServerTimePart2, ServerTimePart3, MOB_SLOTS};
use crate::packets::{
    decode_packet, frame_error, holds_frame, is_frame_start, PacketError, SyncPacket,
    SyncPacketView, Target,
};
use vstd::prelude::*;

verus! {

/// The record behind one slot of the table of combatants.
#[derive(Clone, Copy, Debug, PartialEq, Eq)]
pub struct MobBlob {
    /// The address of the combatant in the game, by which the host tells one
    /// combatant from another; never followed here.
    pub identity: u64,
    /// The address under which the record is published.
    pub address: u64,
    /// The record, in the game's layout.
    pub bytes: [u8; 11520],
}

/// A `MobBlob` as a mathematical value.
pub struct MobBlobView {
    pub identity: u64,
    pub address: u64,
    pub bytes: Seq<u8>,
}

impl View for MobBlob {
    type V = MobBlobView;

    open spec fn view(&self) -> MobBlobView {
        MobBlobView { identity: self.identity, address: self.address, bytes: self.bytes@ }
    }
}

/// The view of an optional record.
pub open spec fn slot_view(slot: Option<MobBlob>) -> Option<MobBlobView> {
    match slot {
        Some(blob) => Some(blob@),
        None => None,
    }
}

/// The views of the records of all slots.
pub open spec fn heap_view(heap: Seq<Option<MobBlob>>) -> Seq<Option<MobBlobView>> {
    Seq::new(heap.len(), |i: int| slot_view(heap[i]))
}

/// The client's mirror.
pub struct MemoryMirror {
    /// The published tables.
    pub memory: AllMemory,
    /// The three links that lead from the server-time table to the clock.
    pub server_1: ServerTimePart1,
    pub server_2: ServerTimePart2,
    pub server_3: ServerTimePart3,
    /// For each slot, the record that it holds.
    pub mob_array_heap: Vec<Option<MobBlob>>,
    /// The address that the next new record gets.
    pub next_address: u64,
}

/// What the mirror holds, as a mathematical value.
pub struct MirrorView {
    pub zone: u32,
    pub server_time: u64,
    pub target: u64,
    pub hover_target: u64,
    pub focus_target: u64,
    /// The published address of each slot; zero for an empty slot.
    pub published: Seq<u64>,
    /// The record of each slot.
    pub slots: Seq<Option<MobBlobView>>,
    pub next_address: u64,
}

/// Why the mirror did not take a packet in.
#[derive(Clone, Copy, Debug, PartialEq, Eq)]
pub enum MirrorError {
    /// The packet names a slot that the table does not have.
    SlotOutOfRange,
    /// The record in the packet could not be read.
    Decode(DecodeError),
    /// Every address has been handed out.
    AddressesExhausted,
}

/// What a packet about one slot did to the slot.
#[derive(Clone, Copy, Debug, PartialEq, Eq)]
pub enum SlotChange {
    /// The record was overwritten where it stands; its address is unchanged.
    Overwritten,
    /// A new record was published under a new address. `retired` is the
    /// address of the record that the slot held before, if it held one.
    Replaced { retired: Option<u64> },
    /// The slot was emptied. `retired` is the address of the record that it
    /// held, if it held one.
    Cleared { retired: Option<u64> },
}

/// Whether `i` is the first slot whose record has identity `identity`.
pub open spec fn is_first_holder(slots: Seq<Option<MobBlobView>>, identity: u64, i: int) -> bool {
    &&& 0 <= i < slots.len()
    &&& slots[i] matches Some(blob) && blob.identity == identity
    &&& forall|j: int|
        0 <= j < i ==> !(#[trigger] slots[j] matches Some(blob) && blob.identity == identity)
}

/// Whether no slot holds a record with identity `identity`.
pub open spec fn has_no_holder(slots: Seq<Option<MobBlobView>>, identity: u64) -> bool {
    forall|j: int|
        0 <= j < slots.len() ==> !(#[trigger] slots[j] matches Some(blob) && blob.identity
            == identity)
}

/// Whether `address` is what identity `identity` resolves to: zero for the
/// null identity and for one that no slot holds, else the address of the
/// record in the first slot that holds it.
pub open spec fn resolves_to(slots: Seq<Option<MobBlobView>>, identity: u64, address: u64) -> bool {
    if identity == 0 {
        address == 0
    } else {
        ||| has_no_holder(slots, identity) && address == 0
        ||| exists|i: int|
            #![trigger is_first_holder(slots, identity, i)]
            is_first_holder(slots, identity, i) && slots[i]->0.address == address
    }
}

impl MirrorView {
    /// The invariant of the mirror: one slot per table entry; an empty slot
    /// publishes zero and a full one the address of its record; the records'
    /// addresses are not null, were all handed out already, and differ from
    /// slot to slot; every record has the size of a combatant.
    pub open spec fn well_formed(self) -> bool {
        &&& self.published.len() == MOB_SLOTS
        &&& self.slots.len() == MOB_SLOTS
        &&& forall|i: int|
            0 <= i < MOB_SLOTS ==> match #[trigger] self.slots[i] {
                Some(blob) => self.published[i] == blob.address && 0 < blob.address
                    < self.next_address && blob.bytes.len() == COMBATANT_SIZE,
                None => self.published[i] == 0,
            }
        &&& forall|i: int, j: int|
            0 <= i < j < MOB_SLOTS && self.slots[i] is Some && self.slots[j] is Some
                ==> self.slots[i]->0.address != self.slots[j]->0.address
        &&& self.next_address >= 1
    }

    /// Whether the mirror has a slot `slot`.
    pub open spec fn has_slot(self, slot: int) -> bool {
        0 <= slot < MOB_SLOTS && slot < self.slots.len()
    }

    /// Whether slot `slot` holds a record with identity `identity`.
    pub open spec fn holds(self, slot: int, identity: u64) -> bool {
        &&& 0 <= slot < self.slots.len()
        &&& self.slots[slot] matches Some(blob) && blob.identity == identity
    }

    /// The mirror after the zone `zone` was received.
    pub open spec fn with_zone(self, zone: u32) -> MirrorView {
        MirrorView { zone, ..self }
    }

    /// The mirror after the server time `time` was received.
    pub open spec fn with_server_time(self, time: u64) -> MirrorView {
        MirrorView { server_time: time, ..self }
    }

    /// The mirror after slot `slot` was reported empty.
    pub open spec fn with_slot_cleared(self, slot: int) -> MirrorView {
        MirrorView {
            published: self.published.update(slot, 0),
            slots: self.slots.update(slot, None),
            ..self
        }
    }

    /// The mirror after the record `bytes` with identity `identity` was
    /// received for slot `slot`. Where the slot holds that identity the
    /// record is overwritten and keeps its address; else the slot gets a
    /// record under the next address.
    pub open spec fn with_slot_updated(self, slot: int, identity: u64, bytes: Seq<u8>) -> MirrorView {
        if self.holds(slot, identity) {
            MirrorView {
                slots: self.slots.update(
                    slot,
                    Some(MobBlobView { identity, address: self.slots[slot]->0.address, bytes }),
                ),
                ..self
            }
        } else {
            MirrorView {
                published: self.published.update(slot, self.next_address),
                slots: self.slots.update(
                    slot,
                    Some(MobBlobView { identity, address: self.next_address, bytes }),
                ),
                next_address: (self.next_address + 1) as u64,
                ..self
            }
        }
    }

    /// The address that slot `slot` releases when it is cleared or gets a
    /// record of another identity.
    pub open spec fn retired(self, slot: int) -> Option<u64> {
        match self.slots[slot] {
            Some(blob) => Some(blob.address),
            None => None,
        }
    }
}

impl View for MemoryMirror {
    type V = MirrorView;

    open spec fn view(&self) -> MirrorView {
        MirrorView {
            zone: self.memory.zone_id.data,
            server_time: self.server_3.data,
            target: self.memory.target.target_data.target,
            hover_target: self.memory.target.target_data.hovertarget,
            focus_target: self.memory.target.target_data.focustarget,
            published: self.memory.mob_array.data@,
            slots: heap_view(self.mob_array_heap@),
            next_address: self.next_address,
        }
    }
}

/// Whether `after` and `r` are what taking in the record `bytes` with
/// identity `pointer` for slot `index` makes of the mirror `before`. A slot
/// beyond the table is refused, and so is a new record when every address
/// has been handed out; the mirror is unchanged then. Else the mirror is
/// `before.with_slot_updated(..)`, and `r` tells whether the record was
/// overwritten where it stood or replaced, and which address was retired.
pub open spec fn is_slot_update(
    before: MirrorView,
    after: MirrorView,
    index: u16,
    pointer: u64,
    bytes: Seq<u8>,
    r: Result<SlotChange, MirrorError>,
) -> bool {
    if !before.has_slot(index as int) {
        r == Err::<SlotChange, MirrorError>(MirrorError::SlotOutOfRange) && after == before
    } else if before.holds(index as int, pointer) {
        r == Ok::<SlotChange, MirrorError>(SlotChange::Overwritten) && after
            == before.with_slot_updated(index as int, pointer, bytes)
    } else if before.next_address == u64::MAX {
        r == Err::<SlotChange, MirrorError>(MirrorError::AddressesExhausted) && after == before
    } else {
        r == Ok::<SlotChange, MirrorError>(
            SlotChange::Replaced { retired: before.retired(index as int) },
        ) && after == before.with_slot_updated(index as int, pointer, bytes)
    }
}

/// Whether `after` and `r` are what emptying slot `index` makes of the
/// mirror `before`. A slot beyond the table is refused and the mirror is
/// unchanged.
pub open spec fn is_slot_clearing(
    before: MirrorView,
    after: MirrorView,
    index: u16,
    r: Result<SlotChange, MirrorError>,
) -> bool {
    if !before.has_slot(index as int) {
        r == Err::<SlotChange, MirrorError>(MirrorError::SlotOutOfRange) && after == before
    } else {
        r == Ok::<SlotChange, MirrorError>(
            SlotChange::Cleared { retired: before.retired(index as int) },
        ) && after == before.with_slot_cleared(index as int)
    }
}

/// Whether `after` is what taking in the three targets makes of the mirror
/// `before`: each published target is what its identity resolves to, and
/// nothing else changes.
pub open spec fn is_retargeting(before: MirrorView, after: MirrorView, target: Target) -> bool {
    &&& resolves_to(before.slots, target.target, after.target)
    &&& resolves_to(before.slots, target.hover_target, after.hover_target)
    &&& resolves_to(before.slots, target.focus_target, after.focus_target)
    &&& after == (MirrorView {
        target: after.target,
        hover_target: after.hover_target,
        focus_target: after.focus_target,
        ..before
    })
}

/// What a packet did to the mirror.
#[derive(Clone, Copy, Debug, PartialEq, Eq)]
pub enum Applied {
    /// The zone was replaced.
    Zone,
    /// The server's clock was replaced.
    ServerTime,
    /// A slot of the table of combatants changed.
    Slot(SlotChange),
    /// The three targets were replaced.
    Targets,
}

/// Whether `after` and `r` are what taking in the packet `packet` makes of
/// the mirror `before`. The record of a combatant that does not decompress,
/// or decompresses to too little, is an error and changes nothing.
pub open spec fn is_application(
    before: MirrorView,
    after: MirrorView,
    packet: SyncPacketView,
    r: Result<Applied, MirrorError>,
) -> bool {
    match packet {
        SyncPacketView::ZoneID(zone) => r == Ok::<Applied, MirrorError>(Applied::Zone) && after
            == before.with_zone(zone),
        SyncPacketView::ServerTime(time) => r == Ok::<Applied, MirrorError>(Applied::ServerTime)
            && after == before.with_server_time(time),
        SyncPacketView::Target(target) => r == Ok::<Applied, MirrorError>(Applied::Targets)
            && is_retargeting(before, after, target),
        SyncPacketView::MobNull(index) => is_slot_clearing(before, after, index, slot_result(r)),
        SyncPacketView::MobUpdate(index, pointer, data) => match gunzip(data) {
            None => r == Err::<Applied, MirrorError>(MirrorError::Decode(DecodeError::Corrupt))
                && after == before,
            Some(raw) => if raw.len() < WIRE_SIZE {
                r == Err::<Applied, MirrorError>(MirrorError::Decode(DecodeError::Truncated))
                    && after == before
            } else {
                is_slot_update(before, after, index, pointer, foreign_of_wire(raw), slot_result(r))
            },
        },
    }
}

/// The change of a slot that `r` reports. A report of anything else than
/// a slot stands for no result that a slot can have.
pub open spec fn slot_result(r: Result<Applied, MirrorError>) -> Result<SlotChange, MirrorError> {
    match r {
        Ok(Applied::Slot(change)) => Ok(change),
        Ok(_) => Err(MirrorError::Decode(DecodeError::Corrupt)),
        Err(e) => Err(e),
    }
}

/// The address under which the record with identity `host_pointer` is
/// published: zero for the null identity and for one that no slot holds,
/// else the address of the record in the first slot that holds it.
pub fn get_client_mob_pointer_from_host(
    host_pointer: u64,
    mob_array_heap: &Vec<Option<MobBlob>>,
) -> (address: u64)
    ensures
        resolves_to(heap_view(mob_array_heap@), host_pointer, address),
{
    let ghost slots = heap_view(mob_array_heap@);
    if host_pointer == 0 {
        return 0;
    }
    let mut i: usize = 0;
    while i < mob_array_heap.len()
        invariant
            i <= mob_array_heap.len(),
            host_pointer != 0,
            slots == heap_view(mob_array_heap@),
            forall|j: int|
                0 <= j < i ==> !(#[trigger] slots[j] matches Some(blob) && blob.identity
                    == host_pointer),
        decreases mob_array_heap.len() - i,
    {
        assert(slots[i as int] == slot_view(mob_array_heap@[i as int]));
        match &mob_array_heap[i] {
            Some(blob) => {
                if blob.identity == host_pointer {
                    assert(is_first_holder(slots, host_pointer, i as int));
                    return blob.address;
                }
            },
            None => {},
        }
        i += 1;
    }
    0
}

impl MemoryMirror {
    /// The mirror before anything was received: every table blank, every
    /// slot empty.
    pub fn new() -> (mirror: MemoryMirror)
        ensures
            mirror@.well_formed(),
            mirror.memory.is_initial(),
            mirror.server_1.is_initial(),
            mirror.server_2.is_initial(),
            mirror.server_3.is_initial(),
            mirror.memory.has_signatures(),
            mirror@.zone == 0,
            mirror@.server_time == 0,
            mirror@.next_address == 1,
            forall|i: int| 0 <= i < MOB_SLOTS ==> mirror@.slots[i] is None,
    {
        let mut heap: Vec<Option<MobBlob>> = Vec::with_capacity(MOB_SLOTS);
        let mut i: usize = 0;
        while i < MOB_SLOTS
            invariant
                i <= MOB_SLOTS,
                heap@.len() == i,
                forall|j: int| 0 <= j < i ==> heap@[j] is None,
            decreases MOB_SLOTS - i,
        {
            heap.push(None);
            i += 1;
        }
        MemoryMirror {
            memory: AllMemory::create(),
            server_1: ServerTimePart1::create(),
            server_2: ServerTimePart2::create(),
            server_3: ServerTimePart3::create(),
            mob_array_heap: heap,
            next_address: 1,
        }
    }

    /// Takes in the zone that the host reported.
    pub fn handle_zone_packet(&mut self, zone: u32)
        ensures
            final(self)@ == old(self)@.with_zone(zone),
    {
        self.memory.zone_id.data = zone;
    }

    /// Takes in the server time that the host reported.
    pub fn handle_server_time_packet(&mut self, time: u64)
        ensures
            final(self)@ == old(self)@.with_server_time(time),
    {
        self.server_3.data = time;
    }

    /// Empties slot `index`: publishes the null address for it and lets go
    /// of its record. A slot beyond the table is refused and nothing changes.
    pub fn handle_mob_null_packet(&mut self, index: u16) -> (r: Result<SlotChange, MirrorError>)
        ensures
            old(self)@.well_formed() ==> final(self)@.well_formed(),
            is_slot_clearing(old(self)@, final(self)@, index, r),
    {
        let slot: usize = index as usize;
        if slot >= MOB_SLOTS || slot >= self.mob_array_heap.len() {
            return Err(MirrorError::SlotOutOfRange);
        }
        let retired: Option<u64> = match &self.mob_array_heap[slot] {
            Some(blob) => Some(blob.address),
            None => None,
        };
        self.memory.mob_array.data[slot] = 0;
        self.mob_array_heap[slot] = None;
        assert(self@.slots =~= old(self)@.with_slot_cleared(index as int).slots);
        Ok(SlotChange::Cleared { retired })
    }

    /// Takes in the record `combatant` with identity `pointer` for slot
    /// `index`. Where the slot holds a record of that identity, the record is
    /// overwritten and keeps its address. Else a new record is published
    /// under a new address, and the one that the slot held is retired.
    /// A slot beyond the table is refused, and so is a new record when every
    /// address has been handed out; nothing changes then.
    pub fn handle_mob_packet(&mut self, index: u16, pointer: u64, combatant: &Combatant) -> (r:
        Result<SlotChange, MirrorError>)
        ensures
            old(self)@.well_formed() ==> final(self)@.well_formed(),
            is_slot_update(
                old(self)@,
                final(self)@,
                index,
                pointer,
                combatant.foreign_bytes(),
                r,
            ),
    {
        let slot: usize = index as usize;
        if slot >= MOB_SLOTS || slot >= self.mob_array_heap.len() {
            return Err(MirrorError::SlotOutOfRange);
        }
        let ghost before = self@;
        assert(before.slots[slot as int] == slot_view(self.mob_array_heap@[slot as int]));
        let held: Option<(u64, u64)> = match &self.mob_array_heap[slot] {
            Some(blob) => Some((blob.identity, blob.address)),
            None => None,
        };
        let bytes = combatant.as_ffxiv_array();
        match held {
            Some((identity, address)) if identity == pointer => {
                self.mob_array_heap[slot] = Some(MobBlob { identity: pointer, address, bytes });
                assert(self@.slots =~= before.with_slot_updated(
                    index as int,
                    pointer,
                    combatant.foreign_bytes(),
                ).slots);
                assert(before.well_formed() ==> self@.well_formed()) by {
                    if before.well_formed() {
                        lemma_update_keeps_invariant(
                            before,
                            index as int,
                            pointer,
                            combatant.foreign_bytes(),
                        );
                    }
                }
                Ok(SlotChange::Overwritten)
            },
            _ => {
                if self.next_address == u64::MAX {
                    return Err(MirrorError::AddressesExhausted);
                }
                let address: u64 = self.next_address;
                let retired: Option<u64> = match held {
                    Some((_, old_address)) => Some(old_address),
                    None => None,
                };
                self.memory.mob_array.data[slot] = address;
                self.mob_array_heap[slot] = Some(MobBlob { identity: pointer, address, bytes });
                self.next_address = address + 1;
                assert(self@.slots =~= before.with_slot_updated(
                    index as int,
                    pointer,
                    combatant.foreign_bytes(),
                ).slots);
                assert(before.well_formed() ==> self@.well_formed()) by {
                    if before.well_formed() {
                        lemma_update_keeps_invariant(
                            before,
                            index as int,
                            pointer,
                            combatant.foreign_bytes(),
                        );
                    }
                }
                Ok(SlotChange::Replaced { retired })
            },
        }
    }

    /// Takes in the three targets: publishes, for each, the address of the
    /// record with that identity, or the null address.
    pub fn handle_target_packet(&mut self, target: Target)
        ensures
            is_retargeting(old(self)@, final(self)@, target),
    {
        let first = get_client_mob_pointer_from_host(target.target, &self.mob_array_heap);
        let hover = get_client_mob_pointer_from_host(target.hover_target, &self.mob_array_heap);
        let focus = get_client_mob_pointer_from_host(target.focus_target, &self.mob_array_heap);
        self.memory.target.target_data.target = first;
        self.memory.target.target_data.hovertarget = hover;
        self.memory.target.target_data.focustarget = focus;
    }

    /// Takes in one packet. The record of a combatant is decompressed and
    /// read first; where that fails the packet is dropped and nothing changes.
    pub fn apply(&mut self, packet: &SyncPacket) -> (r: Result<Applied, MirrorError>)
        ensures
            old(self)@.well_formed() ==> final(self)@.well_formed(),
            is_application(old(self)@, final(self)@, packet@, r),
    {
        match packet {
            SyncPacket::ZoneID(zone) => {
                self.handle_zone_packet(*zone);
                Ok(Applied::Zone)
            },
            SyncPacket::ServerTime(time) => {
                self.handle_server_time_packet(*time);
                Ok(Applied::ServerTime)
            },
            SyncPacket::Target(target) => {
                self.handle_target_packet(*target);
                Ok(Applied::Targets)
            },
            SyncPacket::MobNull(index) => match self.handle_mob_null_packet(*index) {
                Ok(change) => Ok(Applied::Slot(change)),
                Err(e) => Err(e),
            },
            SyncPacket::MobUpdate(index, pointer, data) => {
                let combatant = match Combatant::decode_compressed(data.as_slice()) {
                    Ok(combatant) => combatant,
                    Err(e) => {
                        return Err(MirrorError::Decode(e));
                    },
                };
                proof {
                    lemma_foreign_of_decoded(combatant, gunzip(data@)->0);
                }
                match self.handle_mob_packet(*index, *pointer, &combatant) {
                    Ok(change) => Ok(Applied::Slot(change)),
                    Err(e) => Err(e),
                }
            },
        }
    }

    /// Takes in one datagram from the host: reads the frame that it begins
    /// with and takes the packet in. A datagram that holds no frame, or a
    /// packet that the mirror refuses, changes nothing.
    pub fn receive(&mut self, datagram: &[u8]) -> (r: Result<(u64, Applied), ReceiveError>)
        ensures
            old(self)@.well_formed() ==> final(self)@.well_formed(),
            !holds_frame(datagram@) ==> r == Err::<(u64, Applied), ReceiveError>(
                ReceiveError::Packet(frame_error(datagram@)),
            ) && final(self)@ == old(self)@,
            holds_frame(datagram@) ==> exists|seq: u64, packet: SyncPacketView|
                #![trigger is_frame_start(datagram@, packet, seq)]
                is_frame_start(datagram@, packet, seq) && is_application(
                    old(self)@,
                    final(self)@,
                    packet,
                    applied_result(r),
                ) && (r matches Ok((s, _)) ==> s == seq) && !(r matches Err(
                    ReceiveError::Packet(_),
                )),
    {
        let (seq, packet) = match decode_packet(datagram) {
            Ok(read) => read,
            Err(e) => {
                return Err(ReceiveError::Packet(e));
            },
        };
        match self.apply(&packet) {
            Ok(applied) => Ok((seq, applied)),
            Err(e) => Err(ReceiveError::Mirror(e)),
        }
    }
}

/// Why a datagram from the host was dropped.
#[derive(Clone, Copy, Debug, PartialEq, Eq)]
pub enum ReceiveError {
    /// It holds no frame.
    Packet(PacketError),
    /// The mirror did not take its packet in.
    Mirror(MirrorError),
}

/// What the mirror said of the packet of a datagram. A datagram without a
/// frame never reached the mirror; it stands for no result that the mirror
/// gives.
pub open spec fn applied_result(r: Result<(u64, Applied), ReceiveError>) -> Result<
    Applied,
    MirrorError,
> {
    match r {
        Ok((_, applied)) => Ok(applied),
        Err(ReceiveError::Mirror(e)) => Err(e),
        Err(ReceiveError::Packet(_)) => Err(MirrorError::SlotOutOfRange),
    }
}

/// Taking in a record keeps the mirror's invariant.
pub proof fn lemma_update_keeps_invariant(m: MirrorView, slot: int, identity: u64, bytes: Seq<u8>)
    requires
        m.well_formed(),
        0 <= slot < MOB_SLOTS,
        bytes.len() == COMBATANT_SIZE,
        m.holds(slot, identity) || m.next_address < u64::MAX,
    ensures
        m.with_slot_updated(slot, identity, bytes).well_formed(),
{
}

/// Two records in a row for one slot, with one identity: the second changes
/// no published address, that of the slot included, and only puts its bytes
/// in place of the first's.
pub proof fn lemma_same_identity_keeps_address(
    m: MirrorView,
    slot: int,
    identity: u64,
    first: Seq<u8>,
    second: Seq<u8>,
)
    requires
        m.well_formed(),
        0 <= slot < MOB_SLOTS,
        first.len() == COMBATANT_SIZE,
        m.holds(slot, identity) || m.next_address < u64::MAX,
    ensures
        ({
            let once = m.with_slot_updated(slot, identity, first);
            let twice = once.with_slot_updated(slot, identity, second);
            &&& once.published[slot] != 0
            &&& twice.published == once.published
            &&& twice.slots == once.slots.update(
                slot,
                Some(MobBlobView { identity, address: once.published[slot], bytes: second }),
            )
            &&& twice.next_address == once.next_address
        }),
{
    lemma_update_keeps_invariant(m, slot, identity, first);
    let once = m.with_slot_updated(slot, identity, first);
    assert(once.holds(slot, identity));
    assert(once.slots[slot] is Some);
}

/// Two records in a row for one slot, with different identities: the second
/// is published under another address than the first, and the first's address
/// is retired: no slot publishes it any more.
pub proof fn lemma_new_identity_gets_new_address(
    m: MirrorView,
    slot: int,
    a: u64,
    b: u64,
    first: Seq<u8>,
    second: Seq<u8>,
)
    requires
        m.well_formed(),
        0 <= slot < MOB_SLOTS,
        first.len() == COMBATANT_SIZE,
        second.len() == COMBATANT_SIZE,
        a != b,
        m.next_address + 1 < u64::MAX,
    ensures
        ({
            let once = m.with_slot_updated(slot, a, first);
            let twice = once.with_slot_updated(slot, b, second);
            &&& twice.well_formed()
            &&& twice.published[slot] != 0
            &&& twice.published[slot] != once.published[slot]
            &&& once.retired(slot) == Some(once.published[slot])
            &&& forall|j: int| 0 <= j < MOB_SLOTS ==> twice.published[j] != once.published[slot]
        }),
{
    lemma_update_keeps_invariant(m, slot, a, first);
    let once = m.with_slot_updated(slot, a, first);
    assert(once.holds(slot, a));
    assert(!once.holds(slot, b));
    lemma_update_keeps_invariant(once, slot, b, second);
    let twice = once.with_slot_updated(slot, b, second);
    assert forall|j: int| 0 <= j < MOB_SLOTS implies twice.published[j] != once.published[slot] by {
        if j != slot {
            assert(once.slots[j] == twice.slots[j]);
            assert(once.slots[slot] is Some);
            if once.slots[j] is Some {
                if j < slot {
                    assert(once.slots[j]->0.address != once.slots[slot]->0.address);
                } else {
                    assert(once.slots[slot]->0.address != once.slots[j]->0.address);
                }
            }
        }
    }
}

/// Emptying a slot keeps the mirror's invariant, publishes the null address
/// for the slot and touches no other slot.
pub proof fn lemma_clear_keeps_invariant(m: MirrorView, slot: int)
    requires
        m.well_formed(),
        0 <= slot < MOB_SLOTS,
    ensures
        m.with_slot_cleared(slot).well_formed(),
        m.with_slot_cleared(slot).published[slot] == 0,
        forall|j: int|
            0 <= j < MOB_SLOTS && j != slot ==> m.with_slot_cleared(slot).published[j]
                == m.published[j],
{
}

} // verus!
