use ffxiv_act_linux::combatant::{Combatant, DecodeError};
use ffxiv_act_linux::mirror::{
    get_client_mob_pointer_from_host, Applied, MemoryMirror, MirrorError, MobBlob, ReceiveError,
    SlotChange,
};
use ffxiv_act_linux::packets::{EncodePacket, PacketError, SyncPacket, Target};

fn combatant(id: u32, hp: u32) -> Combatant {
    let mut c = Combatant::from_ffxiv_slice(&[0u8; 7308]);
    c.id = id;
    c.current_hp = hp;
    c.name[0] = b'A';
    c
}

#[test]
fn a_new_mirror_is_blank() {
    let mirror = MemoryMirror::new();
    assert_eq!(mirror.memory.zone_id.data, 0);
    assert_eq!(mirror.memory.mob_array.data, [0u64; 421]);
    assert_eq!(mirror.mob_array_heap.len(), 421);
    assert!(mirror.mob_array_heap.iter().all(|slot| slot.is_none()));
    assert_eq!(mirror.next_address, 1);
    assert_eq!(mirror.server_3.data, 0);
}

#[test]
fn zone_and_server_time_are_replaced() {
    let mut mirror = MemoryMirror::new();
    mirror.handle_zone_packet(641);
    assert_eq!(mirror.memory.zone_id.data, 641);
    mirror.handle_zone_packet(0);
    assert_eq!(mirror.memory.zone_id.data, 0);
    mirror.handle_server_time_packet(1_600_000_000);
    assert_eq!(mirror.server_3.data, 1_600_000_000);
}

#[test]
fn same_identity_keeps_the_address() {
    let mut mirror = MemoryMirror::new();
    let first = combatant(1, 100);
    let second = combatant(1, 90);
    assert_eq!(
        mirror.handle_mob_packet(7, 0xabc, &first),
        Ok(SlotChange::Replaced { retired: None })
    );
    let address = mirror.memory.mob_array.data[7];
    assert_ne!(address, 0);
    assert_eq!(mirror.mob_array_heap[7].unwrap().bytes, first.as_ffxiv_array());
    assert_eq!(mirror.handle_mob_packet(7, 0xabc, &second), Ok(SlotChange::Overwritten));
    assert_eq!(mirror.memory.mob_array.data[7], address);
    let blob = mirror.mob_array_heap[7].unwrap();
    assert_eq!(blob.address, address);
    assert_eq!(blob.identity, 0xabc);
    assert_eq!(blob.bytes, second.as_ffxiv_array());
    assert_ne!(blob.bytes, first.as_ffxiv_array());
}

#[test]
fn another_identity_gets_another_address() {
    let mut mirror = MemoryMirror::new();
    mirror.handle_mob_packet(7, 0xabc, &combatant(1, 100)).unwrap();
    let old = mirror.memory.mob_array.data[7];
    assert_eq!(
        mirror.handle_mob_packet(7, 0xdef, &combatant(2, 50)),
        Ok(SlotChange::Replaced { retired: Some(old) })
    );
    let new = mirror.memory.mob_array.data[7];
    assert_ne!(new, 0);
    assert_ne!(new, old);
    assert!(mirror.memory.mob_array.data.iter().all(|a| *a != old));
    assert!(mirror.mob_array_heap.iter().flatten().all(|blob| blob.address != old));
    assert_eq!(mirror.mob_array_heap[7].unwrap().identity, 0xdef);
}

#[test]
fn addresses_differ_from_slot_to_slot() {
    let mut mirror = MemoryMirror::new();
    for slot in 0u16..421 {
        mirror.handle_mob_packet(slot, 0x1000 + slot as u64, &combatant(slot as u32, 1)).unwrap();
    }
    let mut addresses: Vec<u64> = mirror.memory.mob_array.data.to_vec();
    assert!(addresses.iter().all(|a| *a != 0));
    addresses.sort();
    addresses.dedup();
    assert_eq!(addresses.len(), 421);
}

#[test]
fn an_empty_slot_publishes_zero() {
    let mut mirror = MemoryMirror::new();
    mirror.handle_mob_packet(3, 0xabc, &combatant(1, 100)).unwrap();
    mirror.handle_mob_packet(4, 0xdef, &combatant(2, 100)).unwrap();
    let three = mirror.memory.mob_array.data[3];
    let four = mirror.memory.mob_array.data[4];
    assert_eq!(
        mirror.handle_mob_null_packet(3),
        Ok(SlotChange::Cleared { retired: Some(three) })
    );
    assert_eq!(mirror.memory.mob_array.data[3], 0);
    assert_eq!(mirror.mob_array_heap[3], None);
    assert_eq!(mirror.memory.mob_array.data[4], four);
    assert_eq!(mirror.handle_mob_null_packet(3), Ok(SlotChange::Cleared { retired: None }));
    assert_eq!(mirror.handle_mob_null_packet(420), Ok(SlotChange::Cleared { retired: None }));
}

#[test]
fn a_slot_beyond_the_table_is_refused() {
    let mut mirror = MemoryMirror::new();
    assert_eq!(mirror.handle_mob_null_packet(421), Err(MirrorError::SlotOutOfRange));
    assert_eq!(mirror.handle_mob_null_packet(65000), Err(MirrorError::SlotOutOfRange));
    assert_eq!(
        mirror.handle_mob_packet(421, 1, &combatant(1, 1)),
        Err(MirrorError::SlotOutOfRange)
    );
    assert_eq!(mirror.next_address, 1);
    assert_eq!(mirror.memory.mob_array.data, [0u64; 421]);
}

#[test]
fn a_new_record_is_refused_when_addresses_ran_out() {
    let mut mirror = MemoryMirror::new();
    mirror.handle_mob_packet(0, 5, &combatant(1, 1)).unwrap();
    mirror.next_address = u64::MAX;
    assert_eq!(
        mirror.handle_mob_packet(1, 6, &combatant(2, 1)),
        Err(MirrorError::AddressesExhausted)
    );
    assert_eq!(mirror.memory.mob_array.data[1], 0);
    assert_eq!(mirror.handle_mob_packet(0, 5, &combatant(1, 2)), Ok(SlotChange::Overwritten));
}

#[test]
fn targets_resolve_to_published_addresses() {
    let mut mirror = MemoryMirror::new();
    mirror.handle_mob_packet(10, 0xaaa, &combatant(1, 1)).unwrap();
    mirror.handle_mob_packet(20, 0xbbb, &combatant(2, 1)).unwrap();
    let ten = mirror.memory.mob_array.data[10];
    let twenty = mirror.memory.mob_array.data[20];
    mirror.handle_target_packet(Target { target: 0xbbb, hover_target: 0, focus_target: 0xaaa });
    assert_eq!(mirror.memory.target.target_data.target, twenty);
    assert_eq!(mirror.memory.target.target_data.hovertarget, 0);
    assert_eq!(mirror.memory.target.target_data.focustarget, ten);
    mirror.handle_target_packet(Target { target: 0xccc, hover_target: 0xaaa, focus_target: 0 });
    assert_eq!(mirror.memory.target.target_data.target, 0);
    assert_eq!(mirror.memory.target.target_data.hovertarget, ten);
    assert_eq!(mirror.memory.target.target_data.focustarget, 0);
}

#[test]
fn an_identity_resolves_to_its_first_slot() {
    let bytes = [0u8; 11520];
    let mut heap: Vec<Option<MobBlob>> = vec![None; 421];
    heap[5] = Some(MobBlob { identity: 9, address: 100, bytes });
    heap[2] = Some(MobBlob { identity: 9, address: 200, bytes });
    heap[3] = Some(MobBlob { identity: 8, address: 300, bytes });
    assert_eq!(get_client_mob_pointer_from_host(9, &heap), 200);
    assert_eq!(get_client_mob_pointer_from_host(8, &heap), 300);
    assert_eq!(get_client_mob_pointer_from_host(7, &heap), 0);
    assert_eq!(get_client_mob_pointer_from_host(0, &heap), 0);
    heap[0] = Some(MobBlob { identity: 0, address: 400, bytes });
    assert_eq!(get_client_mob_pointer_from_host(0, &heap), 0);
}

#[test]
fn packets_are_taken_in() {
    let mut mirror = MemoryMirror::new();
    let c = combatant(42, 77);
    assert_eq!(mirror.apply(&SyncPacket::ZoneID(641)), Ok(Applied::Zone));
    assert_eq!(mirror.apply(&SyncPacket::ServerTime(99)), Ok(Applied::ServerTime));
    assert_eq!(
        mirror.apply(&SyncPacket::MobUpdate(5, 0xabc, c.binary_serialize_compressed())),
        Ok(Applied::Slot(SlotChange::Replaced { retired: None }))
    );
    assert_eq!(mirror.mob_array_heap[5].unwrap().bytes, c.as_ffxiv_array());
    assert_eq!(
        mirror.apply(&SyncPacket::MobUpdate(5, 0xabc, c.binary_serialize_compressed())),
        Ok(Applied::Slot(SlotChange::Overwritten))
    );
    let address = mirror.memory.mob_array.data[5];
    let target = Target { target: 0xabc, hover_target: 0, focus_target: 0 };
    assert_eq!(mirror.apply(&SyncPacket::Target(target)), Ok(Applied::Targets));
    assert_eq!(mirror.memory.target.target_data.target, address);
    assert_eq!(
        mirror.apply(&SyncPacket::MobNull(5)),
        Ok(Applied::Slot(SlotChange::Cleared { retired: Some(address) }))
    );
    assert_eq!(mirror.memory.zone_id.data, 641);
    assert_eq!(mirror.server_3.data, 99);
}

#[test]
fn a_damaged_record_is_dropped() {
    let mut mirror = MemoryMirror::new();
    mirror.apply(&SyncPacket::MobUpdate(5, 1, combatant(1, 1).binary_serialize_compressed()))
        .unwrap();
    let before = mirror.mob_array_heap[5];
    assert_eq!(
        mirror.apply(&SyncPacket::MobUpdate(5, 1, vec![1, 2, 3])),
        Err(MirrorError::Decode(DecodeError::Corrupt))
    );
    assert_eq!(
        mirror.apply(&SyncPacket::MobUpdate(6, 2, vec![])),
        Err(MirrorError::Decode(DecodeError::Corrupt))
    );
    assert_eq!(mirror.mob_array_heap[5], before);
    assert_eq!(mirror.mob_array_heap[6], None);
    assert_eq!(mirror.memory.mob_array.data[6], 0);
}

#[test]
fn datagrams_are_taken_in() {
    let mut mirror = MemoryMirror::new();
    let c = combatant(42, 77);
    let frame = SyncPacket::MobUpdate(9, 0xabc, c.binary_serialize_compressed()).encode_packet(3);
    let mut buffer = vec![0u8; 12000];
    buffer[..frame.len()].copy_from_slice(&frame);
    assert_eq!(
        mirror.receive(&buffer),
        Ok((3, Applied::Slot(SlotChange::Replaced { retired: None })))
    );
    assert_eq!(mirror.mob_array_heap[9].unwrap().bytes, c.as_ffxiv_array());
    assert_eq!(mirror.receive(&SyncPacket::ZoneID(5).encode_packet(4)), Ok((4, Applied::Zone)));
    assert_eq!(mirror.memory.zone_id.data, 5);
}

#[test]
fn malformed_datagrams_are_dropped() {
    let mut mirror = MemoryMirror::new();
    assert_eq!(mirror.receive(&[]), Err(ReceiveError::Packet(PacketError::Truncated)));
    assert_eq!(mirror.receive(&[9; 30]), Err(ReceiveError::Packet(PacketError::UnknownType(9))));
    assert_eq!(
        mirror.receive(&SyncPacket::MobNull(500).encode_packet(0)),
        Err(ReceiveError::Mirror(MirrorError::SlotOutOfRange))
    );
    assert_eq!(
        mirror.receive(&SyncPacket::MobUpdate(1, 1, vec![0; 50]).encode_packet(0)),
        Err(ReceiveError::Mirror(MirrorError::Decode(DecodeError::Corrupt)))
    );
    assert_eq!(mirror.memory.mob_array.data, [0u64; 421]);
    assert_eq!(mirror.next_address, 1);
}
