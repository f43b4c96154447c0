use ffxiv_act_linux::combatant::Combatant;
use ffxiv_act_linux::packets::{SyncPacket, Target};
use ffxiv_act_linux::reader::{
    follow_link, mob_packet, mob_slot_address, read_signature, region_is_candidate, scan,
    scan_region, scan_signatures, scan_tick, server_time_packet, target_packet, window_len,
    window_stride, ChainLink, ChainStep, ProcessImage, ReadingError, Region, SCAN_SIZE,
};
use ffxiv_act_linux::signature::{
    parse_signature, MemErrorType, SignatureMap, SignatureType, Signatures,
};

const CODE: usize = 0x40_0000;
const DATA: usize = 0x100_0000;
const ZONE_AT: usize = DATA;
const MOBS_AT: usize = DATA + 0x100;
const TARGET_AT: usize = DATA + 0x1000;
const TIME_AT: usize = DATA + 0x2000;
const LINK_1: usize = DATA + 0x3000;
const LINK_2: usize = DATA + 0x4000;
const LINK_3: usize = DATA + 0x5000;
const BLOBS_AT: usize = DATA + 0x10_0000;
const DATA_SIZE: usize = 0x20_0000;

fn signatures() -> Signatures {
    Signatures {
        target: "41bc000000e041bd01000000493bc47555488d0d".to_string(),
        chat_log: "e8????????85c0740e488b0d????????33d2e8????????488b0d".to_string(),
        mob_array: "488b420848c1e8033da701000077248bc0488d0d".to_string(),
        party_list: "488d7c242066660f1f8400000000??488b17488d0d".to_string(),
        server_time: "0fb7c0894710488b0d".to_string(),
        zone_id: "f30f108d080400004c8d85580600000fb705".to_string(),
        player: "83f9ff7412448b048e8bd3488d0d".to_string(),
    }
}

fn put(bytes: &mut [u8], at: usize, data: &[u8]) {
    bytes[at..at + data.len()].copy_from_slice(data);
}

/// Writes a signature at `at` in the code, followed by the displacement that
/// leads to `points_at`; returns the address after the signature.
fn plant(code: &mut [u8], at: usize, text: &str, points_at: usize) -> usize {
    let sig = parse_signature(text);
    put(code, at, &sig.signature_bytes);
    if let Some(ranges) = &sig.wildcard_ranges {
        for range in ranges {
            for i in range.clone() {
                code[at + i] = 0x5a;
            }
        }
    }
    let after = CODE + at + sig.signature_bytes.len();
    let displacement = (points_at as i64 - (after as i64 + 4)) as i32;
    put(code, at + sig.signature_bytes.len(), &displacement.to_le_bytes());
    after
}

fn combatant(id: u32) -> Combatant {
    let mut c = Combatant::from_ffxiv_slice(&[0u8; 7308]);
    c.id = id;
    c.max_hp = 1000 + id;
    c
}

/// A process with three combatants, in slots 0, 7 and 420.
fn image(zone: u32) -> (ProcessImage, SignatureMap) {
    let mut code = vec![0x90u8; 0x3_0000];
    let sigs = signatures();
    let map = SignatureMap {
        target: plant(&mut code, 0x100, &sigs.target, TARGET_AT),
        chat_log: plant(&mut code, 0x200, &sigs.chat_log, DATA + 0x6000),
        mob_array: plant(&mut code, 0xfff0, &sigs.mob_array, MOBS_AT),
        party_list: plant(&mut code, 0x400, &sigs.party_list, DATA + 0x7000),
        server_time: plant(&mut code, 0x2_0000, &sigs.server_time, TIME_AT),
        zone_id: plant(&mut code, 0x2_fff0 - 40, &sigs.zone_id, ZONE_AT),
        player: plant(&mut code, 0x600, &sigs.player, DATA + 0x8000),
    };
    let mut data = vec![0u8; DATA_SIZE];
    put(&mut data, ZONE_AT - DATA, &zone.to_le_bytes());
    for (n, slot) in [0usize, 7, 420].iter().enumerate() {
        let address = BLOBS_AT + n * 11520;
        put(&mut data, MOBS_AT - DATA + 8 * slot, &(address as u64).to_le_bytes());
        put(&mut data, address - DATA, &combatant(*slot as u32).as_ffxiv_array());
    }
    put(&mut data, TARGET_AT - DATA + 192, &(BLOBS_AT as u64).to_le_bytes());
    put(&mut data, TARGET_AT - DATA + 280, &((BLOBS_AT + 11520) as u64).to_le_bytes());
    put(&mut data, TIME_AT - DATA, &(LINK_1 as u64).to_le_bytes());
    put(&mut data, LINK_1 + 72 - DATA, &(LINK_2 as u64).to_le_bytes());
    put(&mut data, LINK_2 + 8 - DATA, &(LINK_3 as u64).to_le_bytes());
    put(&mut data, LINK_3 + 2116 - DATA, &1_600_000_000u64.to_le_bytes());
    let regions = vec![
        Region {
            start: 0x1000,
            bytes: code.clone(),
            readable: true,
            writable: false,
            executable: true,
            file_backed: true,
        },
        Region {
            start: CODE,
            bytes: code,
            readable: true,
            writable: false,
            executable: true,
            file_backed: false,
        },
        Region {
            start: DATA,
            bytes: data,
            readable: true,
            writable: true,
            executable: false,
            file_backed: false,
        },
    ];
    (ProcessImage { regions }, map)
}

#[test]
fn a_displacement_is_signed() {
    assert_eq!(read_signature(0x1000, &[0x10, 0, 0, 0]), Ok(0x1014));
    assert_eq!(read_signature(0x1000, &[0, 0, 0, 0]), Ok(0x1004));
    assert_eq!(read_signature(0x1000, &[0xfc, 0xff, 0xff, 0xff]), Ok(0x1000));
    assert_eq!(read_signature(0x1000, &[0xf0, 0xff, 0xff, 0xff, 9, 9]), Ok(0xff4));
    assert_eq!(read_signature(0x8000_0000, &[0, 0, 0, 0x80]), Ok(4));
    assert_eq!(read_signature(0x1000, &[0xff, 0xff, 0xff, 0x7f]), Ok(0x1000 + 4 + 0x7fff_ffff));
}

#[test]
fn a_displacement_that_leads_nowhere_is_an_error() {
    assert_eq!(read_signature(0, &[0xfb, 0xff, 0xff, 0xff]), Err(ReadingError::ReadingData));
    assert_eq!(read_signature(usize::MAX - 3, &[0, 0, 0, 0]), Err(ReadingError::ReadingData));
    assert_eq!(read_signature(0x1000, &[1, 2, 3]), Err(ReadingError::ReadingData));
    assert_eq!(read_signature(0x1000, &[]), Err(ReadingError::ReadingData));
}

#[test]
fn a_link_adds_its_offset_to_the_pointer() {
    let step = ChainStep { read_size: 8, add_offset: 72 };
    assert_eq!(follow_link(&0x1000u64.to_le_bytes(), step), Ok(ChainLink::Next(0x1048)));
    assert_eq!(follow_link(&1u64.to_le_bytes(), step), Ok(ChainLink::Next(73)));
    let narrow = ChainStep { read_size: 4, add_offset: 8 };
    assert_eq!(follow_link(&[0x10, 0, 0, 0, 0xff, 0xff], narrow), Ok(ChainLink::Next(0x18)));
    let one = ChainStep { read_size: 1, add_offset: 0 };
    assert_eq!(follow_link(&[0x10, 0xff], one), Ok(ChainLink::Next(0x10)));
}

#[test]
fn a_null_pointer_ends_the_chain() {
    let step = ChainStep { read_size: 8, add_offset: 72 };
    assert_eq!(follow_link(&[0; 8], step), Ok(ChainLink::Null));
    let narrow = ChainStep { read_size: 2, add_offset: 72 };
    assert_eq!(follow_link(&[0, 0, 1, 1], narrow), Ok(ChainLink::Null));
}

#[test]
fn a_link_that_cannot_be_followed_is_an_error() {
    let step = ChainStep { read_size: 8, add_offset: 72 };
    assert_eq!(follow_link(&[1; 7], step), Err(ReadingError::ReadingData));
    assert_eq!(follow_link(&u64::MAX.to_le_bytes(), step), Err(ReadingError::ReadingData));
    let none = ChainStep { read_size: 0, add_offset: 0 };
    assert_eq!(follow_link(&[1; 8], none), Err(ReadingError::ReadingData));
    let wide = ChainStep { read_size: 9, add_offset: 0 };
    assert_eq!(follow_link(&[1; 16], wide), Err(ReadingError::ReadingData));
}

#[test]
fn slots_are_eight_bytes_apart() {
    assert_eq!(mob_slot_address(0x1000, 0), Some(0x1000));
    assert_eq!(mob_slot_address(0x1000, 420), Some(0x1000 + 3360));
    assert_eq!(mob_slot_address(usize::MAX - 7, 1), None);
    assert_eq!(mob_slot_address(0, usize::MAX), None);
}

#[test]
fn candidates_are_private_read_only_code() {
    assert!(region_is_candidate(true, false, true, false, 4096));
    assert!(!region_is_candidate(false, false, true, false, 4096));
    assert!(!region_is_candidate(true, true, true, false, 4096));
    assert!(!region_is_candidate(true, false, false, false, 4096));
    assert!(!region_is_candidate(true, false, true, true, 4096));
    assert!(!region_is_candidate(true, false, true, false, 0));
}

#[test]
fn windows_overlap_by_one_less_than_the_longest_signature() {
    assert_eq!(SCAN_SIZE, 65536);
    assert_eq!(window_stride(26), 65536 - 25);
    assert_eq!(window_stride(1), 65536);
    assert_eq!(window_stride(0), 65536);
    assert_eq!(window_stride(65536), 1);
    assert_eq!(window_len(100_000, 0), 65536);
    assert_eq!(window_len(100_000, 65511), 100_000 - 65511);
    assert_eq!(window_len(65536, 0), 65536);
    assert_eq!(window_len(10, 10), 0);
}

#[test]
fn a_match_across_two_windows_is_found() {
    let sig = parse_signature("0102030405060708090a");
    for at in [0usize, 1, 65520, 65526, 65527, 65530, 65535, 65536, 65537, 131040, 199_990] {
        let mut bytes = vec![0u8; 200_000];
        bytes[at..at + 10].copy_from_slice(&sig.signature_bytes);
        assert_eq!(scan_region(&bytes, &sig, 10), Some(at));
        assert_eq!(scan_region(&bytes, &sig, 26), Some(at));
    }
}

#[test]
fn the_leftmost_match_of_a_region_is_found() {
    let sig = parse_signature("aa??cc");
    let mut bytes = vec![0u8; 150_000];
    bytes[140_000..140_003].copy_from_slice(&[0xaa, 1, 0xcc]);
    bytes[65535..65538].copy_from_slice(&[0xaa, 2, 0xcc]);
    assert_eq!(scan_region(&bytes, &sig, 3), Some(65535));
    bytes[65536] = 0xaa;
    bytes[65537] = 0xcd;
    assert_eq!(scan_region(&bytes, &sig, 3), Some(140_000));
    bytes[140_002] = 0;
    assert_eq!(scan_region(&bytes, &sig, 3), None);
    assert_eq!(scan_region(&[], &sig, 3), None);
    assert_eq!(scan_region(&[0xaa, 0], &sig, 3), None);
}

#[test]
fn memory_is_read_from_the_mapping_that_holds_it() {
    let (image, _) = image(641);
    assert_eq!(image.read(ZONE_AT, 4), Ok(641u32.to_le_bytes().to_vec()));
    assert_eq!(image.read(CODE, 2), Ok(vec![0x90, 0x90]));
    assert_eq!(image.read(DATA + DATA_SIZE - 1, 1), Ok(vec![0]));
    assert_eq!(image.read(DATA + DATA_SIZE - 1, 2), Err(ReadingError::ReadingProcessMemory));
    assert_eq!(image.read(DATA - 1, 2), Err(ReadingError::ReadingProcessMemory));
    assert_eq!(image.read(0, 1), Err(ReadingError::ReadingProcessMemory));
    assert_eq!(image.read(usize::MAX, 2), Err(ReadingError::ReadingProcessMemory));
}

#[test]
fn signatures_are_found_in_private_code_only() {
    let (image, map) = image(641);
    let sigs = signatures();
    assert_eq!(scan(&image, &sigs.get_zone_id(), 26), Some(map.zone_id));
    assert_eq!(scan(&image, &sigs.get_mob_array(), 26), Some(map.mob_array));
    assert_eq!(scan(&image, &sigs.get_chat_log(), 26), Some(map.chat_log));
    assert_eq!(scan(&image, &parse_signature("00112233"), 26), None);
    assert_eq!(scan_signatures(&sigs, &image), Ok(map));
}

#[test]
fn signatures_that_are_found_nowhere_are_named() {
    let (image, _) = image(641);
    let mut sigs = signatures();
    sigs.chat_log = "e8????????85c0740f".to_string();
    sigs.player = "83f9ff7412448b048e8bd3488d0e".to_string();
    assert_eq!(
        scan_signatures(&sigs, &image),
        Err(MemErrorType::FindingSignature(vec![SignatureType::ChatLog, SignatureType::Player]))
    );
}

#[test]
fn a_malformed_signature_is_a_failure_to_read_the_signatures() {
    let (image, _) = image(641);
    let mut sigs = signatures();
    sigs.zone_id = "f30f108?".to_string();
    assert_eq!(scan_signatures(&sigs, &image), Err(MemErrorType::ReadingSignatureFile));
}

#[test]
fn values_are_read_through_their_signatures() {
    let (image, map) = image(641);
    assert_eq!(image.resolve(map.zone_id), Ok(ZONE_AT));
    assert_eq!(image.resolve(map.mob_array), Ok(MOBS_AT));
    assert_eq!(image.read_zone_id(map.zone_id), Ok(641));
    assert_eq!(image.read_server_time(map.server_time), Ok(1_600_000_000));
    assert_eq!(
        image.read_target(map.target),
        Ok(Target {
            target: BLOBS_AT as u64,
            hover_target: 0,
            focus_target: (BLOBS_AT + 11520) as u64
        })
    );
    assert_eq!(image.read_mob(map.mob_array, 0), Ok(Some((BLOBS_AT as u64, combatant(0)))));
    assert_eq!(
        image.read_mob(map.mob_array, 7),
        Ok(Some(((BLOBS_AT + 11520) as u64, combatant(7))))
    );
    assert_eq!(image.read_mob(map.mob_array, 1), Ok(None));
    assert_eq!(image.read_mob(map.mob_array, 419), Ok(None));
}

#[test]
fn a_null_link_gives_zero_and_a_failed_read_an_error() {
    let (mut image, map) = image(641);
    let steps = vec![
        ChainStep { read_size: 8, add_offset: 72 },
        ChainStep { read_size: 8, add_offset: 8 },
        ChainStep { read_size: 8, add_offset: 2116 },
    ];
    assert_eq!(image.follow_chain(TIME_AT, &steps, 8), Ok(1_600_000_000u64.to_le_bytes().to_vec()));
    assert_eq!(image.follow_chain(LINK_3 + 2116, &vec![], 4), Ok(vec![0x00, 0x10, 0x5e, 0x5f]));
    put(&mut image.regions[2].bytes, LINK_2 + 8 - DATA, &[0; 8]);
    assert_eq!(image.follow_chain(TIME_AT, &steps, 8), Ok(vec![0; 8]));
    assert_eq!(image.follow_chain(TIME_AT, &steps, 3), Ok(vec![0; 3]));
    assert_eq!(image.read_server_time(map.server_time), Ok(0));
    put(&mut image.regions[2].bytes, LINK_1 + 72 - DATA, &0x10u64.to_le_bytes());
    assert_eq!(image.follow_chain(TIME_AT, &steps, 8), Err(ReadingError::ReadingProcessMemory));
    assert_eq!(
        image.read_server_time(map.server_time),
        Err(ReadingError::ReadingProcessMemory)
    );
    put(&mut image.regions[2].bytes, TIME_AT - DATA, &[0; 8]);
    assert_eq!(image.read_server_time(map.server_time), Ok(0));
}

#[test]
fn one_tick_reports_every_slot_in_order() {
    let (image, map) = image(641);
    let out = scan_tick(&image, &map);
    assert!(out.alive);
    assert_eq!(out.packets.len(), 1 + 1 + 421 + 1);
    assert_eq!(out.packets[0], SyncPacket::ServerTime(1_600_000_000));
    assert_eq!(out.packets[1], SyncPacket::ZoneID(641));
    let mut updates = 0;
    let mut nulls = 0;
    for slot in 0..421usize {
        match &out.packets[2 + slot] {
            SyncPacket::MobUpdate(index, pointer, data) => {
                updates += 1;
                assert_eq!(*index as usize, slot);
                assert!([0usize, 7, 420].contains(&slot));
                let n = [0usize, 7, 420].iter().position(|s| *s == slot).unwrap();
                assert_eq!(*pointer, (BLOBS_AT + n * 11520) as u64);
                assert_eq!(
                    Combatant::deserialize_binary_compressed(data.clone()),
                    Ok(combatant(slot as u32))
                );
            },
            SyncPacket::MobNull(index) => {
                nulls += 1;
                assert_eq!(*index as usize, slot);
            },
            other => panic!("slot {} reported by {:?}", slot, other),
        }
    }
    assert_eq!(updates, 3);
    assert_eq!(nulls, 418);
    assert_eq!(
        out.packets[423],
        SyncPacket::Target(Target {
            target: BLOBS_AT as u64,
            hover_target: 0,
            focus_target: (BLOBS_AT + 11520) as u64
        })
    );
}

#[test]
fn outside_a_zone_only_clock_and_zone_are_reported() {
    let (image, map) = image(0);
    let out = scan_tick(&image, &map);
    assert!(out.alive);
    assert_eq!(out.packets, vec![SyncPacket::ServerTime(1_600_000_000), SyncPacket::ZoneID(0)]);
}

#[test]
fn a_tick_without_zone_ends_the_loop() {
    let (image, mut map) = image(641);
    map.zone_id = 0x10;
    let out = scan_tick(&image, &map);
    assert!(!out.alive);
    assert_eq!(out.packets, vec![SyncPacket::ServerTime(1_600_000_000)]);
}

#[test]
fn what_cannot_be_read_is_left_out_of_the_tick() {
    let (mut image, mut map) = image(641);
    map.server_time = 0x10;
    map.target = 0x20;
    put(&mut image.regions[2].bytes, MOBS_AT - DATA + 8 * 3, &0x10u64.to_le_bytes());
    let out = scan_tick(&image, &map);
    assert!(out.alive);
    assert_eq!(out.packets.len(), 1 + 420);
    assert_eq!(out.packets[0], SyncPacket::ZoneID(641));
    assert_eq!(out.packets[3], SyncPacket::MobNull(2));
    assert_eq!(out.packets[4], SyncPacket::MobNull(4));
}

#[test]
fn packets_are_made_of_what_was_read() {
    assert_eq!(server_time_packet(Ok(5)), Some(SyncPacket::ServerTime(5)));
    assert_eq!(server_time_packet(Err(ReadingError::ReadingData)), None);
    let target = Target { target: 1, hover_target: 2, focus_target: 3 };
    assert_eq!(target_packet(Ok(target)), Some(SyncPacket::Target(target)));
    assert_eq!(target_packet(Err(ReadingError::ReadingProcessMemory)), None);
    assert_eq!(mob_packet(5, &Ok(None)), Some(SyncPacket::MobNull(5)));
    assert_eq!(mob_packet(5, &Err(ReadingError::ReadingProcessMemory)), None);
    let c = combatant(9);
    assert_eq!(
        mob_packet(6, &Ok(Some((77, c)))),
        Some(SyncPacket::MobUpdate(6, 77, c.binary_serialize_compressed()))
    );
}

#[test]
fn reading_errors_say_what_failed() {
    assert_eq!(ReadingError::ReadingProcessMemory.message(), "Reading process memory");
    assert_eq!(ReadingError::ReadingData.message(), "Reading data from process memory");
}

#[test]
fn an_image_is_well_formed_when_its_mappings_end_in_the_address_space() {
    let (mut image, _) = image(1);
    assert!(image.is_well_formed());
    image.regions[0].start = usize::MAX - 10;
    assert!(!image.is_well_formed());
    assert!(ProcessImage { regions: vec![] }.is_well_formed());
}
