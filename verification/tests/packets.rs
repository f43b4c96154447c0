use ffxiv_act_linux::packets::{EncodePacket, SyncPacket, Target};

#[test]
fn encode_zone() {
    let zone: u32 = 641;
    let packet = SyncPacket::ZoneID(zone).encode_packet(8);
    let expected = vec![1u8, 8, 0, 0, 0, 0, 0, 0, 0, 0x81, 0x02, 0, 0];
    assert_eq!(packet.len(), expected.len());
    assert_eq!(packet, expected);
}

#[test]
fn encode_mob_packet() {
    let index: u16 = 30000;
    let pointer: u64 = 5_000_000_000;
    let mob_data = vec![0u8, 1, 2, 3, 4, 5, 6, 7];
    let packet = SyncPacket::MobUpdate(index, pointer, mob_data);
    let packet = packet.encode_packet(400);
    let expected = vec![
        2u8, 0x90, 0x01, 0, 0, 0, 0, 0, 0, 0x30, 0x75, 0x00, 0xf2, 0x05, 0x2a, 0x01, 0, 0, 0, 8,
        0, 0, 0, 0, 0, 0, 0, 0, 1, 2, 3, 4, 5, 6, 7,
    ];
    assert_eq!(packet.len(), expected.len());
    assert_eq!(packet, expected);
}

#[test]
fn encode_mob_null_packet() {
    let index: u16 = 65000;
    let packet = SyncPacket::MobNull(index);
    let packet = packet.encode_packet(12345678987654321);
    let expected = vec![3u8, 0xb1, 0xf4, 0x91, 0x62, 0x54, 0xdc, 0x2b, 0x00, 0xe8, 0xfd];
    assert_eq!(packet.len(), expected.len());
    assert_eq!(packet, expected);
}

#[test]
fn encode_target_packet() {
    let target = Target {
        target: 9223372036854775807,
        hover_target: 98765432123456789,
        focus_target: 1,
    };

    let packet = SyncPacket::Target(target).encode_packet(4444);
    let expected = vec![
        4u8, 0x5c, 0x11, 0, 0, 0, 0, 0, 0, 0xff, 0xff, 0xff, 0xff, 0xff, 0xff, 0xff, 0x7f, 0x15,
        0x7d, 0xce, 0x21, 0xa3, 0xe2, 0x5e, 0x01, 0x01, 0, 0, 0, 0, 0, 0, 0,
    ];
    assert_eq!(packet.len(), expected.len());
    assert_eq!(packet, expected);
}

#[test]
fn encode_server_packet() {
    let packet = SyncPacket::ServerTime(1234);
    let packet = packet.encode_packet(987);
    let expected = vec![5u8, 0xdb, 0x03, 0, 0, 0, 0, 0, 0, 0xd2, 0x04, 0, 0, 0, 0, 0, 0];
    assert_eq!(packet.len(), expected.len());
    assert_eq!(packet, expected);
}

use ffxiv_act_linux::packets::{
    decode_packet, get_packet_id, write_mob_null_packet, write_mob_packet,
    write_server_time_packet, write_target_packet, write_zone_packet, PacketError,
};

#[test]
fn packet_ids_are_one_to_five() {
    let target = Target { target: 0, hover_target: 0, focus_target: 0 };
    assert_eq!(get_packet_id(&SyncPacket::ZoneID(0)), 1);
    assert_eq!(get_packet_id(&SyncPacket::MobUpdate(0, 0, vec![])), 2);
    assert_eq!(get_packet_id(&SyncPacket::MobNull(0)), 3);
    assert_eq!(get_packet_id(&SyncPacket::Target(target)), 4);
    assert_eq!(get_packet_id(&SyncPacket::ServerTime(0)), 5);
}

#[test]
fn writers_append_to_the_header() {
    assert_eq!(write_zone_packet(vec![9, 9], 0x0403_0201), vec![9, 9, 1, 2, 3, 4]);
    assert_eq!(
        write_server_time_packet(vec![7], 0x0807_0605_0403_0201),
        vec![7, 1, 2, 3, 4, 5, 6, 7, 8]
    );
    assert_eq!(write_mob_null_packet(vec![], 0x0201), vec![1, 2]);
    assert_eq!(
        write_mob_packet(vec![0xaa], 0x0102, 3, vec![0xbb, 0xcc]),
        vec![0xaa, 2, 1, 3, 0, 0, 0, 0, 0, 0, 0, 2, 0, 0, 0, 0, 0, 0, 0, 0xbb, 0xcc]
    );
    let target = Target { target: 1, hover_target: 2, focus_target: 3 };
    assert_eq!(
        write_target_packet(vec![], target),
        vec![1, 0, 0, 0, 0, 0, 0, 0, 2, 0, 0, 0, 0, 0, 0, 0, 3, 0, 0, 0, 0, 0, 0, 0]
    );
}

#[test]
fn decode_is_the_inverse_of_encode() {
    let target = Target { target: u64::MAX, hover_target: 0, focus_target: 77 };
    let packets = vec![
        SyncPacket::ZoneID(641),
        SyncPacket::MobUpdate(420, 0x7fff_1234_5678, vec![1, 2, 3, 4, 5]),
        SyncPacket::MobUpdate(0, 1, vec![]),
        SyncPacket::MobNull(65000),
        SyncPacket::Target(target),
        SyncPacket::ServerTime(1_600_000_000),
    ];
    let mut seq: u64 = 12345678987654321;
    for packet in packets {
        let frame = packet.clone().encode_packet(seq);
        assert_eq!(decode_packet(&frame), Ok((seq, packet)));
        seq += 1;
    }
}

#[test]
fn decode_ignores_what_follows_the_frame() {
    let mut frame = SyncPacket::MobUpdate(3, 9, vec![5, 6]).encode_packet(2);
    frame.extend_from_slice(&[0xee; 100]);
    assert_eq!(decode_packet(&frame), Ok((2, SyncPacket::MobUpdate(3, 9, vec![5, 6]))));
    let mut zone = SyncPacket::ZoneID(7).encode_packet(0);
    zone.push(1);
    assert_eq!(decode_packet(&zone), Ok((0, SyncPacket::ZoneID(7))));
}

#[test]
fn decode_rejects_short_frames() {
    assert_eq!(decode_packet(&[]), Err(PacketError::Truncated));
    assert_eq!(decode_packet(&[1]), Err(PacketError::Truncated));
    let packets = vec![
        SyncPacket::ZoneID(641),
        SyncPacket::MobUpdate(4, 5, vec![1, 2, 3]),
        SyncPacket::MobNull(1),
        SyncPacket::Target(Target { target: 1, hover_target: 2, focus_target: 3 }),
        SyncPacket::ServerTime(5),
    ];
    for packet in packets {
        let frame = packet.encode_packet(1);
        for len in 0..frame.len() {
            assert_eq!(decode_packet(&frame[..len]), Err(PacketError::Truncated));
        }
    }
}

#[test]
fn decode_rejects_a_record_length_beyond_the_datagram() {
    let mut frame = SyncPacket::MobUpdate(4, 5, vec![1, 2, 3]).encode_packet(1);
    frame[26] = 0xff;
    assert_eq!(decode_packet(&frame), Err(PacketError::Truncated));
}

#[test]
fn decode_rejects_unknown_kinds() {
    assert_eq!(decode_packet(&[0]), Err(PacketError::UnknownType(0)));
    assert_eq!(decode_packet(&[6, 0, 0, 0, 0, 0, 0, 0, 0, 0, 0]), Err(PacketError::UnknownType(6)));
    assert_eq!(decode_packet(&[255; 40]), Err(PacketError::UnknownType(255)));
}

#[test]
fn target_table_is_read_at_its_offsets() {
    let mut block = vec![0u8; 512];
    block[192..200].copy_from_slice(&0x1122_3344_5566_7788u64.to_le_bytes());
    block[200..208].copy_from_slice(&5u64.to_le_bytes());
    block[280..288].copy_from_slice(&u64::MAX.to_le_bytes());
    assert_eq!(
        Target::try_from_ffxiv_slice(&block),
        Some(Target { target: 0x1122_3344_5566_7788, hover_target: 5, focus_target: u64::MAX })
    );
    assert_eq!(Target::try_from_ffxiv_slice(&block[..287]), None);
    assert!(Target::try_from_ffxiv_slice(&block[..288]).is_some());
}
