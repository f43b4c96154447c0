use ffxiv_act_linux::signature::{
    collect_signatures, hex_digit, missing_kinds, parse_signature, parse_signature_bytes,
    parse_wildcards, replace_wildcards, try_parse_signature, wildcard_runs, MemErrorType,
    ScanResults, Signature, SignatureError, SignatureMap, SignatureType, Signatures,
};

#[test]
fn plain_hex_is_a_signature_without_wildcards() {
    let sig = parse_signature("f30f108d080400004c8d85580600000fB705");
    assert_eq!(
        sig.signature_bytes,
        vec![
            0xf3, 0x0f, 0x10, 0x8d, 0x08, 0x04, 0x00, 0x00, 0x4c, 0x8d, 0x85, 0x58, 0x06, 0x00,
            0x00, 0x0f, 0xb7, 0x05
        ]
    );
    assert_eq!(sig.wildcard_ranges, None);
}

#[test]
fn a_single_wildcard_in_the_ninth_byte() {
    let text = "0102030405060708??0a0b";
    assert_eq!(parse_wildcards(text), Some(vec![8usize..9]));
    let sig = parse_signature(text);
    assert_eq!(sig.signature_bytes, vec![1, 2, 3, 4, 5, 6, 7, 8, 0, 0x0a, 0x0b]);
    assert_eq!(sig.wildcard_ranges, Some(vec![8usize..9]));
}

#[test]
fn runs_of_wildcards_become_one_range_each() {
    let text = "e8????????85c0740e488b0d????????33D2E8????????488b0d";
    let sig = parse_signature(text);
    assert_eq!(
        sig.signature_bytes,
        vec![
            0xe8, 0, 0, 0, 0, 0x85, 0xc0, 0x74, 0x0e, 0x48, 0x8b, 0x0d, 0, 0, 0, 0, 0x33, 0xd2,
            0xe8, 0, 0, 0, 0, 0x48, 0x8b, 0x0d
        ]
    );
    assert_eq!(sig.wildcard_ranges, Some(vec![1usize..5, 12..16, 19..23]));
}

#[test]
fn wildcards_at_both_ends() {
    assert_eq!(parse_wildcards("??aa"), Some(vec![0usize..1]));
    assert_eq!(parse_wildcards("aa??"), Some(vec![1usize..2]));
    assert_eq!(parse_wildcards("????"), Some(vec![0usize..2]));
    assert_eq!(parse_wildcards("??aa????bb??"), Some(vec![0usize..1, 2..4, 5..6]));
    assert_eq!(parse_signature("aa??").signature_bytes, vec![0xaa, 0]);
}

#[test]
fn no_wildcard_gives_no_ranges() {
    assert_eq!(parse_wildcards("aabbcc"), None);
    assert_eq!(parse_wildcards(""), None);
    assert_eq!(wildcard_runs(b"aabb"), Ok(vec![]));
}

#[test]
fn the_empty_text_is_the_empty_signature() {
    assert_eq!(
        try_parse_signature(""),
        Ok(Signature { signature_bytes: vec![], wildcard_ranges: None })
    );
}

#[test]
fn malformed_text_is_refused() {
    for text in ["a", "abc", "?", "a?", "?a", "a?bb", "aa?b", "gg", "0x", " 00", "00 ", "a??b", "é0"]
    {
        assert_eq!(try_parse_signature(text), Err(SignatureError::Malformed));
        assert_eq!(parse_signature_bytes(text.as_bytes()), Err(SignatureError::Malformed));
        assert_eq!(wildcard_runs(text.as_bytes()), Err(SignatureError::Malformed));
    }
}

#[test]
fn hex_digits_are_told_from_other_characters() {
    for c in 0u8..=255 {
        assert_eq!(hex_digit(c), (c as char).is_ascii_hexdigit());
    }
}

#[test]
fn wildcards_are_replaced_by_zero_digits() {
    assert_eq!(replace_wildcards(b"a??b??"), b"a00b00".to_vec());
    assert_eq!(replace_wildcards(b""), Vec::<u8>::new());
}

fn signatures() -> Signatures {
    Signatures {
        target: "41bc000000e0".to_string(),
        chat_log: "e8????????85c0".to_string(),
        mob_array: "488b4208".to_string(),
        party_list: "488d7c24".to_string(),
        server_time: "0fb7c089".to_string(),
        zone_id: "f30f108d".to_string(),
        player: "83f9ff74??".to_string(),
    }
}

#[test]
fn each_getter_parses_its_own_text() {
    let sigs = signatures();
    assert!(sigs.is_well_formed());
    assert_eq!(sigs.get_target().signature_bytes, vec![0x41, 0xbc, 0, 0, 0, 0xe0]);
    assert_eq!(sigs.get_chat_log().wildcard_ranges, Some(vec![1usize..5]));
    assert_eq!(sigs.get_mob_array().signature_bytes, vec![0x48, 0x8b, 0x42, 0x08]);
    assert_eq!(sigs.get_party_list().signature_bytes, vec![0x48, 0x8d, 0x7c, 0x24]);
    assert_eq!(sigs.get_server_time().signature_bytes, vec![0x0f, 0xb7, 0xc0, 0x89]);
    assert_eq!(sigs.get_zone_id().signature_bytes, vec![0xf3, 0x0f, 0x10, 0x8d]);
    assert_eq!(sigs.get_player().signature_bytes, vec![0x83, 0xf9, 0xff, 0x74, 0]);
    assert_eq!(sigs.get_player().wildcard_ranges, Some(vec![4usize..5]));
}

#[test]
fn check_finds_a_malformed_text() {
    let mut sigs = signatures();
    sigs.server_time = "0fb7c0?9".to_string();
    assert!(!sigs.is_well_formed());
}

#[test]
fn all_found_gives_the_map() {
    let results = ScanResults {
        target: Some(1),
        chat_log: Some(2),
        mob_array: Some(3),
        party_list: Some(4),
        server_time: Some(5),
        zone_id: Some(6),
        player: Some(7),
    };
    let map = SignatureMap {
        target: 1,
        chat_log: 2,
        mob_array: 3,
        party_list: 4,
        server_time: 5,
        zone_id: 6,
        player: 7,
    };
    assert_eq!(collect_signatures(&results), Ok(map));
    assert_eq!(missing_kinds(&results), vec![]);
    assert_eq!(map.get(SignatureType::Target), 1);
    assert_eq!(map.get(SignatureType::ChatLog), 2);
    assert_eq!(map.get(SignatureType::MobArray), 3);
    assert_eq!(map.get(SignatureType::PartyList), 4);
    assert_eq!(map.get(SignatureType::ServerTime), 5);
    assert_eq!(map.get(SignatureType::ZoneID), 6);
    assert_eq!(map.get(SignatureType::Player), 7);
}

#[test]
fn a_missing_signature_is_named() {
    let results = ScanResults {
        target: Some(1),
        chat_log: None,
        mob_array: Some(3),
        party_list: Some(4),
        server_time: None,
        zone_id: Some(6),
        player: None,
    };
    assert_eq!(
        collect_signatures(&results),
        Err(MemErrorType::FindingSignature(vec![
            SignatureType::ChatLog,
            SignatureType::ServerTime,
            SignatureType::Player
        ]))
    );
}

#[test]
fn kinds_have_their_labels() {
    assert_eq!(SignatureType::Target.label(), "[Target]");
    assert_eq!(SignatureType::ChatLog.label(), "[ChatLog]");
    assert_eq!(SignatureType::MobArray.label(), "[MobArray]");
    assert_eq!(SignatureType::PartyList.label(), "[PartyList]");
    assert_eq!(SignatureType::ServerTime.label(), "[ServerTime]");
    assert_eq!(SignatureType::ZoneID.label(), "[ZoneID]");
    assert_eq!(SignatureType::Player.label(), "[Player]");
}
