use ffxiv_act_linux::utils::{find_subsequence, in_wild_range, matches_with_wildcard};

#[test]
fn finds_a_planted_needle() {
    let mut haystack = vec![0u8; 1000];
    let needle = [0xde, 0xad, 0xbe, 0xef, 0x01];
    haystack[637..642].copy_from_slice(&needle);
    assert_eq!(find_subsequence(&haystack, &needle, None), Some(637));
    let empty = Vec::new();
    assert_eq!(find_subsequence(&haystack, &needle, Some(&empty)), Some(637));
}

#[test]
fn finds_the_leftmost_of_two() {
    let haystack = [1u8, 2, 3, 1, 2, 3, 1, 2];
    assert_eq!(find_subsequence(&haystack, &[1, 2], None), Some(0));
    assert_eq!(find_subsequence(&haystack, &[2, 3], None), Some(1));
    assert_eq!(find_subsequence(&haystack, &[3, 1, 2], None), Some(2));
    assert_eq!(find_subsequence(&haystack, &[1, 2, 3, 1, 2, 3, 1, 2], None), Some(0));
}

#[test]
fn finds_nothing_where_nothing_is() {
    let haystack = [1u8, 2, 3, 4];
    assert_eq!(find_subsequence(&haystack, &[2, 4], None), None);
    assert_eq!(find_subsequence(&haystack, &[1, 2, 3, 4, 5], None), None);
    assert_eq!(find_subsequence(&[], &[1], None), None);
}

#[test]
fn an_empty_needle_matches_at_the_start() {
    assert_eq!(find_subsequence(&[1, 2, 3], &[], None), Some(0));
    assert_eq!(find_subsequence(&[], &[], None), Some(0));
}

#[test]
fn wildcards_match_any_byte() {
    let needle = [0xe8, 0, 0, 0, 0, 0x85, 0xc0];
    let ranges = vec![1usize..5];
    let mut haystack = vec![0x11u8; 64];
    haystack[20..27].copy_from_slice(&[0xe8, 0x12, 0x34, 0x56, 0x78, 0x85, 0xc0]);
    assert_eq!(find_subsequence(&haystack, &needle, Some(&ranges)), Some(20));
    assert_eq!(find_subsequence(&haystack, &needle, None), None);
    haystack[25] = 0x86;
    assert_eq!(find_subsequence(&haystack, &needle, Some(&ranges)), None);
}

#[test]
fn wildcards_in_several_ranges() {
    let needle = [1u8, 0, 3, 0, 0, 6];
    let ranges = vec![1usize..2, 3..5];
    assert!(matches_with_wildcard(&[1, 9, 3, 8, 7, 6], &needle, &ranges));
    assert!(!matches_with_wildcard(&[1, 9, 4, 8, 7, 6], &needle, &ranges));
    assert!(!matches_with_wildcard(&[1, 9, 3, 8, 7, 5], &needle, &ranges));
    assert!(!matches_with_wildcard(&[1, 9, 3, 8, 7], &needle, &ranges));
    assert!(matches_with_wildcard(&[1, 0, 3, 0, 0, 6], &needle, &Vec::new()));
    assert!(!matches_with_wildcard(&[1, 9, 3, 0, 0, 6], &needle, &Vec::new()));
}

#[test]
fn ranges_are_half_open() {
    let ranges = vec![2usize..4, 8..9];
    let wild: Vec<usize> = (0..12).filter(|i| in_wild_range(&ranges, *i)).collect();
    assert_eq!(wild, vec![2, 3, 8]);
}
