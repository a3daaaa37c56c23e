use mc_exporter::error::ScrapeError;
use mc_exporter::stats::decode_stats_record;

#[test]
fn decodes_single_category() {
    let bytes = br#"{"stats":{"minecraft:mined":{"stone":5}},"DataVersion":2730}"#.to_vec();
    let rec = decode_stats_record(&bytes).unwrap();
    assert_eq!(rec.data_version, Some(2730));
    assert_eq!(rec.categories.mined, Some(vec![(b"stone".to_vec(), 5)]));
    assert_eq!(rec.categories.dropped, None);
    assert_eq!(rec.categories.custom, None);
}

#[test]
fn decodes_several_categories_with_several_keys() {
    let bytes = br#"{
        "stats": {
            "minecraft:mined": {"stone": 5, "dirt": 12},
            "minecraft:killed": {"zombie": 3},
            "minecraft:custom": {"jump": 100}
        },
        "DataVersion": 3120
    }"#
    .to_vec();
    let rec = decode_stats_record(&bytes).unwrap();
    assert_eq!(
        rec.categories.mined,
        Some(vec![(b"stone".to_vec(), 5), (b"dirt".to_vec(), 12)])
    );
    assert_eq!(rec.categories.killed, Some(vec![(b"zombie".to_vec(), 3)]));
    assert_eq!(rec.categories.custom, Some(vec![(b"jump".to_vec(), 100)]));
    assert_eq!(rec.categories.crafted, None);
}

#[test]
fn empty_category_mapping_stays_empty() {
    let bytes = br#"{"stats":{"minecraft:used":{}},"DataVersion":1}"#.to_vec();
    let rec = decode_stats_record(&bytes).unwrap();
    assert_eq!(rec.categories.used, Some(Vec::new()));
}

#[test]
fn unknown_members_are_skipped() {
    let bytes = br#"{
        "extra": [1, 2, {"x": true}, null, "text"],
        "stats": {"minecraft:broken": {"pickaxe": 1}, "minecraft:something_else": {"y": 2}},
        "DataVersion": 7
    }"#
    .to_vec();
    let rec = decode_stats_record(&bytes).unwrap();
    assert_eq!(rec.categories.broken, Some(vec![(b"pickaxe".to_vec(), 1)]));
}

#[test]
fn missing_data_version_still_decodes() {
    let bytes = br#"{"stats":{"minecraft:mined":{"stone":5}}}"#.to_vec();
    let rec = decode_stats_record(&bytes).unwrap();
    assert_eq!(rec.data_version, None);
    assert_eq!(rec.categories.mined, Some(vec![(b"stone".to_vec(), 5)]));
    assert_eq!(rec.categories.dropped, None);
    assert_eq!(rec.categories.crafted, None);
    assert_eq!(rec.categories.killed, None);
    assert_eq!(rec.categories.broken, None);
    assert_eq!(rec.categories.used, None);
    assert_eq!(rec.categories.custom, None);
    assert_eq!(rec.categories.picked_up, None);
    assert_eq!(rec.categories.killed_by, None);
}

#[test]
fn skipped_members_may_hold_full_json() {
    let bytes = br#"{
        "ratio": 1.5,
        "offset": -3,
        "tiny": 6.02e-23,
        "big": 2E+10,
        "text": "a\"b\\c\nd",
        "nested": [{"x": -1.0e2, "y": "A"}],
        "stats": {"minecraft:mined": {"stone": 5}}
    }"#
    .to_vec();
    let rec = decode_stats_record(&bytes).unwrap();
    assert_eq!(rec.categories.mined, Some(vec![(b"stone".to_vec(), 5)]));
}

#[test]
fn missing_stats_member_is_schema_mismatch() {
    let bytes = br#"{"DataVersion":2730}"#.to_vec();
    assert_eq!(
        decode_stats_record(&bytes).unwrap_err(),
        ScrapeError::SchemaMismatch
    );
}

#[test]
fn malformed_text_is_decode_failed() {
    let bytes = b"{\"stats\": {".to_vec();
    assert_eq!(
        decode_stats_record(&bytes).unwrap_err(),
        ScrapeError::DecodeFailed
    );
}

#[test]
fn empty_item_key_is_decode_failed() {
    let bytes = br#"{"stats":{"minecraft:mined":{"":5}},"DataVersion":1}"#.to_vec();
    assert_eq!(
        decode_stats_record(&bytes).unwrap_err(),
        ScrapeError::DecodeFailed
    );
}

#[test]
fn trailing_garbage_is_decode_failed() {
    let bytes = br#"{"stats":{},"DataVersion":1} x"#.to_vec();
    assert_eq!(
        decode_stats_record(&bytes).unwrap_err(),
        ScrapeError::DecodeFailed
    );
}

#[test]
fn count_too_large_for_u64_is_decode_failed() {
    let bytes =
        br#"{"stats":{"minecraft:mined":{"stone":99999999999999999999}},"DataVersion":1}"#
            .to_vec();
    assert_eq!(
        decode_stats_record(&bytes).unwrap_err(),
        ScrapeError::DecodeFailed
    );
}

#[test]
fn repeated_category_keeps_the_last_mapping() {
    let bytes =
        br#"{"stats":{"minecraft:mined":{"stone":1},"minecraft:mined":{"dirt":2}},"DataVersion":1}"#
            .to_vec();
    let rec = decode_stats_record(&bytes).unwrap();
    assert_eq!(rec.categories.mined, Some(vec![(b"dirt".to_vec(), 2)]));
}
