use mc_exporter::error::ScrapeError;
use mc_exporter::resolve::resolve_name;

#[test]
fn picks_the_most_recent_name() {
    let body = br#"[
        {"name": "Old", "changed_to_at": 100},
        {"name": "Newest", "changed_to_at": 900},
        {"name": "Middle", "changed_to_at": 500}
    ]"#
    .to_vec();
    assert_eq!(resolve_name(&body).unwrap(), b"Newest".to_vec());
}

#[test]
fn missing_timestamp_counts_as_minimum() {
    let body = br#"[
        {"name": "Undated"},
        {"name": "Dated", "changed_to_at": 1}
    ]"#
    .to_vec();
    assert_eq!(resolve_name(&body).unwrap(), b"Dated".to_vec());
}

#[test]
fn no_timestamps_at_all_still_resolves() {
    let body = br#"[{"name": "First"}, {"name": "Second"}, {"name": "Third"}]"#.to_vec();
    assert_eq!(resolve_name(&body).unwrap(), b"First".to_vec());
}

#[test]
fn tie_keeps_the_first_entry() {
    let body = br#"[
        {"name": "A", "changed_to_at": 7},
        {"name": "B", "changed_to_at": 7}
    ]"#
    .to_vec();
    assert_eq!(resolve_name(&body).unwrap(), b"A".to_vec());
}

#[test]
fn empty_history_is_lookup_empty() {
    let body = b"[]".to_vec();
    assert_eq!(resolve_name(&body).unwrap_err(), ScrapeError::LookupEmpty);
}

#[test]
fn malformed_history_is_lookup_malformed() {
    let body = b"{\"name\": \"NotAnArray\"}".to_vec();
    assert_eq!(
        resolve_name(&body).unwrap_err(),
        ScrapeError::LookupMalformed
    );
}

#[test]
fn entry_without_name_is_lookup_malformed() {
    let body = br#"[{"changed_to_at": 5}]"#.to_vec();
    assert_eq!(
        resolve_name(&body).unwrap_err(),
        ScrapeError::LookupMalformed
    );
}

#[test]
fn unknown_entry_members_are_skipped() {
    let body = br#"[{"name": "Steve", "legacy": true, "extra": {"a": [1, 2]}}]"#.to_vec();
    assert_eq!(resolve_name(&body).unwrap(), b"Steve".to_vec());
}
