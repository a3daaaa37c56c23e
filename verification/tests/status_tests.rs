use mc_exporter::error::ScrapeError;
use mc_exporter::status::{parse_status_reply, render_status_reply};

#[test]
fn parses_reply_with_names() {
    let reply = b"There are 2 of a max of 20 players online: Steve Alex".to_vec();
    let st = parse_status_reply(&reply).unwrap();
    assert_eq!(st.current, 2);
    assert_eq!(st.max, 20);
    assert_eq!(st.players, vec![b"Steve".to_vec(), b"Alex".to_vec()]);
}

#[test]
fn parses_reply_with_empty_name_list() {
    let reply = b"There are 0 of a max of 20 players online:".to_vec();
    let st = parse_status_reply(&reply).unwrap();
    assert_eq!(st.current, 0);
    assert_eq!(st.max, 20);
    assert!(st.players.is_empty());
}

#[test]
fn parses_reply_with_trailing_space_and_no_names() {
    let reply = b"There are 0 of a max of 20 players online: ".to_vec();
    let st = parse_status_reply(&reply).unwrap();
    assert_eq!(st.current, 0);
    assert_eq!(st.max, 20);
    assert!(st.players.is_empty());
}

#[test]
fn rejects_unexpected_wording() {
    let reply = b"Es sind 2 von maximal 20 Spielern online:".to_vec();
    assert_eq!(
        parse_status_reply(&reply).unwrap_err(),
        ScrapeError::ResponseUnparseable
    );
}

#[test]
fn rejects_missing_counts() {
    let reply = b"There are  of a max of 20 players online:".to_vec();
    assert_eq!(
        parse_status_reply(&reply).unwrap_err(),
        ScrapeError::ResponseUnparseable
    );
}

#[test]
fn rejects_count_too_large_for_u64() {
    let reply = b"There are 99999999999999999999 of a max of 20 players online:".to_vec();
    assert_eq!(
        parse_status_reply(&reply).unwrap_err(),
        ScrapeError::ResponseUnparseable
    );
}

#[test]
fn renders_expected_reply_text() {
    let players = vec![b"Steve".to_vec()];
    let text = render_status_reply(1, 20, &players);
    assert_eq!(text, b"There are 1 of a max of 20 players online: Steve".to_vec());
}

#[test]
fn round_trip_recovers_counts_and_names() {
    let players = vec![b"Steve".to_vec(), b"Alex".to_vec(), b"Herobrine".to_vec()];
    let text = render_status_reply(7, 100, &players);
    let st = parse_status_reply(&text).unwrap();
    assert_eq!(st.current, 7);
    assert_eq!(st.max, 100);
    assert_eq!(st.players, players);
}

#[test]
fn round_trip_with_no_players() {
    let players: Vec<Vec<u8>> = Vec::new();
    let text = render_status_reply(0, 0, &players);
    let st = parse_status_reply(&text).unwrap();
    assert_eq!(st.current, 0);
    assert_eq!(st.max, 0);
    assert!(st.players.is_empty());
}
