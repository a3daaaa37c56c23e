use mc_exporter::aggregate::{
    scrape_fleet, scrape_server, DirOutcome, FileOutcome, LookupOutcome, PlayerInput,
    PlayersOutcome, ServerScrapeInput, SessionOutcome,
};
use mc_exporter::config::Server;
use mc_exporter::error::ScrapeError;

fn server(name: &str) -> Server {
    Server {
        stats_root: String::from("/data/alpha/world/stats"),
        server_name: String::from(name),
        server_ip: String::from("127.0.0.1"),
        rcon_port: 25575,
        rcon_password: String::from("secret"),
    }
}

fn steve_input() -> ServerScrapeInput {
    ServerScrapeInput {
        dir: DirOutcome::Entries(vec![100, 23]),
        session: SessionOutcome::Reply(
            b"There are 1 of a max of 20 players online: Steve".to_vec(),
        ),
        players: PlayersOutcome::Listed(vec![PlayerInput {
            identifier: b"uuid-1".to_vec(),
            lookup: LookupOutcome::Body(br#"[{"name": "Steve"}]"#.to_vec()),
            record: FileOutcome::Bytes(
                br#"{"stats":{"minecraft:mined":{"stone":5}}}"#.to_vec(),
            ),
        }]),
    }
}

fn all_failed() -> ServerScrapeInput {
    ServerScrapeInput {
        dir: DirOutcome::WalkFailed,
        session: SessionOutcome::ConnectFailed,
        players: PlayersOutcome::ListFailed,
    }
}

const ALPHA_DOCUMENT: &str = "\
#HELP minecraft_directory_size Bytes used on disk by the server installation\n\
#TYPE minecraft_directory_size gauge\n\
minecraft_directory_size{server=\"alpha\"} 123\n\
#HELP minecraft_online_player_count Players currently online\n\
#TYPE minecraft_online_player_count gauge\n\
minecraft_online_player_count{server=\"alpha\"} 1\n\
#HELP minecraft_max_players Player slots the server offers\n\
#TYPE minecraft_max_players gauge\n\
minecraft_max_players{server=\"alpha\"} 20\n\
#HELP minecraft_blocks_mined Blocks mined by the player\n\
#TYPE minecraft_blocks_mined counter\n\
minecraft_blocks_mined{server=\"alpha\",player=\"Steve\",block=\"stone\"} 5\n";

#[test]
fn end_to_end_single_server_document() {
    let servers = vec![server("alpha")];
    let inputs = vec![steve_input()];
    let (out, logs) = scrape_fleet(&servers, &inputs);
    assert_eq!(String::from_utf8(out).unwrap(), ALPHA_DOCUMENT);
    assert!(logs.is_empty());
}

#[test]
fn empty_fleet_yields_empty_document() {
    let servers: Vec<Server> = Vec::new();
    let inputs: Vec<ServerScrapeInput> = Vec::new();
    let (out, logs) = scrape_fleet(&servers, &inputs);
    assert!(out.is_empty());
    assert!(logs.is_empty());
}

#[test]
fn failed_server_leaves_other_servers_intact() {
    let servers = vec![server("alpha"), server("beta")];
    let inputs = vec![steve_input(), all_failed()];
    let (out, logs) = scrape_fleet(&servers, &inputs);
    assert_eq!(String::from_utf8(out).unwrap(), ALPHA_DOCUMENT);
    let errors: Vec<ScrapeError> = logs.iter().map(|l| l.error).collect();
    assert_eq!(
        errors,
        vec![
            ScrapeError::DirectoryWalkFailed,
            ScrapeError::ProtocolConnectFailed,
            ScrapeError::RecordIOFailed
        ]
    );
    assert!(logs.iter().all(|l| l.server == b"beta".to_vec()));
}

#[test]
fn failed_phase_leaves_sibling_phases_intact() {
    let mut input = steve_input();
    input.dir = DirOutcome::WalkFailed;
    let servers = vec![server("alpha")];
    let (out, logs) = scrape_fleet(&servers, &vec![input]);
    let text = String::from_utf8(out).unwrap();
    assert!(!text.contains("minecraft_directory_size"));
    assert!(text.contains("minecraft_online_player_count{server=\"alpha\"} 1\n"));
    assert!(text.contains("minecraft_blocks_mined{server=\"alpha\",player=\"Steve\",block=\"stone\"} 5\n"));
    assert_eq!(logs.len(), 1);
    assert_eq!(logs[0].error, ScrapeError::DirectoryWalkFailed);
}

#[test]
fn malformed_player_is_skipped_and_logged() {
    let mut input = steve_input();
    input.players = PlayersOutcome::Listed(vec![
        PlayerInput {
            identifier: b"uuid-1".to_vec(),
            lookup: LookupOutcome::Body(br#"[{"name": "Steve"}]"#.to_vec()),
            record: FileOutcome::Bytes(
                br#"{"stats":{"minecraft:mined":{"stone":5}}}"#.to_vec(),
            ),
        },
        PlayerInput {
            identifier: b"uuid-2".to_vec(),
            lookup: LookupOutcome::Body(br#"[{"name": "Alex"}]"#.to_vec()),
            record: FileOutcome::Bytes(b"this is not a record".to_vec()),
        },
    ]);
    let servers = vec![server("alpha")];
    let (out, logs) = scrape_fleet(&servers, &vec![input]);
    let text = String::from_utf8(out).unwrap();
    assert_eq!(text, ALPHA_DOCUMENT);
    assert!(!text.contains("Alex"));
    assert_eq!(logs.len(), 1);
    assert_eq!(logs[0].error, ScrapeError::DecodeFailed);
    assert_eq!(logs[0].player, Some(b"uuid-2".to_vec()));
    assert_eq!(logs[0].server, b"alpha".to_vec());
}

#[test]
fn players_grouped_by_category_across_players() {
    let mut input = steve_input();
    input.dir = DirOutcome::WalkFailed;
    input.session = SessionOutcome::CommandFailed;
    input.players = PlayersOutcome::Listed(vec![
        PlayerInput {
            identifier: b"uuid-1".to_vec(),
            lookup: LookupOutcome::Body(br#"[{"name": "Steve"}]"#.to_vec()),
            record: FileOutcome::Bytes(
                br#"{"stats":{"minecraft:mined":{"stone":5},"minecraft:dropped":{"dirt":1}},"DataVersion":1}"#
                    .to_vec(),
            ),
        },
        PlayerInput {
            identifier: b"uuid-2".to_vec(),
            lookup: LookupOutcome::Body(br#"[{"name": "Alex"}]"#.to_vec()),
            record: FileOutcome::Bytes(
                br#"{"stats":{"minecraft:mined":{"dirt":2}},"DataVersion":1}"#.to_vec(),
            ),
        },
    ]);
    let servers = vec![server("alpha")];
    let (out, logs) = scrape_fleet(&servers, &vec![input]);
    let text = String::from_utf8(out).unwrap();
    let expected = "\
#HELP minecraft_items_dropped Items dropped by the player\n\
#TYPE minecraft_items_dropped counter\n\
minecraft_items_dropped{server=\"alpha\",player=\"Steve\",item=\"dirt\"} 1\n\
#HELP minecraft_blocks_mined Blocks mined by the player\n\
#TYPE minecraft_blocks_mined counter\n\
minecraft_blocks_mined{server=\"alpha\",player=\"Steve\",block=\"stone\"} 5\n\
minecraft_blocks_mined{server=\"alpha\",player=\"Alex\",block=\"dirt\"} 2\n";
    assert_eq!(text, expected);
    assert_eq!(logs.len(), 2);
}

#[test]
fn absent_categories_emit_no_family_and_no_zero_samples() {
    let servers = vec![server("alpha")];
    let inputs = vec![steve_input()];
    let (out, _) = scrape_fleet(&servers, &inputs);
    let text = String::from_utf8(out).unwrap();
    assert!(!text.contains("minecraft_items_dropped"));
    assert!(!text.contains("minecraft_custom"));
    assert!(!text.contains("} 0\n"));
}

#[test]
fn scrape_server_matches_fleet_block() {
    let srv = server("alpha");
    let input = steve_input();
    let (families, logs) = scrape_server(&srv, &input);
    assert_eq!(families.len(), 4);
    assert!(logs.is_empty());
    assert_eq!(families[0].name, b"minecraft_directory_size".to_vec());
    assert_eq!(families[3].samples.len(), 1);
    assert_eq!(families[3].samples[0].value, 5);
}
