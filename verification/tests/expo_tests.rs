use mc_exporter::aggregate::{
    scrape_fleet, DirOutcome, PlayersOutcome, ServerScrapeInput, SessionOutcome,
};
use mc_exporter::config::Server;
use mc_exporter::expo::{render_families, MetricFamily, MetricKind, MetricSample};

fn server(name: &str) -> Server {
    Server {
        stats_root: String::from("/srv/mc/world/stats"),
        server_name: String::from(name),
        server_ip: String::from("127.0.0.1"),
        rcon_port: 25575,
        rcon_password: String::from("secret"),
    }
}

#[test]
fn renders_header_and_labeled_samples() {
    let families = vec![MetricFamily {
        name: b"example_total".to_vec(),
        help: b"An example family".to_vec(),
        kind: MetricKind::Counter,
        samples: vec![
            MetricSample {
                labels: vec![(b"server".to_vec(), b"alpha".to_vec())],
                value: 0,
            },
            MetricSample {
                labels: vec![
                    (b"server".to_vec(), b"alpha".to_vec()),
                    (b"player".to_vec(), b"Steve".to_vec()),
                ],
                value: 42,
            },
        ],
    }];
    let text = String::from_utf8(render_families(&families)).unwrap();
    let expected = "\
#HELP example_total An example family\n\
#TYPE example_total counter\n\
example_total{server=\"alpha\"} 0\n\
example_total{server=\"alpha\",player=\"Steve\"} 42\n";
    assert_eq!(text, expected);
}

#[test]
fn renders_empty_family_list_as_empty_text() {
    let families: Vec<MetricFamily> = Vec::new();
    assert!(render_families(&families).is_empty());
}

#[test]
fn directory_size_saturates_instead_of_overflowing() {
    let servers = vec![server("alpha")];
    let inputs = vec![ServerScrapeInput {
        dir: DirOutcome::Entries(vec![u64::MAX, 1, 7]),
        session: SessionOutcome::ConnectFailed,
        players: PlayersOutcome::ListFailed,
    }];
    let (out, _) = scrape_fleet(&servers, &inputs);
    let text = String::from_utf8(out).unwrap();
    assert!(text.contains("minecraft_directory_size{server=\"alpha\"} 18446744073709551615\n"));
}

#[test]
fn directory_size_sums_file_sizes() {
    let servers = vec![server("alpha")];
    let inputs = vec![ServerScrapeInput {
        dir: DirOutcome::Entries(vec![1, 2, 3, 4]),
        session: SessionOutcome::ConnectFailed,
        players: PlayersOutcome::ListFailed,
    }];
    let (out, _) = scrape_fleet(&servers, &inputs);
    let text = String::from_utf8(out).unwrap();
    assert!(text.contains("minecraft_directory_size{server=\"alpha\"} 10\n"));
}
