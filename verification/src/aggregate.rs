//! The per-server and fleet aggregators: given what the outside world
//! handed back for each phase of a scrape, decide which metric
//! families appear, in which order, and which failures are logged.
//!
//! The three phases of one server (directory size, live session,
//! player loop) are isolated from one another, every player is
//! isolated from every other player, and every server is isolated
//! from every other server: a failure anywhere degrades exactly its
//! own samples and adds one log entry.

use vstd::prelude::*;
use vstd::string::*;
use vstd::utf8::encode_utf8;
use crate::config::Server;
use crate::error::ScrapeError;
use crate::expo::{
    families_text, families_view, family_view, labels_view, sample_view, samples_view,
    render_families, FamilyView, MetricFamily, MetricKind, MetricSample, SampleView,
};
use crate::resolve::{best_idx, history_parse, resolve_name};
use crate::stats::{
    cat_of_key, decode_stats_record, record_decode, record_view, table_field, table_view,
    CategoryTable, PlayerStatsRecord, RecordView, StatCategory,
};
use crate::status::{parse_status_reply, status_parse};
use crate::text::{bytes_eq, copy_range, push_bytes};

verus! {

/// What the directory-size phase handed back: the byte length of
/// every regular file under the server installation, or a failed
/// walk.  A failed walk reports no partial sum.
#[derive(Debug)]
pub enum DirOutcome {
    Entries(Vec<u64>),
    WalkFailed,
}

/// What the live-session phase handed back: the raw status reply, or
/// the stage at which the exchange failed.
#[derive(Debug)]
pub enum SessionOutcome {
    Reply(Vec<u8>),
    ConnectFailed,
    CommandFailed,
}

/// One player's record file: its bytes, or a failed read.
#[derive(Debug)]
pub enum FileOutcome {
    Bytes(Vec<u8>),
    ReadFailed,
}

/// One player's name-history lookup: the reply body, or a failed
/// call.
#[derive(Debug)]
pub enum LookupOutcome {
    Body(Vec<u8>),
    NetFailed,
}

/// Everything gathered for one player, in directory-iteration order.
#[derive(Debug)]
pub struct PlayerInput {
    pub identifier: Vec<u8>,
    pub lookup: LookupOutcome,
    pub record: FileOutcome,
}

/// The player list of one server, or a stats directory that could not
/// be listed at all.
#[derive(Debug)]
pub enum PlayersOutcome {
    Listed(Vec<PlayerInput>),
    ListFailed,
}

/// Everything gathered for one server's scrape.
#[derive(Debug)]
pub struct ServerScrapeInput {
    pub dir: DirOutcome,
    pub session: SessionOutcome,
    pub players: PlayersOutcome,
}

/// One recovered failure, reported to the caller for logging.
#[derive(Debug)]
pub struct ScrapeLogEntry {
    pub server: Vec<u8>,
    pub player: Option<Vec<u8>>,
    pub error: ScrapeError,
}

/// What one log entry states.
pub ghost struct LogView {
    pub server: Seq<u8>,
    pub player: Option<Seq<u8>>,
    pub error: ScrapeError,
}

/// The view of one log entry.
pub open spec fn log_view(e: ScrapeLogEntry) -> LogView {
    LogView {
        server: e.server@,
        player: match e.player {
            Some(p) => Some(p@),
            None => None,
        },
        error: e.error,
    }
}

/// The view of a log list.
pub open spec fn logs_view(s: Seq<ScrapeLogEntry>) -> Seq<LogView> {
    s.map_values(|e: ScrapeLogEntry| log_view(e))
}

/// The UTF-8 bytes of a configuration string.
pub open spec fn string_bytes(s: String) -> Seq<u8> {
    encode_utf8(s@)
}

/// A configuration string as bytes.
pub fn string_to_bytes(s: &String) -> (v: Vec<u8>)
    ensures
        v@ == string_bytes(*s),
{
    s.as_str().as_bytes_vec()
}

/// Copies a byte vector.
pub fn clone_bytes(v: &Vec<u8>) -> (r: Vec<u8>)
    ensures
        r@ == v@,
{
    let r = copy_range(v, 0, v.len());
    assert(v@.subrange(0, v@.len() as int) =~= v@);
    r
}

/// The sum of the given sizes, saturating at the largest
/// representable value.
pub open spec fn sum_sat(s: Seq<u64>) -> u64
    decreases s.len(),
{
    if s.len() == 0 {
        0u64
    } else {
        let rest = sum_sat(s.drop_last());
        if rest + s.last() > u64::MAX {
            u64::MAX
        } else {
            (rest + s.last()) as u64
        }
    }
}

/// Sums the collected file sizes, saturating instead of overflowing.
pub fn sum_sizes(v: &Vec<u64>) -> (r: u64)
    ensures
        r == sum_sat(v@),
{
    let mut acc: u64 = 0;
    let mut i: usize = 0;
    while i < v.len()
        invariant
            i <= v@.len(),
            acc == sum_sat(v@.take(i as int)),
        decreases v@.len() - i,
    {
        proof {
            assert(v@.take(i + 1).drop_last() =~= v@.take(i as int));
            assert(v@.take(i + 1).last() == v@[i as int]);
        }
        let x = v[i];
        if acc > u64::MAX - x {
            acc = u64::MAX;
        } else {
            acc = acc + x;
        }
        i = i + 1;
    }
    assert(v@.take(v@.len() as int) =~= v@);
    acc
}

/// The single label set of a server-scoped sample.
pub open spec fn server_label(name: Seq<u8>) -> Seq<(Seq<u8>, Seq<u8>)> {
    seq![(("server").spec_bytes(), name)]
}

/// The label set of a player-scoped sample: server, player, and the
/// category-specific key label.
pub open spec fn player_labels(
    name: Seq<u8>,
    player: Seq<u8>,
    label_key: Seq<u8>,
    key: Seq<u8>,
) -> Seq<(Seq<u8>, Seq<u8>)> {
    seq![(("server").spec_bytes(), name), (("player").spec_bytes(), player), (label_key, key)]
}

/// The family name of a category.
pub open spec fn fam_name(c: StatCategory) -> Seq<u8> {
    match c {
        StatCategory::Dropped => ("minecraft_items_dropped").spec_bytes(),
        StatCategory::Crafted => ("minecraft_items_crafted").spec_bytes(),
        StatCategory::Killed => ("minecraft_entities_killed").spec_bytes(),
        StatCategory::Broken => ("minecraft_blocks_broken").spec_bytes(),
        StatCategory::Used => ("minecraft_items_used").spec_bytes(),
        StatCategory::Mined => ("minecraft_blocks_mined").spec_bytes(),
        StatCategory::Custom => ("minecraft_custom").spec_bytes(),
        StatCategory::PickedUp => ("minecraft_items_picked_up").spec_bytes(),
        StatCategory::KilledBy => ("minecraft_entities_killed_by").spec_bytes(),
    }
}

/// The kind of a category's family.  `minecraft_custom` mixes gauges
/// and counters at the source, so it is exported as a gauge; every
/// other category counts monotonically.
pub open spec fn fam_kind(c: StatCategory) -> MetricKind {
    match c {
        StatCategory::Custom => MetricKind::Gauge,
        _ => MetricKind::Counter,
    }
}

/// The key label of a category's samples: `item`, `entity` or
/// `block`.
pub open spec fn fam_label(c: StatCategory) -> Seq<u8> {
    match c {
        StatCategory::Dropped => ("item").spec_bytes(),
        StatCategory::Crafted => ("item").spec_bytes(),
        StatCategory::Killed => ("entity").spec_bytes(),
        StatCategory::Broken => ("block").spec_bytes(),
        StatCategory::Used => ("item").spec_bytes(),
        StatCategory::Mined => ("block").spec_bytes(),
        StatCategory::Custom => ("item").spec_bytes(),
        StatCategory::PickedUp => ("item").spec_bytes(),
        StatCategory::KilledBy => ("entity").spec_bytes(),
    }
}

/// The static help text of a category's family.
pub open spec fn fam_help(c: StatCategory) -> Seq<u8> {
    match c {
        StatCategory::Dropped => ("Items dropped by the player").spec_bytes(),
        StatCategory::Crafted => ("Items crafted by the player").spec_bytes(),
        StatCategory::Killed => ("Entities killed by the player").spec_bytes(),
        StatCategory::Broken => ("Items broken by the player").spec_bytes(),
        StatCategory::Used => ("Items used by the player").spec_bytes(),
        StatCategory::Mined => ("Blocks mined by the player").spec_bytes(),
        StatCategory::Custom => ("Miscellaneous per-player statistics").spec_bytes(),
        StatCategory::PickedUp => ("Items picked up by the player").spec_bytes(),
        StatCategory::KilledBy => ("Entities the player was killed by").spec_bytes(),
    }
}

/// The help text of the directory-size family.
pub open spec fn dir_help() -> Seq<u8> {
    ("Bytes used on disk by the server installation").spec_bytes()
}

/// The name of the directory-size family.
pub open spec fn dir_fam_name() -> Seq<u8> {
    ("minecraft_directory_size").spec_bytes()
}

/// The name of the online-player-count family.
pub open spec fn online_fam_name() -> Seq<u8> {
    ("minecraft_online_player_count").spec_bytes()
}

/// The help text of the online-player-count family.
pub open spec fn online_help() -> Seq<u8> {
    ("Players currently online").spec_bytes()
}

/// The name of the player-slot family.
pub open spec fn max_fam_name() -> Seq<u8> {
    ("minecraft_max_players").spec_bytes()
}

/// The help text of the player-slot family.
pub open spec fn max_help() -> Seq<u8> {
    ("Player slots the server offers").spec_bytes()
}

/// The families the directory-size phase contributes.
pub open spec fn dir_families(name: Seq<u8>, d: DirOutcome) -> Seq<FamilyView> {
    match d {
        DirOutcome::Entries(v) => seq![
            FamilyView {
                name: dir_fam_name(),
                help: dir_help(),
                kind: MetricKind::Gauge,
                samples: seq![SampleView { labels: server_label(name), value: sum_sat(v@) }],
            },
        ],
        DirOutcome::WalkFailed => Seq::empty(),
    }
}

/// The log entries the directory-size phase contributes.
pub open spec fn dir_errors(name: Seq<u8>, d: DirOutcome) -> Seq<LogView> {
    match d {
        DirOutcome::Entries(v) => Seq::empty(),
        DirOutcome::WalkFailed => seq![
            LogView { server: name, player: None, error: ScrapeError::DirectoryWalkFailed },
        ],
    }
}

/// The two counts a parseable status reply carries, when both fit.
pub open spec fn session_counts(bytes: Seq<u8>) -> Option<(u64, u64)> {
    match status_parse(bytes) {
        Some(v) => {
            if v.current <= u64::MAX && v.max <= u64::MAX {
                Some(((v.current as u64), (v.max as u64)))
            } else {
                None
            }
        },
        None => None,
    }
}

/// The families the live-session phase contributes.
pub open spec fn session_families(name: Seq<u8>, s: SessionOutcome) -> Seq<FamilyView> {
    match s {
        SessionOutcome::Reply(b) => match session_counts(b@) {
            Some(c) => seq![
                FamilyView {
                    name: online_fam_name(),
                    help: online_help(),
                    kind: MetricKind::Gauge,
                    samples: seq![SampleView { labels: server_label(name), value: c.0 }],
                },
                FamilyView {
                    name: max_fam_name(),
                    help: max_help(),
                    kind: MetricKind::Gauge,
                    samples: seq![SampleView { labels: server_label(name), value: c.1 }],
                },
            ],
            None => Seq::empty(),
        },
        _ => Seq::empty(),
    }
}

/// The log entries the live-session phase contributes.
pub open spec fn session_errors(name: Seq<u8>, s: SessionOutcome) -> Seq<LogView> {
    match s {
        SessionOutcome::Reply(b) => match session_counts(b@) {
            Some(c) => Seq::empty(),
            None => seq![
                LogView { server: name, player: None, error: ScrapeError::ResponseUnparseable },
            ],
        },
        SessionOutcome::ConnectFailed => seq![
            LogView { server: name, player: None, error: ScrapeError::ProtocolConnectFailed },
        ],
        SessionOutcome::CommandFailed => seq![
            LogView { server: name, player: None, error: ScrapeError::ProtocolCommandFailed },
        ],
    }
}

/// What one player's inputs yield: a display name and a decoded
/// record, or the first error along the way.  The name is resolved
/// first, as the collection order has it.
pub open spec fn player_result(p: PlayerInput) -> Result<(Seq<u8>, RecordView), ScrapeError> {
    match p.lookup {
        LookupOutcome::NetFailed => Err(ScrapeError::LookupFailed),
        LookupOutcome::Body(b) => match history_parse(b@) {
            None => Err(ScrapeError::LookupMalformed),
            Some(entries) => {
                if entries.len() == 0 {
                    Err(ScrapeError::LookupEmpty)
                } else {
                    let name = entries[best_idx(entries)].0;
                    match p.record {
                        FileOutcome::ReadFailed => Err(ScrapeError::RecordIOFailed),
                        FileOutcome::Bytes(rb) => match record_decode(rb@) {
                            Ok(rec) => Ok((name, rec)),
                            Err(e) => Err(e),
                        },
                    }
                }
            },
        },
    }
}

/// The players that resolved and decoded, in order, failures skipped.
pub open spec fn resolved_from(ps: Seq<PlayerInput>, i: int) -> Seq<(Seq<u8>, RecordView)>
    decreases ps.len() - i,
{
    if 0 <= i < ps.len() {
        match player_result(ps[i]) {
            Ok(pr) => seq![pr] + resolved_from(ps, i + 1),
            Err(e) => resolved_from(ps, i + 1),
        }
    } else {
        Seq::empty()
    }
}

/// The per-player log entries, in order.
pub open spec fn player_errs_from(name: Seq<u8>, ps: Seq<PlayerInput>, i: int) -> Seq<LogView>
    decreases ps.len() - i,
{
    if 0 <= i < ps.len() {
        match player_result(ps[i]) {
            Ok(pr) => player_errs_from(name, ps, i + 1),
            Err(e) => seq![LogView { server: name, player: Some(ps[i].identifier@), error: e }]
                + player_errs_from(name, ps, i + 1),
        }
    } else {
        Seq::empty()
    }
}

/// The samples one entry list yields for one player and category.
pub open spec fn entry_samples_spec(
    name: Seq<u8>,
    player: Seq<u8>,
    c: StatCategory,
    es: Seq<(Seq<u8>, u64)>,
) -> Seq<SampleView> {
    es.map_values(
        |en: (Seq<u8>, u64)|
            SampleView { labels: player_labels(name, player, fam_label(c), en.0), value: en.1 },
    )
}

/// The samples one resolved player contributes to one category: one
/// per key of the category's mapping, none when the category is
/// absent.
pub open spec fn cat_samples_of(
    name: Seq<u8>,
    pr: (Seq<u8>, RecordView),
    c: StatCategory,
) -> Seq<SampleView> {
    if pr.1.categories.dom().contains(c) {
        entry_samples_spec(name, pr.0, c, pr.1.categories[c])
    } else {
        Seq::empty()
    }
}

/// The samples of one category over all resolved players, in player
/// order.
pub open spec fn cat_samples_from(
    name: Seq<u8>,
    players: Seq<(Seq<u8>, RecordView)>,
    i: int,
    c: StatCategory,
) -> Seq<SampleView>
    decreases players.len() - i,
{
    if 0 <= i < players.len() {
        cat_samples_of(name, players[i], c) + cat_samples_from(name, players, i + 1, c)
    } else {
        Seq::empty()
    }
}

/// One category's family block: present exactly when it has samples.
pub open spec fn cat_family(
    name: Seq<u8>,
    players: Seq<(Seq<u8>, RecordView)>,
    c: StatCategory,
) -> Seq<FamilyView> {
    let ss = cat_samples_from(name, players, 0, c);
    if ss.len() == 0 {
        Seq::empty()
    } else {
        seq![FamilyView { name: fam_name(c), help: fam_help(c), kind: fam_kind(c), samples: ss }]
    }
}

/// The player-phase families: the nine categories in their fixed
/// order, each grouping all players' samples.
pub open spec fn player_families(name: Seq<u8>, players: Seq<(Seq<u8>, RecordView)>) -> Seq<
    FamilyView,
> {
    cat_family(name, players, StatCategory::Dropped) + cat_family(
        name,
        players,
        StatCategory::Crafted,
    ) + cat_family(name, players, StatCategory::Killed) + cat_family(
        name,
        players,
        StatCategory::Broken,
    ) + cat_family(name, players, StatCategory::Used) + cat_family(
        name,
        players,
        StatCategory::Mined,
    ) + cat_family(name, players, StatCategory::Custom) + cat_family(
        name,
        players,
        StatCategory::PickedUp,
    ) + cat_family(name, players, StatCategory::KilledBy)
}

/// The families the player phase contributes.
pub open spec fn players_families(name: Seq<u8>, po: PlayersOutcome) -> Seq<FamilyView> {
    match po {
        PlayersOutcome::Listed(ps) => player_families(name, resolved_from(ps@, 0)),
        PlayersOutcome::ListFailed => Seq::empty(),
    }
}

/// The log entries the player phase contributes.
pub open spec fn players_errors(name: Seq<u8>, po: PlayersOutcome) -> Seq<LogView> {
    match po {
        PlayersOutcome::Listed(ps) => player_errs_from(name, ps@, 0),
        PlayersOutcome::ListFailed => seq![
            LogView { server: name, player: None, error: ScrapeError::RecordIOFailed },
        ],
    }
}

/// Every family one server contributes, phases in their fixed order.
pub open spec fn server_families(server: Server, input: ServerScrapeInput) -> Seq<FamilyView> {
    let name = string_bytes(server.server_name);
    dir_families(name, input.dir) + session_families(name, input.session) + players_families(
        name,
        input.players,
    )
}

/// Every log entry one server contributes.
pub open spec fn server_errors(server: Server, input: ServerScrapeInput) -> Seq<LogView> {
    let name = string_bytes(server.server_name);
    dir_errors(name, input.dir) + session_errors(name, input.session) + players_errors(
        name,
        input.players,
    )
}

/// The rendered text block of one server.
pub open spec fn server_text(server: Server, input: ServerScrapeInput) -> Seq<u8> {
    families_text(server_families(server, input))
}

/// The fleet document from server `i` on: one block per server, in
/// configuration order.
pub open spec fn fleet_text_from(
    servers: Seq<Server>,
    inputs: Seq<ServerScrapeInput>,
    i: int,
) -> Seq<u8>
    decreases servers.len() - i,
{
    if 0 <= i < servers.len() && servers.len() == inputs.len() {
        server_text(servers[i], inputs[i]) + fleet_text_from(servers, inputs, i + 1)
    } else {
        Seq::empty()
    }
}

/// The whole fleet document.
pub open spec fn fleet_text(servers: Seq<Server>, inputs: Seq<ServerScrapeInput>) -> Seq<u8> {
    fleet_text_from(servers, inputs, 0)
}

/// The fleet log from server `i` on.
pub open spec fn fleet_errors_from(
    servers: Seq<Server>,
    inputs: Seq<ServerScrapeInput>,
    i: int,
) -> Seq<LogView>
    decreases servers.len() - i,
{
    if 0 <= i < servers.len() && servers.len() == inputs.len() {
        server_errors(servers[i], inputs[i]) + fleet_errors_from(servers, inputs, i + 1)
    } else {
        Seq::empty()
    }
}

/// The whole fleet log.
pub open spec fn fleet_errors(servers: Seq<Server>, inputs: Seq<ServerScrapeInput>) -> Seq<
    LogView,
> {
    fleet_errors_from(servers, inputs, 0)
}

fn server_label_vec(name: &Vec<u8>) -> (ls: Vec<(Vec<u8>, Vec<u8>)>)
    ensures
        labels_view(ls@) == server_label(name@),
{
    let mut ls: Vec<(Vec<u8>, Vec<u8>)> = Vec::new();
    ls.push((("server").as_bytes_vec(), clone_bytes(name)));
    assert(labels_view(ls@) =~= server_label(name@));
    ls
}

/// Builds a family of one server-labeled sample.
fn single_sample_family(
    fname: Vec<u8>,
    help: Vec<u8>,
    kind: MetricKind,
    name: &Vec<u8>,
    value: u64,
) -> (f: MetricFamily)
    ensures
        family_view(f) == (FamilyView {
            name: fname@,
            help: help@,
            kind,
            samples: seq![SampleView { labels: server_label(name@), value }],
        }),
{
    let labels = server_label_vec(name);
    let mut samples: Vec<MetricSample> = Vec::new();
    samples.push(MetricSample { labels, value });
    let f = MetricFamily { name: fname, help, kind, samples };
    proof {
        assert(samples_view(f.samples@) =~= seq![
            SampleView { labels: server_label(name@), value },
        ]);
    }
    f
}

fn dir_phase(name: &Vec<u8>, d: &DirOutcome) -> (r: (Vec<MetricFamily>, Vec<ScrapeLogEntry>))
    ensures
        families_view(r.0@) == dir_families(name@, *d),
        logs_view(r.1@) == dir_errors(name@, *d),
{
    let mut families: Vec<MetricFamily> = Vec::new();
    let mut logs: Vec<ScrapeLogEntry> = Vec::new();
    match d {
        DirOutcome::Entries(v) => {
            let total = sum_sizes(v);
            let f = single_sample_family(
                ("minecraft_directory_size").as_bytes_vec(),
                ("Bytes used on disk by the server installation").as_bytes_vec(),
                MetricKind::Gauge,
                name,
                total,
            );
            families.push(f);
            assert(families_view(families@) =~= dir_families(name@, *d));
        },
        DirOutcome::WalkFailed => {
            logs.push(
                ScrapeLogEntry {
                    server: clone_bytes(name),
                    player: None,
                    error: ScrapeError::DirectoryWalkFailed,
                },
            );
            assert(logs_view(logs@) =~= dir_errors(name@, *d));
        },
    }
    assert(families_view(families@) =~= dir_families(name@, *d));
    assert(logs_view(logs@) =~= dir_errors(name@, *d));
    (families, logs)
}

fn session_phase(name: &Vec<u8>, s: &SessionOutcome) -> (r: (Vec<MetricFamily>, Vec<
    ScrapeLogEntry,
>))
    ensures
        families_view(r.0@) == session_families(name@, *s),
        logs_view(r.1@) == session_errors(name@, *s),
{
    let mut families: Vec<MetricFamily> = Vec::new();
    let mut logs: Vec<ScrapeLogEntry> = Vec::new();
    match s {
        SessionOutcome::Reply(bytes) => match parse_status_reply(bytes) {
            Ok(st) => {
                let f1 = single_sample_family(
                    ("minecraft_online_player_count").as_bytes_vec(),
                    ("Players currently online").as_bytes_vec(),
                    MetricKind::Gauge,
                    name,
                    st.current,
                );
                families.push(f1);
                let f2 = single_sample_family(
                    ("minecraft_max_players").as_bytes_vec(),
                    ("Player slots the server offers").as_bytes_vec(),
                    MetricKind::Gauge,
                    name,
                    st.max,
                );
                families.push(f2);
                assert(families_view(families@) =~= session_families(name@, *s));
            },
            Err(e) => {
                logs.push(
                    ScrapeLogEntry {
                        server: clone_bytes(name),
                        player: None,
                        error: ScrapeError::ResponseUnparseable,
                    },
                );
                assert(logs_view(logs@) =~= session_errors(name@, *s));
            },
        },
        SessionOutcome::ConnectFailed => {
            logs.push(
                ScrapeLogEntry {
                    server: clone_bytes(name),
                    player: None,
                    error: ScrapeError::ProtocolConnectFailed,
                },
            );
            assert(logs_view(logs@) =~= session_errors(name@, *s));
        },
        SessionOutcome::CommandFailed => {
            logs.push(
                ScrapeLogEntry {
                    server: clone_bytes(name),
                    player: None,
                    error: ScrapeError::ProtocolCommandFailed,
                },
            );
            assert(logs_view(logs@) =~= session_errors(name@, *s));
        },
    }
    assert(families_view(families@) =~= session_families(name@, *s));
    assert(logs_view(logs@) =~= session_errors(name@, *s));
    (families, logs)
}

/// Resolves and decodes one player's inputs, name first.
fn eval_player(p: &PlayerInput) -> (r: Result<(Vec<u8>, PlayerStatsRecord), ScrapeError>)
    ensures
        match r {
            Ok(pr) => player_result(*p) == Ok::<(Seq<u8>, RecordView), ScrapeError>(
                (pr.0@, record_view(pr.1)),
            ),
            Err(e) => player_result(*p) == Err::<(Seq<u8>, RecordView), ScrapeError>(e),
        },
{
    match &p.lookup {
        LookupOutcome::NetFailed => Err(ScrapeError::LookupFailed),
        LookupOutcome::Body(b) => match resolve_name(b) {
            Ok(name) => match &p.record {
                FileOutcome::ReadFailed => Err(ScrapeError::RecordIOFailed),
                FileOutcome::Bytes(rb) => match decode_stats_record(rb) {
                    Ok(rec) => Ok((name, rec)),
                    Err(e) => Err(e),
                },
            },
            Err(e) => Err(e),
        },
    }
}

/// The view of a resolved-player list.
pub open spec fn rp_view(s: Seq<(Vec<u8>, PlayerStatsRecord)>) -> Seq<(Seq<u8>, RecordView)> {
    s.map_values(|p: (Vec<u8>, PlayerStatsRecord)| (p.0@, record_view(p.1)))
}

fn collect_players(name: &Vec<u8>, ps: &Vec<PlayerInput>, i: usize) -> (r: (Vec<
    (Vec<u8>, PlayerStatsRecord),
>, Vec<ScrapeLogEntry>))
    requires
        i <= ps@.len(),
    ensures
        rp_view(r.0@) == resolved_from(ps@, i as int),
        logs_view(r.1@) == player_errs_from(name@, ps@, i as int),
    decreases ps@.len() - i,
{
    if i < ps.len() {
        match eval_player(&ps[i]) {
            Ok(pr) => {
                let (mut rest, logs) = collect_players(name, ps, i + 1);
                let ghost pre = rest@;
                let ghost pr_g = pr;
                rest.insert(0, pr);
                assert(rp_view(rest@) =~= seq![(pr_g.0@, record_view(pr_g.1))] + rp_view(pre));
                (rest, logs)
            },
            Err(e) => {
                let (rest, mut logs) = collect_players(name, ps, i + 1);
                let ghost prelogs = logs@;
                let entry = ScrapeLogEntry {
                    server: clone_bytes(name),
                    player: Some(clone_bytes(&ps[i].identifier)),
                    error: e,
                };
                let ghost entry_g = entry;
                logs.insert(0, entry);
                assert(logs_view(logs@) =~= seq![log_view(entry_g)] + logs_view(prelogs));
                (rest, logs)
            },
        }
    } else {
        let r0: Vec<(Vec<u8>, PlayerStatsRecord)> = Vec::new();
        let r1: Vec<ScrapeLogEntry> = Vec::new();
        assert(rp_view(r0@) =~= Seq::<(Seq<u8>, RecordView)>::empty());
        assert(logs_view(r1@) =~= Seq::<LogView>::empty());
        (r0, r1)
    }
}

/// The entry list of one category, by reference.
fn get_category<'a>(t: &'a CategoryTable, c: StatCategory) -> (r: &'a Option<
    Vec<(Vec<u8>, u64)>,
>)
    ensures
        *r == table_field(*t, c),
{
    match c {
        StatCategory::Dropped => &t.dropped,
        StatCategory::Crafted => &t.crafted,
        StatCategory::Killed => &t.killed,
        StatCategory::Broken => &t.broken,
        StatCategory::Used => &t.used,
        StatCategory::Mined => &t.mined,
        StatCategory::Custom => &t.custom,
        StatCategory::PickedUp => &t.picked_up,
        StatCategory::KilledBy => &t.killed_by,
    }
}

/// The key label of a category, as bytes.
fn fam_label_vec(c: StatCategory) -> (v: Vec<u8>)
    ensures
        v@ == fam_label(c),
{
    match c {
        StatCategory::Dropped => ("item").as_bytes_vec(),
        StatCategory::Crafted => ("item").as_bytes_vec(),
        StatCategory::Killed => ("entity").as_bytes_vec(),
        StatCategory::Broken => ("block").as_bytes_vec(),
        StatCategory::Used => ("item").as_bytes_vec(),
        StatCategory::Mined => ("block").as_bytes_vec(),
        StatCategory::Custom => ("item").as_bytes_vec(),
        StatCategory::PickedUp => ("item").as_bytes_vec(),
        StatCategory::KilledBy => ("entity").as_bytes_vec(),
    }
}

fn fam_name_vec(c: StatCategory) -> (v: Vec<u8>)
    ensures
        v@ == fam_name(c),
{
    match c {
        StatCategory::Dropped => ("minecraft_items_dropped").as_bytes_vec(),
        StatCategory::Crafted => ("minecraft_items_crafted").as_bytes_vec(),
        StatCategory::Killed => ("minecraft_entities_killed").as_bytes_vec(),
        StatCategory::Broken => ("minecraft_blocks_broken").as_bytes_vec(),
        StatCategory::Used => ("minecraft_items_used").as_bytes_vec(),
        StatCategory::Mined => ("minecraft_blocks_mined").as_bytes_vec(),
        StatCategory::Custom => ("minecraft_custom").as_bytes_vec(),
        StatCategory::PickedUp => ("minecraft_items_picked_up").as_bytes_vec(),
        StatCategory::KilledBy => ("minecraft_entities_killed_by").as_bytes_vec(),
    }
}

fn fam_help_vec(c: StatCategory) -> (v: Vec<u8>)
    ensures
        v@ == fam_help(c),
{
    match c {
        StatCategory::Dropped => ("Items dropped by the player").as_bytes_vec(),
        StatCategory::Crafted => ("Items crafted by the player").as_bytes_vec(),
        StatCategory::Killed => ("Entities killed by the player").as_bytes_vec(),
        StatCategory::Broken => ("Items broken by the player").as_bytes_vec(),
        StatCategory::Used => ("Items used by the player").as_bytes_vec(),
        StatCategory::Mined => ("Blocks mined by the player").as_bytes_vec(),
        StatCategory::Custom => ("Miscellaneous per-player statistics").as_bytes_vec(),
        StatCategory::PickedUp => ("Items picked up by the player").as_bytes_vec(),
        StatCategory::KilledBy => ("Entities the player was killed by").as_bytes_vec(),
    }
}

fn fam_kind_exec(c: StatCategory) -> (k: MetricKind)
    ensures
        k == fam_kind(c),
{
    match c {
        StatCategory::Custom => MetricKind::Gauge,
        _ => MetricKind::Counter,
    }
}

fn entry_samples(
    name: &Vec<u8>,
    player: &Vec<u8>,
    c: StatCategory,
    entries: &Vec<(Vec<u8>, u64)>,
    j: usize,
) -> (r: Vec<MetricSample>)
    requires
        j <= entries@.len(),
    ensures
        samples_view(r@) == entry_samples_spec(
            name@,
            player@,
            c,
            crate::stats::entries_view(entries@).skip(j as int),
        ),
    decreases entries@.len() - j,
{
    let ghost tail = crate::stats::entries_view(entries@).skip(j as int);
    if j < entries.len() {
        let mut labels: Vec<(Vec<u8>, Vec<u8>)> = Vec::new();
        labels.push((("server").as_bytes_vec(), clone_bytes(name)));
        labels.push((("player").as_bytes_vec(), clone_bytes(player)));
        labels.push((fam_label_vec(c), clone_bytes(&entries[j].0)));
        assert(labels_view(labels@) =~= player_labels(
            name@,
            player@,
            fam_label(c),
            entries@[j as int].0@,
        ));
        let sample = MetricSample { labels, value: entries[j].1 };
        let ghost sample_g = sample;
        let mut rest = entry_samples(name, player, c, entries, j + 1);
        let ghost pre = rest@;
        rest.insert(0, sample);
        proof {
            assert(tail[0] == (entries@[j as int].0@, entries@[j as int].1));
            assert(tail.skip(1) =~= crate::stats::entries_view(entries@).skip(j + 1));
            assert(samples_view(rest@) =~= seq![sample_view(sample_g)] + samples_view(pre));
            assert(samples_view(rest@) =~= entry_samples_spec(name@, player@, c, tail));
        }
        rest
    } else {
        let r: Vec<MetricSample> = Vec::new();
        assert(samples_view(r@) =~= entry_samples_spec(name@, player@, c, tail));
        r
    }
}

fn cat_samples_exec(
    name: &Vec<u8>,
    players: &Vec<(Vec<u8>, PlayerStatsRecord)>,
    i: usize,
    c: StatCategory,
) -> (r: Vec<MetricSample>)
    requires
        i <= players@.len(),
    ensures
        samples_view(r@) == cat_samples_from(name@, rp_view(players@), i as int, c),
    decreases players@.len() - i,
{
    if i < players.len() {
        let rest = cat_samples_exec(name, players, i + 1, c);
        match get_category(&players[i].1.categories, c) {
            Some(entries) => {
                proof {
                    assert(table_view(players@[i as int].1.categories).dom().contains(c));
                    assert(table_view(players@[i as int].1.categories)[c]
                        == crate::stats::entries_view(entries@));
                }
                let mut part = entry_samples(name, &players[i].0, c, entries, 0);
                let ghost part_pre = part@;
                let mut rest2 = rest;
                let ghost rest_pre = rest2@;
                part.append(&mut rest2);
                proof {
                    assert(crate::stats::entries_view(entries@).skip(0)
                        =~= crate::stats::entries_view(entries@));
                    assert(samples_view(part@) =~= samples_view(part_pre) + samples_view(
                        rest_pre,
                    ));
                    assert(samples_view(part@) =~= cat_samples_from(
                        name@,
                        rp_view(players@),
                        i as int,
                        c,
                    ));
                }
                part
            },
            None => {
                proof {
                    assert(!table_view(players@[i as int].1.categories).dom().contains(c));
                    assert(samples_view(rest@) =~= cat_samples_from(
                        name@,
                        rp_view(players@),
                        i as int,
                        c,
                    ));
                }
                rest
            },
        }
    } else {
        let r: Vec<MetricSample> = Vec::new();
        assert(samples_view(r@) =~= cat_samples_from(name@, rp_view(players@), i as int, c));
        r
    }
}

fn cat_family_exec(
    name: &Vec<u8>,
    players: &Vec<(Vec<u8>, PlayerStatsRecord)>,
    c: StatCategory,
) -> (r: Vec<MetricFamily>)
    ensures
        families_view(r@) == cat_family(name@, rp_view(players@), c),
{
    let ss = cat_samples_exec(name, players, 0, c);
    let mut r: Vec<MetricFamily> = Vec::new();
    if ss.len() > 0 {
        proof {
            assert(samples_view(ss@).len() == ss@.len());
        }
        let f = MetricFamily {
            name: fam_name_vec(c),
            help: fam_help_vec(c),
            kind: fam_kind_exec(c),
            samples: ss,
        };
        r.push(f);
        assert(families_view(r@) =~= cat_family(name@, rp_view(players@), c));
    } else {
        proof {
            assert(samples_view(ss@).len() == ss@.len());
        }
        assert(families_view(r@) =~= cat_family(name@, rp_view(players@), c));
    }
    r
}

#[verifier::rlimit(50)]
fn players_phase(name: &Vec<u8>, po: &PlayersOutcome) -> (r: (Vec<MetricFamily>, Vec<
    ScrapeLogEntry,
>))
    ensures
        families_view(r.0@) == players_families(name@, *po),
        logs_view(r.1@) == players_errors(name@, *po),
{
    match po {
        PlayersOutcome::Listed(ps) => {
            let (resolved, logs) = collect_players(name, ps, 0);
            let ghost rp = rp_view(resolved@);
            let mut families = cat_family_exec(name, &resolved, StatCategory::Dropped);
            let mut f1 = cat_family_exec(name, &resolved, StatCategory::Crafted);
            families.append(&mut f1);
            let mut f2 = cat_family_exec(name, &resolved, StatCategory::Killed);
            families.append(&mut f2);
            let mut f3 = cat_family_exec(name, &resolved, StatCategory::Broken);
            families.append(&mut f3);
            let mut f4 = cat_family_exec(name, &resolved, StatCategory::Used);
            families.append(&mut f4);
            let mut f5 = cat_family_exec(name, &resolved, StatCategory::Mined);
            families.append(&mut f5);
            let mut f6 = cat_family_exec(name, &resolved, StatCategory::Custom);
            families.append(&mut f6);
            let mut f7 = cat_family_exec(name, &resolved, StatCategory::PickedUp);
            families.append(&mut f7);
            let mut f8 = cat_family_exec(name, &resolved, StatCategory::KilledBy);
            families.append(&mut f8);
            proof {
                assert(families_view(families@) =~= player_families(name@, rp));
                assert(families_view(families@) =~= players_families(name@, *po));
            }
            (families, logs)
        },
        PlayersOutcome::ListFailed => {
            let families: Vec<MetricFamily> = Vec::new();
            let mut logs: Vec<ScrapeLogEntry> = Vec::new();
            logs.push(
                ScrapeLogEntry {
                    server: clone_bytes(name),
                    player: None,
                    error: ScrapeError::RecordIOFailed,
                },
            );
            assert(families_view(families@) =~= players_families(name@, *po));
            assert(logs_view(logs@) =~= players_errors(name@, *po));
            (families, logs)
        },
    }
}

/// Runs one server's aggregation over what its three phases handed
/// back: the families it contributes, in the fixed phase order, and
/// the failures to log.
pub fn scrape_server(server: &Server, input: &ServerScrapeInput) -> (r: (Vec<MetricFamily>, Vec<
    ScrapeLogEntry,
>))
    ensures
        families_view(r.0@) == server_families(*server, *input),
        logs_view(r.1@) == server_errors(*server, *input),
{
    let name = string_to_bytes(&server.server_name);
    let (mut families, mut logs) = dir_phase(&name, &input.dir);
    let ghost fam0 = families@;
    let ghost log0 = logs@;
    let (mut f1, mut l1) = session_phase(&name, &input.session);
    let ghost fam1 = f1@;
    let ghost log1 = l1@;
    families.append(&mut f1);
    logs.append(&mut l1);
    let (mut f2, mut l2) = players_phase(&name, &input.players);
    let ghost fam2 = f2@;
    let ghost log2 = l2@;
    families.append(&mut f2);
    logs.append(&mut l2);
    proof {
        assert(families_view(families@) =~= families_view(fam0) + families_view(fam1)
            + families_view(fam2));
        assert(logs_view(logs@) =~= logs_view(log0) + logs_view(log1) + logs_view(log2));
        assert(families_view(families@) =~= server_families(*server, *input));
        assert(logs_view(logs@) =~= server_errors(*server, *input));
    }
    (families, logs)
}

fn scrape_fleet_from(servers: &Vec<Server>, inputs: &Vec<ServerScrapeInput>, i: usize) -> (r: (
    Vec<u8>,
    Vec<ScrapeLogEntry>,
))
    requires
        servers@.len() == inputs@.len(),
        i <= servers@.len(),
    ensures
        r.0@ == fleet_text_from(servers@, inputs@, i as int),
        logs_view(r.1@) == fleet_errors_from(servers@, inputs@, i as int),
    decreases servers@.len() - i,
{
    if i < servers.len() {
        let (fams, mut logs) = scrape_server(&servers[i], &inputs[i]);
        let mut block = render_families(&fams);
        let ghost block0 = block@;
        let ghost log0 = logs@;
        let (mut rest_out, mut rest_logs) = scrape_fleet_from(servers, inputs, i + 1);
        let ghost rest0 = rest_out@;
        let ghost rlog0 = rest_logs@;
        block.append(&mut rest_out);
        logs.append(&mut rest_logs);
        proof {
            assert(logs_view(logs@) =~= logs_view(log0) + logs_view(rlog0));
            assert(block@ =~= fleet_text_from(servers@, inputs@, i as int));
            assert(logs_view(logs@) =~= fleet_errors_from(servers@, inputs@, i as int));
        }
        (block, logs)
    } else {
        let out: Vec<u8> = Vec::new();
        let logs: Vec<ScrapeLogEntry> = Vec::new();
        assert(logs_view(logs@) =~= Seq::<LogView>::empty());
        (out, logs)
    }
}

/// Runs the whole fleet scrape over what was gathered for every
/// configured server, in configuration order: the exposition document
/// and the failures to log.  A server that contributed nothing still
/// leaves every other server's block intact.
pub fn scrape_fleet(servers: &Vec<Server>, inputs: &Vec<ServerScrapeInput>) -> (r: (Vec<u8>, Vec<
    ScrapeLogEntry,
>))
    requires
        servers@.len() == inputs@.len(),
    ensures
        r.0@ == fleet_text(servers@, inputs@),
        logs_view(r.1@) == fleet_errors(servers@, inputs@),
{
    scrape_fleet_from(servers, inputs, 0)
}

/// For every resolved record, a category present in the record yields
/// exactly one sample per key of its mapping, and an absent category
/// yields no sample at all.
pub proof fn lemma_category_sample_count(
    name: Seq<u8>,
    pr: (Seq<u8>, RecordView),
    c: StatCategory,
)
    ensures
        pr.1.categories.dom().contains(c) ==> cat_samples_of(name, pr, c).len()
            == pr.1.categories[c].len(),
        !pr.1.categories.dom().contains(c) ==> cat_samples_of(name, pr, c).len() == 0,
{
}

/// A server whose every phase failed contributes no family at all.
pub proof fn lemma_failed_server_contributes_none(server: Server, input: ServerScrapeInput)
    requires
        input.dir is WalkFailed,
        input.session is ConnectFailed,
        input.players is ListFailed,
    ensures
        server_families(server, input) == Seq::<FamilyView>::empty(),
        server_text(server, input) == Seq::<u8>::empty(),
{
    assert(server_families(server, input) =~= Seq::<FamilyView>::empty());
}

proof fn lemma_fleet_text_shift(
    servers: Seq<Server>,
    inputs: Seq<ServerScrapeInput>,
    k: int,
    j: int,
)
    requires
        servers.len() == inputs.len(),
        0 <= k < servers.len(),
        k <= j <= servers.len() - 1,
    ensures
        fleet_text_from(servers, inputs, j + 1) == fleet_text_from(
            servers.remove(k),
            inputs.remove(k),
            j,
        ),
    decreases servers.len() - j,
{
    let rm = servers.remove(k);
    let rmin = inputs.remove(k);
    assert(rm.len() == servers.len() - 1);
    assert(rmin.len() == inputs.len() - 1);
    if j == servers.len() - 1 {
        assert(fleet_text_from(servers, inputs, j + 1) == Seq::<u8>::empty());
        assert(fleet_text_from(rm, rmin, j) == Seq::<u8>::empty());
    } else {
        assert(rm[j] == servers[j + 1]);
        assert(rmin[j] == inputs[j + 1]);
        lemma_fleet_text_shift(servers, inputs, k, j + 1);
    }
}

proof fn lemma_fleet_text_prefix(
    servers: Seq<Server>,
    inputs: Seq<ServerScrapeInput>,
    k: int,
    j: int,
)
    requires
        servers.len() == inputs.len(),
        0 <= k < servers.len(),
        0 <= j <= k,
        server_families(servers[k], inputs[k]) == Seq::<FamilyView>::empty(),
    ensures
        fleet_text_from(servers, inputs, j) == fleet_text_from(
            servers.remove(k),
            inputs.remove(k),
            j,
        ),
    decreases k - j,
{
    let rm = servers.remove(k);
    let rmin = inputs.remove(k);
    if j == k {
        assert(server_text(servers[k], inputs[k]) == families_text(
            server_families(servers[k], inputs[k]),
        ));
        assert(families_text(Seq::<FamilyView>::empty()) == Seq::<u8>::empty());
        assert(fleet_text_from(servers, inputs, k) == fleet_text_from(servers, inputs, k + 1));
        if k == servers.len() - 1 {
            assert(fleet_text_from(servers, inputs, k + 1) == Seq::<u8>::empty());
            assert(fleet_text_from(rm, rmin, k) == Seq::<u8>::empty());
        } else {
            lemma_fleet_text_shift(servers, inputs, k, k);
        }
    } else {
        assert(rm[j] == servers[j]);
        assert(rmin[j] == inputs[j]);
        lemma_fleet_text_prefix(servers, inputs, k, j + 1);
    }
}

/// Fleet-level failure isolation: a server whose aggregation yields
/// no family (as when its data root is gone and its admin endpoint is
/// unreachable) drops out of the document without touching any other
/// server's block: the fleet document equals the document of the
/// fleet without that server.
pub proof fn lemma_fleet_server_isolated(
    servers: Seq<Server>,
    inputs: Seq<ServerScrapeInput>,
    k: int,
)
    requires
        servers.len() == inputs.len(),
        0 <= k < servers.len(),
        server_families(servers[k], inputs[k]) == Seq::<FamilyView>::empty(),
    ensures
        fleet_text(servers, inputs) == fleet_text(servers.remove(k), inputs.remove(k)),
{
    lemma_fleet_text_prefix(servers, inputs, k, 0);
}

proof fn lemma_resolved_shift(ps: Seq<PlayerInput>, k: int, j: int)
    requires
        0 <= k < ps.len(),
        k <= j <= ps.len() - 1,
    ensures
        resolved_from(ps, j + 1) == resolved_from(ps.remove(k), j),
    decreases ps.len() - j,
{
    let rm = ps.remove(k);
    if j == ps.len() - 1 {
        assert(resolved_from(ps, j + 1) == Seq::<(Seq<u8>, RecordView)>::empty());
        assert(resolved_from(rm, j) == Seq::<(Seq<u8>, RecordView)>::empty());
    } else {
        assert(rm[j] == ps[j + 1]);
        lemma_resolved_shift(ps, k, j + 1);
    }
}

proof fn lemma_resolved_prefix(ps: Seq<PlayerInput>, k: int, j: int)
    requires
        0 <= k < ps.len(),
        0 <= j <= k,
        player_result(ps[k]) is Err,
    ensures
        resolved_from(ps, j) == resolved_from(ps.remove(k), j),
    decreases k - j,
{
    let rm = ps.remove(k);
    if j == k {
        assert(resolved_from(ps, k) == resolved_from(ps, k + 1));
        if k == ps.len() - 1 {
            assert(resolved_from(ps, k + 1) == Seq::<(Seq<u8>, RecordView)>::empty());
            assert(resolved_from(rm, k) == Seq::<(Seq<u8>, RecordView)>::empty());
        } else {
            lemma_resolved_shift(ps, k, k);
        }
    } else {
        assert(rm[j] == ps[j]);
        lemma_resolved_prefix(ps, k, j + 1);
    }
}

proof fn lemma_player_err_logged(name: Seq<u8>, ps: Seq<PlayerInput>, k: int, j: int, e:
    ScrapeError)
    requires
        0 <= j <= k < ps.len(),
        player_result(ps[k]) == Err::<(Seq<u8>, RecordView), ScrapeError>(e),
    ensures
        player_errs_from(name, ps, j).contains(
            LogView { server: name, player: Some(ps[k].identifier@), error: e },
        ),
    decreases k - j,
{
    let entry = LogView { server: name, player: Some(ps[k].identifier@), error: e };
    if j == k {
        assert(player_errs_from(name, ps, j)[0] == entry);
    } else {
        lemma_player_err_logged(name, ps, k, j + 1, e);
        let rest = player_errs_from(name, ps, j + 1);
        let idx = choose|idx: int| 0 <= idx < rest.len() && rest[idx] == entry;
        match player_result(ps[j]) {
            Ok(pr) => {
                assert(player_errs_from(name, ps, j) == rest);
            },
            Err(e2) => {
                assert(player_errs_from(name, ps, j)[idx + 1] == entry);
            },
        }
    }
}

/// Player-level failure isolation: one player whose lookup, record
/// read or decode failed is skipped, the remaining players' samples
/// are exactly those of the list without that player, and the failure
/// is logged against that player's identifier.
pub proof fn lemma_player_isolated(name: Seq<u8>, ps: Seq<PlayerInput>, k: int, e: ScrapeError)
    requires
        0 <= k < ps.len(),
        player_result(ps[k]) == Err::<(Seq<u8>, RecordView), ScrapeError>(e),
    ensures
        resolved_from(ps, 0) == resolved_from(ps.remove(k), 0),
        player_errs_from(name, ps, 0).contains(
            LogView { server: name, player: Some(ps[k].identifier@), error: e },
        ),
{
    lemma_resolved_prefix(ps, k, 0);
    lemma_player_err_logged(name, ps, k, 0, e);
}

} // verus!
