use logstats::fetch::{FetchCause, FetchError};
use logstats::schema::{ClassStats, Log, Player, Round, RoundTeam, RoundTeams, Team, Teams,
    UberTypes, Weapon};
use logstats::stats::{aggregate, canonical_name, sorted_dedup, Stats};

fn mk_team() -> Team {
    Team { score: 0, kills: 0, deaths: 0, damage: 0, ubers: 0, firstcaps: 0, caps: 0 }
}

fn mk_player(kills: u32) -> Player {
    Player {
        team: "Red".to_string(),
        class_stats: vec![ClassStats {
            class: "scout".to_string(),
            kills,
            assists: 0,
            deaths: 0,
            damage: 0,
            weapon: vec![(
                "scattergun".to_string(),
                Weapon { kills, damage: 0, shots: 0, hits: 0 },
            )],
            total_time: 100,
        }],
        kills,
        deaths: 0,
        assists: 0,
        suicides: 0,
        kills_assists_per_death: "0".to_string(),
        kills_per_death: "0".to_string(),
        damage: 0,
        damage_real_wtf: 0,
        damage_taken: 0,
        lks: 0,
        airshots: 0,
        dapd: 0,
        dapm: 0,
        ubers: 0,
        ubertypes: UberTypes { medigun: None, kritzkrieg: None, vaccinator: None, quickfix: None },
        drops: 0,
        medkits: 0,
        health_from_medkits: 0,
        backstabs: 0,
        headshots: 0,
        sentries: 0,
        heal: 0,
        cpc: 0,
        ic: 0,
        medicstats: None,
    }
}

fn mk_log(entries: Vec<(&str, u32, &str)>) -> Log {
    let players = entries.iter().map(|(id, kills, _)| (id.to_string(), mk_player(*kills))).collect();
    let names = entries.iter().map(|(id, _, name)| (id.to_string(), name.to_string())).collect();
    Log {
        version: 3,
        teams: Teams { blue: mk_team(), red: mk_team() },
        length: 1800,
        players,
        names,
        rounds: vec![Round {
            start_time: 0,
            winner: Some("red".to_string()),
            team: RoundTeams {
                blue: RoundTeam { score: 0, kills: 0, damage: 0, ubers: 0 },
                red: RoundTeam { score: 1, kills: 0, damage: 0, ubers: 0 },
            },
            events: vec![],
        }],
        chat: vec![],
    }
}

#[test]
fn sums_kills_over_logs() {
    let watched = vec!["[U:1:1]".to_string()];
    let outcomes = vec![
        Ok(mk_log(vec![("[U:1:1]", 5, "alpha")])),
        Ok(mk_log(vec![("[U:1:1]", 7, "alpha")])),
        Ok(mk_log(vec![("[U:1:2]", 100, "other")])),
    ];
    let table = aggregate(&watched, &outcomes);
    assert_eq!(table.len(), 1);
    assert_eq!(table[0].kills, 12);
    assert_eq!(table[0].name, vec!["alpha".to_string(), "alpha".to_string()]);
}

#[test]
fn player_absent_everywhere_stays_at_zero() {
    let watched = vec!["[U:1:9]".to_string()];
    let outcomes = vec![Ok(mk_log(vec![("[U:1:1]", 5, "alpha")]))];
    let table = aggregate(&watched, &outcomes);
    assert_eq!(table[0].kills, 0);
    assert!(table[0].name.is_empty());
}

#[test]
fn failed_outcome_changes_nothing() {
    let watched = vec!["[U:1:1]".to_string()];
    let without_failure = vec![
        Ok(mk_log(vec![("[U:1:1]", 5, "alpha")])),
        Ok(mk_log(vec![("[U:1:1]", 2, "beta")])),
    ];
    let with_failure = vec![
        Ok(mk_log(vec![("[U:1:1]", 5, "alpha")])),
        Err(FetchError { id: 151799, cause: FetchCause::Status(404) }),
        Ok(mk_log(vec![("[U:1:1]", 2, "beta")])),
    ];
    let clean = aggregate(&watched, &without_failure);
    let mixed = aggregate(&watched, &with_failure);
    assert_eq!(clean[0].kills, mixed[0].kills);
    assert_eq!(clean[0].name, mixed[0].name);
}

#[test]
fn every_failure_reason_is_skipped() {
    let watched = vec!["[U:1:1]".to_string()];
    let outcomes = vec![
        Err(FetchError { id: 151745, cause: FetchCause::Network("timed out".to_string()) }),
        Err(FetchError { id: 151746, cause: FetchCause::Status(500) }),
        Err(FetchError { id: 151747, cause: FetchCause::Schema("missing field".to_string()) }),
        Ok(mk_log(vec![("[U:1:1]", 4, "gamma")])),
    ];
    let table = aggregate(&watched, &outcomes);
    assert_eq!(table[0].kills, 4);
    assert_eq!(table[0].name, vec!["gamma".to_string()]);
}

#[test]
fn aggregation_order_does_not_matter() {
    let watched = vec!["[U:1:1]".to_string()];
    let one_way = vec![
        Ok(mk_log(vec![("[U:1:1]", 5, "alpha")])),
        Ok(mk_log(vec![("[U:1:1]", 2, "beta")])),
    ];
    let other_way = vec![
        Ok(mk_log(vec![("[U:1:1]", 2, "beta")])),
        Ok(mk_log(vec![("[U:1:1]", 5, "alpha")])),
    ];
    let a = aggregate(&watched, &one_way);
    let b = aggregate(&watched, &other_way);
    assert_eq!(a[0].kills, b[0].kills);
    let mut a_names = a[0].name.clone();
    let mut b_names = b[0].name.clone();
    a_names.sort();
    b_names.sort();
    assert_eq!(a_names, b_names);
}

#[test]
fn aggregating_twice_gives_identical_stats() {
    let watched = vec!["[U:1:1]".to_string(), "[U:1:2]".to_string()];
    let first_run = vec![
        Ok(mk_log(vec![("[U:1:1]", 5, "alpha"), ("[U:1:2]", 1, "bravo")])),
        Ok(mk_log(vec![("[U:1:1]", 2, "beta")])),
    ];
    let second_run = vec![
        Ok(mk_log(vec![("[U:1:1]", 5, "alpha"), ("[U:1:2]", 1, "bravo")])),
        Ok(mk_log(vec![("[U:1:1]", 2, "beta")])),
    ];
    let a = aggregate(&watched, &first_run);
    let b = aggregate(&watched, &second_run);
    assert_eq!(a.len(), b.len());
    for (x, y) in a.iter().zip(b.iter()) {
        assert_eq!(x.kills, y.kills);
        assert_eq!(x.name, y.name);
    }
}

#[test]
fn canonical_name_is_lexicographically_greatest() {
    let names = vec!["apple".to_string(), "Zeta".to_string(), "zeta".to_string()];
    let deduped = sorted_dedup(&names);
    assert_eq!(deduped, vec!["Zeta".to_string(), "apple".to_string(), "zeta".to_string()]);
    let canonical = canonical_name(&deduped).unwrap();
    assert_eq!(canonical, "zeta");
}

#[test]
fn canonical_name_of_no_names_is_absent() {
    let names: Vec<String> = vec![];
    assert!(canonical_name(&names).is_none());
}

#[test]
fn finalize_dedups_sorts_and_keeps_kills() {
    let mut stats = Stats {
        name: vec![
            "zeta".to_string(),
            "apple".to_string(),
            "zeta".to_string(),
            "Zeta".to_string(),
        ],
        kills: 9,
    };
    stats.finalize();
    assert_eq!(stats.kills, 9);
    assert_eq!(stats.name, vec!["Zeta".to_string(), "apple".to_string(), "zeta".to_string()]);
}

#[test]
fn default_stats_are_empty() {
    let stats = Stats::default();
    assert_eq!(stats.kills, 0);
    assert!(stats.name.is_empty());
}

#[test]
fn kill_total_saturates_instead_of_wrapping() {
    let watched = vec!["[U:1:1]".to_string()];
    let outcomes = vec![
        Ok(mk_log(vec![("[U:1:1]", u32::MAX, "alpha")])),
        Ok(mk_log(vec![("[U:1:1]", 10, "alpha")])),
    ];
    let table = aggregate(&watched, &outcomes);
    assert_eq!(table[0].kills, u32::MAX);
}

#[test]
fn duplicate_watched_ids_get_identical_rows() {
    let watched = vec!["[U:1:1]".to_string(), "[U:1:1]".to_string()];
    let outcomes = vec![Ok(mk_log(vec![("[U:1:1]", 6, "alpha")]))];
    let table = aggregate(&watched, &outcomes);
    assert_eq!(table.len(), 2);
    assert_eq!(table[0].kills, 6);
    assert_eq!(table[1].kills, 6);
    assert_eq!(table[0].name, table[1].name);
}

#[test]
fn lookup_takes_the_first_matching_key() {
    let mut log = mk_log(vec![("[U:1:1]", 2, "first")]);
    log.players.push(("[U:1:1]".to_string(), mk_player(9)));
    log.names.push(("[U:1:1]".to_string(), "second".to_string()));
    let found = log.player(&"[U:1:1]".to_string()).unwrap();
    assert_eq!(found.kills, 2);
    let name = log.display_name(&"[U:1:1]".to_string()).unwrap();
    assert_eq!(name, "first");
    assert!(log.player(&"[U:1:9]".to_string()).is_none());
}
