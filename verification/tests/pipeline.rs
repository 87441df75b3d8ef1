use logstats::batch::make_batches;
use logstats::fetch::{logs_attempted, FetchError, FetchPlan, StepAction};
use logstats::ids::collect_ids;
use logstats::schema::{Log, Player, Team, Teams, UberTypes};
use logstats::stats::{aggregate, canonical_name};

fn mk_team() -> Team {
    Team { score: 0, kills: 0, deaths: 0, damage: 0, ubers: 0, firstcaps: 0, caps: 0 }
}

fn mk_player(kills: u32) -> Player {
    Player {
        team: "Blue".to_string(),
        class_stats: vec![],
        kills,
        deaths: 0,
        assists: 0,
        suicides: 0,
        kills_assists_per_death: "0".to_string(),
        kills_per_death: "0".to_string(),
        damage: 0,
        damage_real_wtf: 0,
        damage_taken: 0,
        lks: 0,
        airshots: 0,
        dapd: 0,
        dapm: 0,
        ubers: 0,
        ubertypes: UberTypes { medigun: None, kritzkrieg: None, vaccinator: None, quickfix: None },
        drops: 0,
        medkits: 0,
        health_from_medkits: 0,
        backstabs: 0,
        headshots: 0,
        sentries: 0,
        heal: 0,
        cpc: 0,
        ic: 0,
        medicstats: None,
    }
}

fn empty_log() -> Log {
    Log {
        version: 3,
        teams: Teams { blue: mk_team(), red: mk_team() },
        length: 1800,
        players: vec![],
        names: vec![],
        rounds: vec![],
        chat: vec![],
    }
}

fn log_with(key: &str, kills: u32, name: &str) -> Log {
    let mut log = empty_log();
    log.players.push((key.to_string(), mk_player(kills)));
    log.names.push((key.to_string(), name.to_string()));
    log
}

/// Seven IDs read from input lines with quota five: two batches of sizes
/// five and two, every fetch succeeds, the watched player shows up in four
/// of the seven logs with three kills in total, and the attempted count goes
/// by whole batches: two batches of quota five make ten.
#[test]
fn seven_ids_quota_five_end_to_end() {
    let quota: usize = 5;
    let lines: Vec<String> = vec![
        "200001".to_string(),
        "200002".to_string(),
        "200003".to_string(),
        "200004".to_string(),
        "200005".to_string(),
        "200006".to_string(),
        "200007".to_string(),
    ];
    let ids = collect_ids(&lines);
    assert_eq!(ids.len(), 7);

    let batches = make_batches(&ids, quota);
    assert_eq!(batches.len(), 2);
    assert_eq!(batches[0].len(), 5);
    assert_eq!(batches[1].len(), 2);

    let key = "[U:1:22202]";
    let mut plan = FetchPlan::new(batches);
    let mut outcomes: Vec<Result<Log, FetchError>> = Vec::new();
    loop {
        match plan.step() {
            StepAction::Dispatch(batch) => {
                // the player appears in the first four logs, with kill
                // counts that total three, and not in the other three
                for id in batch {
                    let outcome = match id {
                        200001 => Ok(log_with(key, 3, "apple")),
                        200002 => Ok(log_with(key, 0, "Zeta")),
                        200003 => Ok(log_with(key, 0, "zeta")),
                        200004 => Ok(log_with(key, 0, "zeta")),
                        _ => Ok(empty_log()),
                    };
                    outcomes.push(outcome);
                }
            },
            StepAction::Halt => panic!("all IDs are supported"),
            StepAction::Done => break,
        }
    }
    assert_eq!(outcomes.len(), 7);

    let watched = vec![key.to_string()];
    let mut table = aggregate(&watched, &outcomes);
    assert_eq!(table.len(), 1);
    assert_eq!(table[0].kills, 3);

    table[0].finalize();
    let canonical = canonical_name(&table[0].name).unwrap();
    assert_eq!(canonical, "zeta");
    assert_eq!(table[0].name, vec!["Zeta".to_string(), "apple".to_string(), "zeta".to_string()]);

    let attempted = logs_attempted(plan.dispatched(), quota);
    assert_eq!(attempted, 10);
}
