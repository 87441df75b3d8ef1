//! The shape of one fetched match log: team summaries, per-player summaries
//! keyed by a stable player identifier, round-by-round events, and chat
//! messages. A record is read-only once constructed.
//!
//! The identifier-keyed tables are held as ordered lists of key/value pairs;
//! lookup takes the first pair whose key matches.

use vstd::prelude::*;

verus! {

/// Cumulative stats of one team over the whole match.
pub struct Team {
    /// Total score of the team.
    pub score: u32,
    /// Total kills by the team.
    pub kills: u32,
    /// Total deaths of the team.
    pub deaths: u32,
    /// Total damage dealt by the team.
    pub damage: u32,
    /// Total uber charges used by the team.
    pub ubers: u32,
    /// Total initial captures after round start.
    pub firstcaps: u32,
    /// Total captures by the team.
    pub caps: u32,
}

/// Cumulative stats of both teams.
pub struct Teams {
    /// Blue team cumulative stats.
    pub blue: Team,
    /// Red team cumulative stats.
    pub red: Team,
}

/// Per-weapon stats within one class.
pub struct Weapon {
    /// Kills with the weapon.
    pub kills: u32,
    /// Damage with the weapon.
    pub damage: u32,
    /// Total times the weapon was fired.
    pub shots: u32,
    /// Total number of shots that hit.
    pub hits: u32,
}

/// Uses of each uber type; the service omits the types a medic never ran.
pub struct UberTypes {
    /// Medigun charges.
    pub medigun: Option<u32>,
    /// Kritzkrieg charges.
    pub kritzkrieg: Option<u32>,
    /// Vaccinator charges.
    pub vaccinator: Option<u32>,
    /// Quick-Fix charges.
    pub quickfix: Option<u32>,
}

/// Extra medic stats; the service omits any of these inconsistently, so each
/// field is optional.
pub struct MedicStats {
    /// Major uber advantages lost.
    pub advantages_lost: Option<u32>,
    /// Largest advantage lost due to a drop or holding, in seconds.
    pub biggest_advantage_lost: Option<u32>,
    /// Deaths between 95% and 99% uber charge.
    pub deaths_near_charge: Option<u32>,
    /// Deaths within 20 seconds after using uber.
    pub deaths_after_uber: Option<u32>,
}

/// Per-class stats of one player.
pub struct ClassStats {
    /// Name of the class.
    pub class: String,
    /// Kills as the class.
    pub kills: u32,
    /// Assists as the class.
    pub assists: u32,
    /// Deaths as the class.
    pub deaths: u32,
    /// Damage as the class.
    pub damage: u32,
    /// Per-weapon stats, keyed by weapon name.
    pub weapon: Vec<(String, Weapon)>,
    /// Time in seconds as the class.
    pub total_time: u32,
}

/// Per-player summary over the whole match.
pub struct Player {
    /// The player's team color.
    pub team: String,
    /// Class-specific stats.
    pub class_stats: Vec<ClassStats>,
    /// Total kills.
    pub kills: u32,
    /// Total deaths.
    pub deaths: u32,
    /// Total assists.
    pub assists: u32,
    /// Total deaths without interference by an enemy player.
    pub suicides: u32,
    /// Average kills and assists per death, as reported by the service.
    pub kills_assists_per_death: String,
    /// Average kills per death, as reported by the service.
    pub kills_per_death: String,
    /// Total damage dealt.
    pub damage: u32,
    /// Damage dealt counted by the service's alternative rule.
    pub damage_real_wtf: u32,
    /// Total damage taken.
    pub damage_taken: u32,
    /// Longest kill streak.
    pub lks: u32,
    /// Direct hits with a projectile weapon on an airborne target.
    pub airshots: u32,
    /// Damage per death.
    pub dapd: u32,
    /// Damage per minute.
    pub dapm: u32,
    /// Total number of ubers.
    pub ubers: u32,
    /// Uses of each uber type.
    pub ubertypes: UberTypes,
    /// Medic deaths while fully charged.
    pub drops: u32,
    /// Total medkits collected, weighted by size.
    pub medkits: u32,
    /// Total health gained from medkits.
    pub health_from_medkits: u32,
    /// Spy backstabs.
    pub backstabs: u32,
    /// Sniper and Ambassador headshots.
    pub headshots: u32,
    /// Engineer sentries.
    pub sentries: u32,
    /// Healing done.
    pub heal: u32,
    /// Capture point captures.
    pub cpc: u32,
    /// Intelligence captures.
    pub ic: u32,
    /// Extra medic stats; present only for medics, and not always then.
    pub medicstats: Option<MedicStats>,
}

/// Cumulative stats of one team within one round.
pub struct RoundTeam {
    /// Score of the team within the round.
    pub score: u32,
    /// Kills by the team within the round.
    pub kills: u32,
    /// Damage dealt by the team within the round.
    pub damage: u32,
    /// Uber charges used by the team within the round.
    pub ubers: u32,
}

/// Cumulative stats of both teams within one round.
pub struct RoundTeams {
    /// Blue team stats within the round.
    pub blue: RoundTeam,
    /// Red team stats within the round.
    pub red: RoundTeam,
}

/// One event within a round.
pub struct Events {
    /// Event type: "charge", "drop", "medic_death", "pointcap" or
    /// "round_win".
    pub event: String,
    /// Type of medigun when the event is "charge".
    pub medigun: Option<String>,
    /// Time at which the event occurred, in seconds.
    pub time: u32,
    /// Identifier of the target player.
    pub steamid: Option<String>,
    /// Identifier of the killer when the event is "medic_death".
    pub killer: Option<String>,
    /// Point captured when the event is "pointcap".
    pub point: Option<u8>,
    /// The acting team's color; absent when a "round_win" event closes a
    /// stalemate.
    pub team: Option<String>,
}

/// One round of the match; `winner` is absent when the round ends in a
/// stalemate.
pub struct Round {
    /// Ticks before round start.
    pub start_time: u32,
    /// Round winner, either "red" or "blue", absent on a stalemate.
    pub winner: Option<String>,
    /// Cumulative team stats within the round.
    pub team: RoundTeams,
    /// Event data.
    pub events: Vec<Events>,
}

/// One chat message.
pub struct Message {
    /// Identifier of the speaking player.
    pub steamid: String,
    /// The player's display name at the time of upload.
    pub name: String,
    /// The message text.
    pub message: String,
}

/// One complete match log, identified by the log ID it was fetched with.
pub struct Log {
    /// Log API version.
    pub version: u32,
    /// Cumulative team stats.
    pub teams: Teams,
    /// Length of the match in seconds.
    pub length: u32,
    /// Player identifier to per-player summary.
    pub players: Vec<(String, Player)>,
    /// Player identifier to display name.
    pub names: Vec<(String, String)>,
    /// Round data.
    pub rounds: Vec<Round>,
    /// Chat logs.
    pub chat: Vec<Message>,
}

/// The value of the first pair whose key reads as `key`, if any.
pub open spec fn assoc_find<V>(entries: Seq<(String, V)>, key: Seq<char>) -> Option<V>
    decreases entries.len(),
{
    if entries.len() == 0 {
        None
    } else if entries.first().0@ == key {
        Some(entries.first().1)
    } else {
        assoc_find(entries.drop_first(), key)
    }
}

/// Looks a key up in a pair list, matching `assoc_find`.
pub fn assoc_get<'a, V>(entries: &'a Vec<(String, V)>, key: &String) -> (r: Option<&'a V>)
    ensures
        match r {
            Some(v) => assoc_find(entries@, key@) == Some(*v),
            None => assoc_find(entries@, key@) is None,
        },
{
    let mut i: usize = 0;
    proof {
        assert(entries@.skip(0) =~= entries@);
    }
    while i < entries.len()
        invariant
            0 <= i <= entries@.len(),
            assoc_find(entries@, key@) == assoc_find(entries@.skip(i as int), key@),
        decreases entries@.len() - i,
    {
        proof {
            assert(entries@.skip(i as int).first() == entries@[i as int]);
            assert(entries@.skip(i as int).drop_first() =~= entries@.skip(i + 1));
        }
        if entries[i].0 == *key {
            return Some(&entries[i].1);
        }
        i = i + 1;
    }
    None
}

impl Log {
    /// The per-player summary recorded for the given player identifier.
    pub fn player(&self, id: &String) -> (r: Option<&Player>)
        ensures
            match r {
                Some(p) => assoc_find(self.players@, id@) == Some(*p),
                None => assoc_find(self.players@, id@) is None,
            },
    {
        assoc_get(&self.players, id)
    }

    /// The display name recorded for the given player identifier.
    pub fn display_name(&self, id: &String) -> (r: Option<&String>)
        ensures
            match r {
                Some(n) => assoc_find(self.names@, id@) == Some(*n),
                None => assoc_find(self.names@, id@) is None,
            },
    {
        assoc_get(&self.names, id)
    }
}

} // verus!
