//! The Aggregator: folds a stream of fetch outcomes into per-player
//! statistics — a running kill total and the set of display names observed
//! across logs — for a chosen set of player identifiers. Failed outcomes
//! contribute nothing; outcome order within a run does not matter.

use vstd::prelude::*;
use crate::fetch::FetchError;
use crate::schema::{assoc_find, Log};
use crate::text::{
    lemma_lex_le_antisym, lemma_lex_le_refl, lemma_lex_le_total, lemma_lex_le_trans, lex_le,
    lex_lt, str_le,
};

verus! {

/// Aggregated counters and name history for one watched player.
pub struct Stats {
    /// Display names observed for the player, one entry per log that showed
    /// the player, until finalized into a sorted list without duplicates.
    pub name: Vec<String>,
    /// Running total of the player's kills over all aggregated logs.
    pub kills: u32,
}

impl Default for Stats {
    /// An empty accumulator: no kills, no observed names.
    fn default() -> (r: Self)
        ensures
            r.kills == 0,
            r.name@ =~= Seq::<String>::empty(),
    {
        Stats { name: Vec::new(), kills: 0 }
    }
}

/// What one outcome adds to a player's kill total: the player's kill count
/// when the log was fetched and records the player, and nothing otherwise.
pub open spec fn outcome_kills(o: Result<Log, FetchError>, key: Seq<char>) -> int {
    match o {
        Ok(log) => match assoc_find(log.players@, key) {
            Some(p) => p.kills as int,
            None => 0,
        },
        Err(_) => 0,
    }
}

/// A player's kill total over a run of outcomes.
pub open spec fn total_kills(os: Seq<Result<Log, FetchError>>, key: Seq<char>) -> int
    decreases os.len(),
{
    if os.len() == 0 {
        0
    } else {
        total_kills(os.drop_last(), key) + outcome_kills(os.last(), key)
    }
}

/// The display names one outcome contributes for a player: the recorded
/// name when the log was fetched, records the player, and names the player.
pub open spec fn outcome_name(o: Result<Log, FetchError>, key: Seq<char>) -> Seq<Seq<char>> {
    match o {
        Ok(log) => if assoc_find(log.players@, key) is Some {
            match assoc_find(log.names@, key) {
                Some(n) => seq![n@],
                None => Seq::empty(),
            }
        } else {
            Seq::empty()
        },
        Err(_) => Seq::empty(),
    }
}

/// The display names observed for a player over a run of outcomes, in order.
pub open spec fn observed_names(os: Seq<Result<Log, FetchError>>, key: Seq<char>) -> Seq<
    Seq<char>,
>
    decreases os.len(),
{
    if os.len() == 0 {
        Seq::empty()
    } else {
        observed_names(os.drop_last(), key) + outcome_name(os.last(), key)
    }
}

/// Whether some outcome of the run contributes the name `n` for the player.
pub open spec fn name_observed(
    os: Seq<Result<Log, FetchError>>,
    key: Seq<char>,
    n: Seq<char>,
) -> bool {
    exists|i: int| 0 <= i < os.len() && (#[trigger] outcome_name(os[i], key)).contains(n)
}

/// A kill total capped at what the counter can hold.
pub open spec fn sat32(v: int) -> int {
    if v > u32::MAX {
        u32::MAX as int
    } else {
        v
    }
}

/// No outcome subtracts kills.
pub proof fn lemma_total_kills_nonneg(os: Seq<Result<Log, FetchError>>, key: Seq<char>)
    ensures
        total_kills(os, key) >= 0,
    decreases os.len(),
{
    if os.len() > 0 {
        lemma_total_kills_nonneg(os.drop_last(), key);
    }
}

/// Folds the outcomes into one `Stats` entry per watched player identifier,
/// in the order the identifiers are given: the entry's kill total is the
/// player's summed kills over all successful outcomes (capped at what the
/// counter holds), and its name list is exactly the names those outcomes
/// recorded for the player, in outcome order.
pub fn aggregate(watched: &Vec<String>, outcomes: &Vec<Result<Log, FetchError>>) -> (r: Vec<
    Stats,
>)
    ensures
        r@.len() == watched@.len(),
        forall|t: int|
            0 <= t < watched@.len() ==> (#[trigger] r@[t]).kills as int == sat32(
                total_kills(outcomes@, watched@[t]@),
            ),
        forall|t: int|
            0 <= t < watched@.len() ==> (#[trigger] r@[t]).name@.map_values(|s: String| s@)
                == observed_names(outcomes@, watched@[t]@),
{
    let mut r: Vec<Stats> = Vec::new();
    let mut t: usize = 0;
    while t < watched.len()
        invariant
            0 <= t <= watched@.len(),
            r@.len() == t,
            forall|u: int|
                0 <= u < t ==> (#[trigger] r@[u]).kills as int == sat32(
                    total_kills(outcomes@, watched@[u]@),
                ),
            forall|u: int|
                0 <= u < t ==> (#[trigger] r@[u]).name@.map_values(|s: String| s@)
                    == observed_names(outcomes@, watched@[u]@),
        decreases watched@.len() - t,
    {
        let key = &watched[t];
        let mut kills: u32 = 0;
        let mut names: Vec<String> = Vec::new();
        let mut j: usize = 0;
        proof {
            assert(names@.map_values(|s: String| s@) =~= observed_names(
                outcomes@.take(0),
                key@,
            ));
        }
        while j < outcomes.len()
            invariant
                0 <= j <= outcomes@.len(),
                key@ == watched@[t as int]@,
                kills as int == sat32(total_kills(outcomes@.take(j as int), key@)),
                names@.map_values(|s: String| s@) == observed_names(
                    outcomes@.take(j as int),
                    key@,
                ),
            decreases outcomes@.len() - j,
        {
            proof {
                assert(outcomes@.take(j + 1).drop_last() =~= outcomes@.take(j as int));
                assert(outcomes@.take(j + 1).last() == outcomes@[j as int]);
                lemma_total_kills_nonneg(outcomes@.take(j as int), key@);
            }
            let o = &outcomes[j];
            match o {
                Ok(log) => {
                    match log.player(key) {
                        Some(p) => {
                            let add_kills: u64 = kills as u64 + p.kills as u64;
                            if add_kills > u32::MAX as u64 {
                                kills = u32::MAX;
                            } else {
                                kills = add_kills as u32;
                            }
                            match log.display_name(key) {
                                Some(n) => {
                                    let ghost before = names@;
                                    names.push(n.clone());
                                    proof {
                                        assert(names@.map_values(|s: String| s@)
                                            =~= before.map_values(|s: String| s@).push(n@));
                                        assert(names@.map_values(|s: String| s@)
                                            =~= observed_names(outcomes@.take(j + 1), key@));
                                    }
                                },
                                None => {
                                    proof {
                                        assert(names@.map_values(|s: String| s@)
                                            =~= observed_names(outcomes@.take(j + 1), key@));
                                    }
                                },
                            }
                        },
                        None => {
                            proof {
                                assert(names@.map_values(|s: String| s@) =~= observed_names(
                                    outcomes@.take(j + 1),
                                    key@,
                                ));
                            }
                        },
                    }
                },
                Err(_) => {
                    proof {
                        assert(names@.map_values(|s: String| s@) =~= observed_names(
                            outcomes@.take(j + 1),
                            key@,
                        ));
                    }
                },
            }
            j = j + 1;
        }
        proof {
            assert(outcomes@.take(outcomes@.len() as int) =~= outcomes@);
        }
        r.push(Stats { name: names, kills });
        t = t + 1;
    }
    r
}

/// Whether some entry of the list reads as the name `n`.
pub open spec fn has_name(names: Seq<String>, n: Seq<char>) -> bool {
    exists|i: int| 0 <= i < names.len() && (#[trigger] names[i])@ == n
}

/// Whether the list is strictly sorted in the lexicographic order, which
/// also means it holds no duplicates.
pub open spec fn names_sorted_distinct(names: Seq<String>) -> bool {
    forall|i: int, j: int|
        0 <= i < j < names.len() ==> lex_lt((#[trigger] names[i])@, (#[trigger] names[j])@)
}

/// Sorts a name list and removes duplicates: the result is strictly sorted
/// and reads as exactly the same set of names.
pub fn sorted_dedup(names: &Vec<String>) -> (r: Vec<String>)
    ensures
        names_sorted_distinct(r@),
        forall|n: Seq<char>| has_name(r@, n) <==> has_name(names@, n),
{
    let mut r: Vec<String> = Vec::new();
    let mut i: usize = 0;
    while i < names.len()
        invariant
            0 <= i <= names@.len(),
            names_sorted_distinct(r@),
            forall|n: Seq<char>| has_name(r@, n) <==> has_name(names@.take(i as int), n),
        decreases names@.len() - i,
    {
        let x = &names[i];
        let ghost entry_r = r@;
        let mut pos: usize = 0;
        while pos < r.len() && !str_le(x.as_str(), r[pos].as_str())
            invariant
                0 <= pos <= r@.len(),
                forall|a: int| 0 <= a < pos ==> !lex_le(x@, (#[trigger] r@[a])@),
            decreases r@.len() - pos,
        {
            pos = pos + 1;
        }
        proof {
            assert forall|a: int| 0 <= a < pos implies lex_lt((#[trigger] r@[a])@, x@) by {
                lemma_lex_le_total(x@, r@[a]@);
                if r@[a]@ == x@ {
                    lemma_lex_le_refl(x@);
                }
            }
        }
        let dup = pos < r.len() && r[pos] == *x;
        if !dup {
            r.insert(pos, x.clone());
            proof {
                assert(r@ == entry_r.insert(pos as int, r@[pos as int]));
                assert(r@[pos as int]@ == x@);
                if (pos as int) < entry_r.len() {
                    assert(lex_le(x@, entry_r[pos as int]@));
                    assert(entry_r[pos as int]@ != x@);
                }
                assert forall|a: int, b: int| 0 <= a < b < r@.len() implies lex_lt(
                    (#[trigger] r@[a])@,
                    (#[trigger] r@[b])@,
                ) by {
                    let p = pos as int;
                    if b < p {
                        assert(r@[a] == entry_r[a] && r@[b] == entry_r[b]);
                    } else if a < p && b == p {
                        assert(r@[a] == entry_r[a]);
                    } else if a == p {
                        assert(r@[b] == entry_r[b - 1] && b - 1 >= p);
                        if b - 1 > p {
                            assert(lex_lt(entry_r[p]@, entry_r[b - 1]@));
                            lemma_lex_le_trans(x@, entry_r[p]@, entry_r[b - 1]@);
                            if x@ == entry_r[b - 1]@ {
                                lemma_lex_le_antisym(entry_r[p]@, entry_r[b - 1]@);
                            }
                        }
                    } else if a > p {
                        assert(r@[a] == entry_r[a - 1] && r@[b] == entry_r[b - 1]);
                    } else {
                        assert(a < p && b > p);
                        assert(r@[a] == entry_r[a] && r@[b] == entry_r[b - 1]);
                        if p < entry_r.len() {
                            if a < b - 1 {
                                assert(lex_lt(entry_r[a]@, entry_r[b - 1]@));
                            } else {
                                assert(b - 1 == p && a < p);
                            }
                        } else {
                            assert(false);
                        }
                    }
                }
                assert forall|n: Seq<char>| has_name(r@, n) <==> (has_name(entry_r, n) || n
                    == x@) by {
                    if has_name(r@, n) {
                        let w = choose|w: int| 0 <= w < r@.len() && (#[trigger] r@[w])@ == n;
                        if w < pos as int {
                            assert(entry_r[w]@ == n);
                        } else if w == pos as int {
                        } else {
                            assert(entry_r[w - 1]@ == n);
                        }
                    }
                    if has_name(entry_r, n) {
                        let w = choose|w: int| 0 <= w < entry_r.len() && (#[trigger] entry_r[w])@ == n;
                        if w < pos as int {
                            assert(r@[w]@ == n);
                        } else {
                            assert(r@[w + 1]@ == n);
                        }
                    }
                    if n == x@ {
                        assert(r@[pos as int]@ == n);
                    }
                }
            }
        } else {
            proof {
                assert(r@[pos as int]@ == x@);
                assert forall|n: Seq<char>| has_name(r@, n) <==> (has_name(entry_r, n) || n
                    == x@) by {
                    if n == x@ {
                        assert((#[trigger] r@[pos as int])@ == n);
                    }
                }
            }
        }
        proof {
            assert forall|n: Seq<char>| has_name(names@.take(i + 1), n) <==> (has_name(
                names@.take(i as int),
                n,
            ) || n == x@) by {
                if has_name(names@.take(i + 1), n) {
                    let w = choose|w: int|
                        0 <= w < names@.take(i + 1).len() && (#[trigger] names@.take(i + 1)[w])@
                            == n;
                    if w < i as int {
                        assert(names@.take(i as int)[w]@ == n);
                    }
                }
                if has_name(names@.take(i as int), n) {
                    let w = choose|w: int|
                        0 <= w < names@.take(i as int).len() && (#[trigger] names@.take(
                            i as int,
                        )[w])@ == n;
                    assert(names@.take(i + 1)[w]@ == n);
                }
                if n == x@ {
                    assert(names@.take(i + 1)[i as int]@ == n);
                }
            }
            assert forall|n: Seq<char>| has_name(r@, n) <==> has_name(names@.take(i + 1), n) by {
                assert(has_name(r@, n) <==> (has_name(entry_r, n) || n == x@));
                assert(has_name(entry_r, n) <==> has_name(names@.take(i as int), n));
                assert(has_name(names@.take(i + 1), n) <==> (has_name(names@.take(i as int), n)
                    || n == x@));
            }
        }
        i = i + 1;
    }
    proof {
        assert(names@.take(names@.len() as int) =~= names@);
    }
    r
}

impl Stats {
    /// Finalizes the name history: deduplicates and sorts the observed
    /// names, keeping every distinct name as an alias. The kill total is
    /// untouched.
    pub fn finalize(&mut self)
        ensures
            final(self).kills == old(self).kills,
            names_sorted_distinct(final(self).name@),
            forall|n: Seq<char>|
                has_name(final(self).name@, n) <==> has_name(old(self).name@, n),
    {
        let sorted = sorted_dedup(&self.name);
        self.name = sorted;
    }
}

/// The canonical display name of a finalized entry: the lexicographically
/// greatest observed name, absent only when no name was ever observed.
pub fn canonical_name(names: &Vec<String>) -> (r: Option<String>)
    ensures
        r is Some <==> names@.len() > 0,
        r matches Some(m) ==> has_name(names@, m@) && forall|i: int|
            0 <= i < names@.len() ==> lex_le((#[trigger] names@[i])@, m@),
{
    if names.len() == 0 {
        return None;
    }
    let mut best: usize = 0;
    let mut i: usize = 1;
    proof {
        lemma_lex_le_refl(names@[0]@);
    }
    while i < names.len()
        invariant
            0 <= best < i <= names@.len(),
            forall|a: int| 0 <= a < i ==> lex_le((#[trigger] names@[a])@, names@[best as int]@),
        decreases names@.len() - i,
    {
        if str_le(names[best].as_str(), names[i].as_str()) {
            proof {
                assert forall|a: int| 0 <= a < i + 1 implies lex_le(
                    (#[trigger] names@[a])@,
                    names@[i as int]@,
                ) by {
                    if a < i as int {
                        lemma_lex_le_trans(names@[a]@, names@[best as int]@, names@[i as int]@);
                    } else {
                        lemma_lex_le_refl(names@[i as int]@);
                    }
                }
            }
            best = i;
        } else {
            proof {
                lemma_lex_le_total(names@[best as int]@, names@[i as int]@);
            }
        }
        i = i + 1;
    }
    Some(names[best].clone())
}


/// Law: idempotence. Aggregation is a function of the outcomes alone, so
/// two identical fetch runs yield identical totals and name histories for
/// every player.
pub proof fn lemma_aggregation_idempotent(
    os1: Seq<Result<Log, FetchError>>,
    os2: Seq<Result<Log, FetchError>>,
    key: Seq<char>,
)
    requires
        os1 == os2,
    ensures
        total_kills(os1, key) == total_kills(os2, key),
        observed_names(os1, key) == observed_names(os2, key),
{
}

/// A name stands among the observed names exactly when some outcome of the
/// run contributes it.
pub proof fn lemma_observed_name_iff(
    os: Seq<Result<Log, FetchError>>,
    key: Seq<char>,
    n: Seq<char>,
)
    ensures
        observed_names(os, key).contains(n) <==> name_observed(os, key, n),
    decreases os.len(),
{
    if os.len() > 0 {
        lemma_observed_name_iff(os.drop_last(), key, n);
        let pre = observed_names(os.drop_last(), key);
        let tail = outcome_name(os.last(), key);
        let last = os.len() - 1;
        if observed_names(os, key).contains(n) {
            let w = choose|w: int| 0 <= w < (pre + tail).len() && (pre + tail)[w] == n;
            if w < pre.len() {
                assert(pre[w] == n);
                assert(pre.contains(n));
                let i = choose|i: int|
                    0 <= i < os.drop_last().len() && (#[trigger] outcome_name(
                        os.drop_last()[i],
                        key,
                    )).contains(n);
                assert(os[i] == os.drop_last()[i]);
                assert(outcome_name(os[i], key).contains(n));
            } else {
                assert(tail[w - pre.len()] == n);
                assert(outcome_name(os[last], key).contains(n));
            }
        }
        if name_observed(os, key, n) {
            let i = choose|i: int|
                0 <= i < os.len() && (#[trigger] outcome_name(os[i], key)).contains(n);
            if i < last {
                assert(os.drop_last()[i] == os[i]);
                assert(outcome_name(os.drop_last()[i], key).contains(n));
                assert(name_observed(os.drop_last(), key, n));
                assert(pre.contains(n));
                let w = choose|w: int| 0 <= w < pre.len() && pre[w] == n;
                assert((pre + tail)[w] == n);
            } else {
                assert(tail.contains(n));
                let w = choose|w: int| 0 <= w < tail.len() && tail[w] == n;
                assert((pre + tail)[pre.len() + w] == n);
            }
            assert(observed_names(os, key).contains(n));
        }
    }
}

/// Removing one outcome takes away exactly its own contribution to a
/// player's kill total.
pub proof fn lemma_total_kills_remove(os: Seq<Result<Log, FetchError>>, i: int, key: Seq<char>)
    requires
        0 <= i < os.len(),
    ensures
        total_kills(os, key) == total_kills(os.remove(i), key) + outcome_kills(os[i], key),
    decreases os.len(),
{
    if i == os.len() - 1 {
        assert(os.remove(i) =~= os.drop_last());
    } else {
        assert(os.remove(i).drop_last() =~= os.drop_last().remove(i));
        assert(os.remove(i).last() == os.last());
        lemma_total_kills_remove(os.drop_last(), i, key);
    }
}

/// Law: commutativity of kill totals. Two runs holding the same outcomes,
/// in any order, give every player the same kill total.
pub proof fn lemma_total_kills_reorder(
    os1: Seq<Result<Log, FetchError>>,
    os2: Seq<Result<Log, FetchError>>,
    key: Seq<char>,
)
    requires
        os1.to_multiset() == os2.to_multiset(),
    ensures
        total_kills(os1, key) == total_kills(os2, key),
    decreases os1.len(),
{
    broadcast use vstd::seq_lib::group_to_multiset_ensures;

    if os1.len() == 0 {
        assert(os1.to_multiset().len() == os1.len());
        assert(os2.to_multiset().len() == os2.len());
        assert(os2.len() == 0);
    } else {
        let x = os1.last();
        assert(os1[os1.len() - 1] == x);
        assert(os1.contains(x));
        assert(os2.to_multiset().count(x) > 0);
        assert(os2.contains(x));
        let j = choose|j: int| 0 <= j < os2.len() && os2[j] == x;
        lemma_total_kills_remove(os2, j, key);
        assert(os1.drop_last().push(x) =~= os1);
        assert(os1.drop_last().to_multiset().insert(x) == os1.to_multiset());
        assert(os2.remove(j).to_multiset() == os2.to_multiset().remove(x));
        assert(os1.drop_last().to_multiset() =~= os2.remove(j).to_multiset());
        lemma_total_kills_reorder(os1.drop_last(), os2.remove(j), key);
    }
}

/// Law: commutativity of name observation. Two runs holding the same
/// outcomes, in any order, observe the same names for every player.
pub proof fn lemma_name_observed_reorder(
    os1: Seq<Result<Log, FetchError>>,
    os2: Seq<Result<Log, FetchError>>,
    key: Seq<char>,
    n: Seq<char>,
)
    requires
        os1.to_multiset() == os2.to_multiset(),
    ensures
        name_observed(os1, key, n) == name_observed(os2, key, n),
{
    broadcast use vstd::seq_lib::group_to_multiset_ensures;

    if name_observed(os1, key, n) {
        let i = choose|i: int|
            0 <= i < os1.len() && (#[trigger] outcome_name(os1[i], key)).contains(n);
        assert(os1.contains(os1[i]));
        assert(os2.to_multiset().count(os1[i]) > 0);
        assert(os2.contains(os1[i]));
        let j = choose|j: int| 0 <= j < os2.len() && os2[j] == os1[i];
        assert(outcome_name(os2[j], key).contains(n));
    }
    if name_observed(os2, key, n) {
        let i = choose|i: int|
            0 <= i < os2.len() && (#[trigger] outcome_name(os2[i], key)).contains(n);
        assert(os2.contains(os2[i]));
        assert(os1.to_multiset().count(os2[i]) > 0);
        assert(os1.contains(os2[i]));
        let j = choose|j: int| 0 <= j < os1.len() && os1[j] == os2[i];
        assert(outcome_name(os1[j], key).contains(n));
    }
}

/// Law: fault isolation. A failed outcome contributes nothing: dropping it
/// leaves every player's kill total and observed names exactly as the other
/// outcomes made them.
pub proof fn lemma_fault_isolation(os: Seq<Result<Log, FetchError>>, i: int, key: Seq<char>)
    requires
        0 <= i < os.len(),
        os[i] is Err,
    ensures
        total_kills(os, key) == total_kills(os.remove(i), key),
        forall|n: Seq<char>| name_observed(os, key, n) == name_observed(os.remove(i), key, n),
{
    lemma_total_kills_remove(os, i, key);
    assert forall|n: Seq<char>|
        name_observed(os, key, n) == name_observed(os.remove(i), key, n) by {
        if name_observed(os, key, n) {
            let w = choose|w: int|
                0 <= w < os.len() && (#[trigger] outcome_name(os[w], key)).contains(n);
            assert(w != i);
            if w < i {
                assert(os.remove(i)[w] == os[w]);
                assert(outcome_name(os.remove(i)[w], key).contains(n));
            } else {
                assert(os.remove(i)[w - 1] == os[w]);
                assert(outcome_name(os.remove(i)[w - 1], key).contains(n));
            }
        }
        if name_observed(os.remove(i), key, n) {
            let w = choose|w: int|
                0 <= w < os.remove(i).len() && (#[trigger] outcome_name(
                    os.remove(i)[w],
                    key,
                )).contains(n);
            if w < i {
                assert(os[w] == os.remove(i)[w]);
                assert(outcome_name(os[w], key).contains(n));
            } else {
                assert(os[w + 1] == os.remove(i)[w]);
                assert(outcome_name(os[w + 1], key).contains(n));
            }
        }
    }
}

} // verus!
