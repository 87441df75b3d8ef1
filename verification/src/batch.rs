//! The Batcher: groups an ordered sequence of log IDs into batches of a
//! fixed quota, preserving order; the final batch may be shorter, and no
//! batch is ever empty.

use vstd::prelude::*;
use vstd::arithmetic::div_mod::{
    lemma_fundamental_div_mod, lemma_fundamental_div_mod_converse,
    lemma_mod_division_less_than_divisor,
};

verus! {

/// The end of the batch that starts at `i * q`: one full quota further, or
/// the end of the input for the final, possibly shorter batch.
pub open spec fn batch_end(n: int, q: int, i: int) -> int {
    if (i + 1) * q <= n {
        (i + 1) * q
    } else {
        n
    }
}

/// `bs` cuts `ids` into consecutive batches of `q` IDs each, in order, with
/// a shorter (but never empty) final batch when `q` does not divide the
/// count evenly.
pub open spec fn batched(bs: Seq<Seq<u32>>, ids: Seq<u32>, q: int) -> bool {
    let n = ids.len() as int;
    &&& q > 0
    &&& if n == 0 {
        bs.len() == 0
    } else {
        (bs.len() - 1) * q < n <= bs.len() * q
    }
    &&& forall|i: int|
        0 <= i < bs.len() ==> #[trigger] bs[i] == ids.subrange(i * q, batch_end(n, q, i))
}

/// Groups the IDs into batches of `quota`, matching `batched`.
pub fn make_batches(ids: &Vec<u32>, quota: usize) -> (r: Vec<Vec<u32>>)
    requires
        quota > 0,
    ensures
        batched(r@.map_values(|b: Vec<u32>| b@), ids@, quota as int),
{
    let ghost q = quota as int;
    let ghost n = ids@.len() as int;
    let nn = ids.len();
    let mut r: Vec<Vec<u32>> = Vec::new();
    let mut pos: usize = 0;
    proof {
        assert(r@.len() * q == 0) by (nonlinear_arith)
            requires
                r@.len() == 0,
        ;
    }
    while pos < nn
        invariant
            quota > 0,
            q == quota as int,
            n == ids@.len() as int,
            nn == ids.len(),
            0 <= pos <= nn,
            pos == n || pos == r@.len() * q,
            batched(r@.map_values(|b: Vec<u32>| b@), ids@.take(pos as int), q),
        decreases nn - pos,
    {
        let ghost m = r@.len() as int;
        proof {
            // while another batch remains, every batch so far was full
            if pos != m * q {
                assert(pos == n);
                assert(false);
            }
            assert(m * q + q == (m + 1) * q) by (nonlinear_arith);
        }
        let end = if nn - pos >= quota {
            pos + quota
        } else {
            nn
        };
        let mut chunk: Vec<u32> = Vec::new();
        let mut k = pos;
        while k < end
            invariant
                pos <= k <= end <= nn,
                nn == ids.len(),
                chunk@ == ids@.subrange(pos as int, k as int),
            decreases end - k,
        {
            chunk.push(ids[k]);
            proof {
                assert(chunk@ =~= ids@.subrange(pos as int, k + 1));
            }
            k = k + 1;
        }
        let ghost obs = r@.map_values(|b: Vec<u32>| b@);
        r.push(chunk);
        proof {
            let bs = r@.map_values(|b: Vec<u32>| b@);
            assert(bs =~= obs.push(chunk@));
            let p = end as int;
            // count bound for the grown prefix
            assert((bs.len() - 1) * q == m * q);
            assert(p <= (m + 1) * q && m * q < p);
            // every batch of the grown prefix has the batched shape
            assert forall|i: int| 0 <= i < bs.len() implies #[trigger] bs[i]
                == ids@.take(p).subrange(i * q, batch_end(p, q, i)) by {
                if i < m {
                    assert((i + 1) * q <= m * q && i * q >= 0 && (i + 1) * q == i * q + q)
                        by (nonlinear_arith)
                        requires
                            0 <= i < m,
                            q > 0,
                    ;
                    assert(bs[i] == obs[i]);
                    assert(obs[i] == ids@.take(pos as int).subrange(
                        i * q,
                        batch_end(pos as int, q, i),
                    ));
                    assert(batch_end(pos as int, q, i) == (i + 1) * q);
                    assert(batch_end(p, q, i) == (i + 1) * q);
                    assert(ids@.take(pos as int).subrange(i * q, (i + 1) * q) =~= ids@.take(
                        p,
                    ).subrange(i * q, (i + 1) * q));
                } else {
                    assert(i == m);
                    assert(batch_end(p, q, m) == p);
                    assert(bs[m] == chunk@);
                    assert(chunk@ =~= ids@.take(p).subrange(m * q, p));
                }
            }
        }
        pos = end;
    }
    proof {
        assert(ids@.take(pos as int) =~= ids@);
    }
    r
}

/// Law: batching reproduces the input exactly once flattened, and the number
/// of batches is the count of IDs divided by the quota, rounded up.
pub proof fn lemma_batched_flatten(bs: Seq<Seq<u32>>, ids: Seq<u32>, q: int)
    requires
        batched(bs, ids, q),
    ensures
        bs.flatten() == ids,
        bs.len() == (ids.len() + q - 1) / q,
    decreases bs.len(),
{
    let n = ids.len() as int;
    let m = bs.len() as int;
    if m == 0 {
        assert(bs.flatten() =~= ids);
        assert((n + q - 1) / q == 0) by {
            lemma_fundamental_div_mod_converse(n + q - 1, q, 0, n + q - 1);
        }
    } else {
        let cut = batch_end(n, q, 0);
        let rest = ids.skip(cut);
        assert(bs[0] == ids.subrange(0, cut));
        if m == 1 {
            assert(n <= 1 * q && q <= 1 * q) by (nonlinear_arith)
                requires
                    n <= m * q,
                    m == 1,
                    q > 0,
            ;
            assert(cut == n);
            assert(rest.len() == 0);
            assert(bs.drop_first().flatten() =~= Seq::<u32>::empty());
            assert(bs.flatten() =~= bs[0]);
            assert(bs.flatten() =~= ids);
            lemma_fundamental_div_mod_converse(n + q - 1, q, 1, n - 1);
        } else {
            // all but the last batch are full, so the first one is
            assert(q < n) by (nonlinear_arith)
                requires
                    (m - 1) * q < n,
                    m >= 2,
                    q > 0,
            ;
            assert(cut == q);
            // the remaining batches cut the remaining IDs
            let tbs = bs.drop_first();
            assert((tbs.len() - 1) * q < n - q <= tbs.len() * q) by (nonlinear_arith)
                requires
                    tbs.len() == m - 1,
                    (m - 1) * q < n <= m * q,
                    q > 0,
            ;
            assert forall|i: int| 0 <= i < tbs.len() implies #[trigger] tbs[i] == rest.subrange(
                i * q,
                batch_end(n - q, q, i),
            ) by {
                assert(tbs[i] == bs[i + 1]);
                assert(bs[i + 1] == ids.subrange((i + 1) * q, batch_end(n, q, i + 1)));
                assert((i + 1) * q == i * q + q && (i + 2) * q == (i + 1) * q + q && i * q >= 0)
                    by (nonlinear_arith)
                    requires
                        i >= 0,
                        q > 0,
                ;
                assert(i * q <= (tbs.len() - 1) * q) by (nonlinear_arith)
                    requires
                        0 <= i <= tbs.len() - 1,
                        q > 0,
                ;
                assert(batch_end(n, q, i + 1) == q + batch_end(n - q, q, i));
                assert(ids.subrange(q + i * q, q + batch_end(n - q, q, i)) =~= rest.subrange(
                    i * q,
                    batch_end(n - q, q, i),
                ));
            }
            assert(batched(tbs, rest, q));
            lemma_batched_flatten(tbs, rest, q);
            assert(bs.flatten() == bs[0] + tbs.flatten());
            assert(bs[0] + rest =~= ids);
            assert((n - 1) / q + 1 == (n + q - 1) / q) by {
                lemma_fundamental_div_mod(n - 1, q);
                lemma_mod_division_less_than_divisor(n - 1, q);
                assert(n + q - 1 == ((n - 1) / q + 1) * q + ((n - 1) % q)) by (nonlinear_arith)
                    requires
                        n - 1 == q * ((n - 1) / q) + ((n - 1) % q),
                ;
                lemma_fundamental_div_mod_converse(n + q - 1, q, (n - 1) / q + 1, (n - 1) % q);
            }
        }
    }
}

} // verus!
