use vstd::prelude::*;
use vstd::seq_lib::{to_multiset_build, to_multiset_insert};

use crate::models::ProcessInfo;

verus! {

/// Number of entries of each ranked list when the caller names no limit.
pub const DEFAULT_LIMIT: usize = 10;

/// Largest number of entries a ranked list may hold.
pub const MAX_LIMIT: usize = 50;

/// The quantity a process list is ranked by.
#[derive(PartialEq, Eq, Structural, Clone, Copy, Debug)]
pub enum RankBy {
    Cpu,
    Memory,
}

/// The ranking key of `p`: larger keys rank first.
pub open spec fn rank_key(p: ProcessInfo, by: RankBy) -> int {
    match by {
        RankBy::Cpu => p.cpu_usage_bits as int,
        RankBy::Memory => p.memory as int,
    }
}

/// `s` with `p` placed after every leading entry whose key is at least `p`'s.
pub open spec fn insert_ranked(s: Seq<ProcessInfo>, p: ProcessInfo, by: RankBy) -> Seq<ProcessInfo>
    decreases s.len(),
{
    if s.len() == 0 {
        seq![p]
    } else if rank_key(s[0], by) >= rank_key(p, by) {
        seq![s[0]] + insert_ranked(s.drop_first(), p, by)
    } else {
        seq![p] + s
    }
}

/// `s` in descending key order; entries with equal keys keep their order in `s`.
pub open spec fn ranked(s: Seq<ProcessInfo>, by: RankBy) -> Seq<ProcessInfo>
    decreases s.len(),
{
    if s.len() == 0 {
        Seq::empty()
    } else {
        insert_ranked(ranked(s.drop_last(), by), s.last(), by)
    }
}

/// Keys never increase along `s`.
pub open spec fn non_increasing(s: Seq<ProcessInfo>, by: RankBy) -> bool {
    forall|i: int, j: int| 0 <= i < j < s.len() ==> rank_key(s[i], by) >= rank_key(s[j], by)
}

/// The limit actually applied: the default when none is named, else the
/// requested one capped at the maximum.
pub open spec fn limit_of(requested: Option<usize>) -> nat {
    match requested {
        None => DEFAULT_LIMIT as nat,
        Some(l) => if l <= MAX_LIMIT { l as nat } else { MAX_LIMIT as nat },
    }
}

/// The first `limit` entries of `s` ranked by `by` (all of them if fewer).
pub open spec fn top(s: Seq<ProcessInfo>, by: RankBy, limit: nat) -> Seq<ProcessInfo> {
    let r = ranked(s, by);
    if limit <= r.len() { r.take(limit as int) } else { r }
}

/// The limit applied to a request: 10 when none is named, never above 50.
pub fn effective_limit(requested: Option<usize>) -> (r: usize)
    ensures
        r as nat == limit_of(requested),
        r <= MAX_LIMIT,
{
    match requested {
        None => DEFAULT_LIMIT,
        Some(l) => if l <= MAX_LIMIT { l } else { MAX_LIMIT },
    }
}

/// The key of `p` for ranking by `by`.
pub fn key_of(p: &ProcessInfo, by: RankBy) -> (r: u64)
    ensures
        r as int == rank_key(*p, by),
{
    match by {
        RankBy::Cpu => p.cpu_usage_bits as u64,
        RankBy::Memory => p.memory,
    }
}

proof fn lemma_insert_ranked_len(s: Seq<ProcessInfo>, p: ProcessInfo, by: RankBy)
    ensures
        insert_ranked(s, p, by).len() == s.len() + 1,
    decreases s.len(),
{
    if s.len() > 0 && rank_key(s[0], by) >= rank_key(p, by) {
        lemma_insert_ranked_len(s.drop_first(), p, by);
    }
}

/// Inserting at the first position whose key is below `p`'s.
proof fn lemma_insert_ranked_at(s: Seq<ProcessInfo>, p: ProcessInfo, by: RankBy, j: int)
    requires
        0 <= j <= s.len(),
        forall|k: int| 0 <= k < j ==> rank_key(#[trigger] s[k], by) >= rank_key(p, by),
        j < s.len() ==> rank_key(s[j], by) < rank_key(p, by),
    ensures
        insert_ranked(s, p, by) == s.take(j).push(p) + s.skip(j),
    decreases s.len(),
{
    if j == 0 {
        if s.len() == 0 {
            assert(s.take(0).push(p) + s.skip(0) =~= seq![p]);
        } else {
            assert(s.take(0).push(p) + s.skip(0) =~= seq![p] + s);
        }
    } else {
        let t = s.drop_first();
        assert forall|k: int| 0 <= k < j - 1 implies rank_key(#[trigger] t[k], by) >= rank_key(p, by) by {
            assert(t[k] == s[k + 1]);
        }
        lemma_insert_ranked_at(t, p, by, j - 1);
        assert(seq![s[0]] + (t.take(j - 1).push(p) + t.skip(j - 1)) =~= s.take(j).push(p) + s.skip(j));
    }
}

proof fn lemma_ranked_len(s: Seq<ProcessInfo>, by: RankBy)
    ensures
        ranked(s, by).len() == s.len(),
    decreases s.len(),
{
    if s.len() > 0 {
        lemma_ranked_len(s.drop_last(), by);
        lemma_insert_ranked_len(ranked(s.drop_last(), by), s.last(), by);
    }
}

proof fn lemma_insert_ranked_sorted(s: Seq<ProcessInfo>, p: ProcessInfo, by: RankBy)
    requires
        non_increasing(s, by),
    ensures
        non_increasing(insert_ranked(s, p, by), by),
        forall|i: int| 0 <= i < insert_ranked(s, p, by).len() ==>
            (#[trigger] insert_ranked(s, p, by)[i] == p || s.contains(insert_ranked(s, p, by)[i])),
    decreases s.len(),
{
    let r = insert_ranked(s, p, by);
    if s.len() == 0 {
    } else if rank_key(s[0], by) >= rank_key(p, by) {
        let t = s.drop_first();
        assert(non_increasing(t, by)) by {
            assert forall|i: int, j: int| 0 <= i < j < t.len() implies rank_key(t[i], by) >= rank_key(t[j], by) by {
                assert(t[i] == s[i + 1] && t[j] == s[j + 1]);
            }
        }
        lemma_insert_ranked_sorted(t, p, by);
        let rt = insert_ranked(t, p, by);
        assert(r == seq![s[0]] + rt);
        assert forall|i: int| 0 <= i < rt.len() implies rank_key(s[0], by) >= rank_key(#[trigger] rt[i], by) by {
            if rt[i] != p {
                let k = choose|k: int| 0 <= k < t.len() && t[k] == rt[i];
                assert(t[k] == s[k + 1]);
            }
        }
        assert forall|i: int, j: int| 0 <= i < j < r.len() implies rank_key(r[i], by) >= rank_key(r[j], by) by {
            if i == 0 {
                assert(r[j] == rt[j - 1]);
            } else {
                assert(r[i] == rt[i - 1] && r[j] == rt[j - 1]);
            }
        }
        assert forall|i: int| 0 <= i < r.len() implies (#[trigger] r[i] == p || s.contains(r[i])) by {
            if i == 0 {
                assert(s[0] == r[0]);
            } else {
                assert(r[i] == rt[i - 1]);
                if rt[i - 1] != p {
                    let k = choose|k: int| 0 <= k < t.len() && t[k] == rt[i - 1];
                    assert(s[k + 1] == r[i]);
                }
            }
        }
    } else {
        assert(r == seq![p] + s);
        assert forall|i: int, j: int| 0 <= i < j < r.len() implies rank_key(r[i], by) >= rank_key(r[j], by) by {
            if i == 0 {
                assert(r[j] == s[j - 1]);
            } else {
                assert(r[i] == s[i - 1] && r[j] == s[j - 1]);
            }
        }
        assert forall|i: int| 0 <= i < r.len() implies (#[trigger] r[i] == p || s.contains(r[i])) by {
            if i > 0 {
                assert(r[i] == s[i - 1]);
            }
        }
    }
}

/// A ranked sequence is in descending key order and as long as its input.
pub proof fn lemma_ranked_sorted(s: Seq<ProcessInfo>, by: RankBy)
    ensures
        non_increasing(ranked(s, by), by),
        ranked(s, by).len() == s.len(),
    decreases s.len(),
{
    lemma_ranked_len(s, by);
    if s.len() > 0 {
        lemma_ranked_sorted(s.drop_last(), by);
        lemma_insert_ranked_sorted(ranked(s.drop_last(), by), s.last(), by);
    }
}

/// All of `procs`, ranked by `by`: descending key, ties in input order.
pub fn rank_processes(procs: &Vec<ProcessInfo>, by: RankBy) -> (r: Vec<ProcessInfo>)
    ensures
        r@ == ranked(procs@, by),
{
    let mut out: Vec<ProcessInfo> = Vec::new();
    let mut i: usize = 0;
    while i < procs.len()
        invariant
            i <= procs.len(),
            out@ == ranked(procs@.take(i as int), by),
        decreases procs.len() - i,
    {
        let p = procs[i].duplicate();
        let pk = key_of(&p, by);
        proof {
            lemma_ranked_len(procs@.take(i as int), by);
        }
        let mut j: usize = 0;
        while j < out.len() && key_of(&out[j], by) >= pk
            invariant
                j <= out.len(),
                forall|k: int| 0 <= k < j ==> rank_key(#[trigger] out@[k], by) >= pk,
            decreases out.len() - j,
        {
            j = j + 1;
        }
        proof {
            lemma_insert_ranked_at(out@, p, by, j as int);
            assert(procs@.take(i + 1).drop_last() =~= procs@.take(i as int));
            assert(procs@.take(i + 1).last() == procs@[i as int]);
        }
        let ghost before = out@;
        out.insert(j, p);
        assert(out@ =~= before.take(j as int).push(p) + before.skip(j as int));
        i = i + 1;
    }
    assert(procs@.take(procs.len() as int) =~= procs@);
    out
}

proof fn lemma_insert_ranked_is_insert(s: Seq<ProcessInfo>, p: ProcessInfo, by: RankBy) -> (j: int)
    ensures
        0 <= j <= s.len(),
        insert_ranked(s, p, by) == s.insert(j, p),
    decreases s.len(),
{
    if s.len() == 0 {
        assert(s.insert(0, p) =~= seq![p]);
        0
    } else if rank_key(s[0], by) >= rank_key(p, by) {
        let k = lemma_insert_ranked_is_insert(s.drop_first(), p, by);
        assert(seq![s[0]] + s.drop_first().insert(k, p) =~= s.insert(k + 1, p));
        k + 1
    } else {
        assert(s.insert(0, p) =~= seq![p] + s);
        0
    }
}

/// Ranking neither drops nor adds entries: the ranked sequence holds each
/// entry of the input as often as the input does.
pub proof fn lemma_ranked_permutes(s: Seq<ProcessInfo>, by: RankBy)
    ensures
        ranked(s, by).to_multiset() == s.to_multiset(),
    decreases s.len(),
{
    if s.len() > 0 {
        let rest = s.drop_last();
        lemma_ranked_permutes(rest, by);
        let j = lemma_insert_ranked_is_insert(ranked(rest, by), s.last(), by);
        lemma_ranked_len(rest, by);
        to_multiset_insert(ranked(rest, by), j, s.last());
        to_multiset_build(rest, s.last());
        assert(rest.push(s.last()) =~= s);
    } else {
        assert(s =~= Seq::<ProcessInfo>::empty());
    }
}

/// Whether an entry's key is `k`.
pub open spec fn has_key(by: RankBy, k: int) -> spec_fn(ProcessInfo) -> bool {
    |p: ProcessInfo| rank_key(p, by) == k
}

proof fn lemma_insert_ranked_filter(t: Seq<ProcessInfo>, p: ProcessInfo, by: RankBy, k: int)
    requires
        non_increasing(t, by),
    ensures
        insert_ranked(t, p, by).filter(has_key(by, k)) == if rank_key(p, by) == k {
            t.filter(has_key(by, k)).push(p)
        } else {
            t.filter(has_key(by, k))
        },
    decreases t.len(),
{
    let f = has_key(by, k);
    reveal(Seq::filter);
    if t.len() == 0 {
        Seq::<ProcessInfo>::empty().lemma_filter_prepend(p, f);
        assert(seq![p] =~= seq![p] + Seq::<ProcessInfo>::empty());
        assert(t.filter(f) =~= Seq::<ProcessInfo>::empty());
        assert(Seq::<ProcessInfo>::empty().filter(f) =~= Seq::<ProcessInfo>::empty());
        assert(Seq::<ProcessInfo>::empty().push(p) =~= seq![p]);
    } else {
        let rest = t.drop_first();
        assert(t =~= seq![t[0]] + rest);
        rest.lemma_filter_prepend(t[0], f);
        if rank_key(t[0], by) >= rank_key(p, by) {
            assert(non_increasing(rest, by)) by {
                assert forall|i: int, j: int| 0 <= i < j < rest.len() implies rank_key(rest[i], by)
                    >= rank_key(rest[j], by) by {
                    assert(rest[i] == t[i + 1] && rest[j] == t[j + 1]);
                }
            }
            lemma_insert_ranked_filter(rest, p, by, k);
            insert_ranked(rest, p, by).lemma_filter_prepend(t[0], f);
            let head = if f(t[0]) { seq![t[0]] } else { Seq::<ProcessInfo>::empty() };
            assert((head + rest.filter(f)).push(p) =~= head + rest.filter(f).push(p));
        } else {
            t.lemma_filter_prepend(p, f);
            if rank_key(p, by) == k {
                assert forall|i: int| 0 <= i < t.len() implies !f(#[trigger] t[i]) by {
                    if i > 0 {
                        assert(rank_key(t[0], by) >= rank_key(t[i], by));
                    }
                }
                t.lemma_all_neg_filter_empty(f);
                assert(seq![p] + t.filter(f) =~= t.filter(f).push(p));
            } else {
                assert(Seq::<ProcessInfo>::empty() + t.filter(f) =~= t.filter(f));
            }
        }
    }
}

/// Ranking is stable: for every key value, the entries with that key come in
/// the same order in the ranked sequence as in the input.
pub proof fn lemma_ranked_stable(s: Seq<ProcessInfo>, by: RankBy, k: int)
    ensures
        ranked(s, by).filter(has_key(by, k)) == s.filter(has_key(by, k)),
    decreases s.len(),
{
    reveal(Seq::filter);
    if s.len() > 0 {
        let rest = s.drop_last();
        lemma_ranked_stable(rest, by, k);
        lemma_ranked_sorted(rest, by);
        lemma_insert_ranked_filter(ranked(rest, by), s.last(), by, k);
    }
}

/// Each ranked list holds `min(limit, n)` entries of the `n` processes, in
/// descending key order.
pub proof fn lemma_top_shape(s: Seq<ProcessInfo>, by: RankBy, limit: nat)
    ensures
        top(s, by, limit).len() == if limit <= s.len() { limit as int } else { s.len() as int },
        non_increasing(top(s, by, limit), by),
{
    lemma_ranked_sorted(s, by);
    let r = ranked(s, by);
    if limit <= r.len() {
        assert forall|i: int, j: int| 0 <= i < j < r.take(limit as int).len() implies
            rank_key(r.take(limit as int)[i], by) >= rank_key(r.take(limit as int)[j], by) by {
            assert(r.take(limit as int)[i] == r[i] && r.take(limit as int)[j] == r[j]);
        }
    }
}

/// The first `limit` entries of `procs` ranked by `by`.
pub fn top_processes(procs: &Vec<ProcessInfo>, by: RankBy, limit: usize) -> (r: Vec<ProcessInfo>)
    ensures
        r@ == top(procs@, by, limit as nat),
{
    let mut r = rank_processes(procs, by);
    proof {
        lemma_ranked_len(procs@, by);
    }
    r.truncate(limit);
    r
}

/// Whatever limit is requested, each ranked list holds at most 50 entries,
/// and a limit of zero gives empty lists.
pub proof fn lemma_limit_clamped(s: Seq<ProcessInfo>, by: RankBy, requested: Option<usize>)
    ensures
        top(s, by, limit_of(requested)).len() <= MAX_LIMIT,
        requested == Some(0usize) ==> top(s, by, limit_of(requested)).len() == 0,
{
    lemma_top_shape(s, by, limit_of(requested));
}

} // verus!
