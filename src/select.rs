use vstd::prelude::*;
use crate::random::draw_between;

verus! {

/// `0, 1, ..., n - 1`.
pub open spec fn identity(n: nat) -> Seq<int> {
    Seq::new(n, |i: int| i)
}

pub open spec fn swap(s: Seq<int>, a: int, b: int) -> Seq<int> {
    s.update(a, s[b]).update(b, s[a])
}

/// Partial Fisher-Yates over `0..n`: step `i` swaps position `i` with
/// position `picks[i]`.
pub open spec fn shuffle(n: nat, picks: Seq<int>) -> Seq<int>
    decreases picks.len(),
{
    if picks.len() == 0 {
        identity(n)
    } else {
        let i = picks.len() - 1;
        swap(shuffle(n, picks.drop_last()), i, picks[i])
    }
}

/// Each pick stays at or after its own step and inside `0..n`.
pub open spec fn valid_picks(n: nat, picks: Seq<int>) -> bool {
    &&& picks.len() <= n
    &&& forall|i: int| 0 <= i < picks.len() ==> i <= #[trigger] picks[i] < n
}

/// The candidates that the first `picks.len()` positions of the shuffle name.
pub open spec fn picked(cands: Seq<Seq<char>>, picks: Seq<int>) -> Seq<Seq<char>> {
    Seq::new(picks.len(), |i: int| cands[shuffle(cands.len(), picks)[i]])
}

pub open spec fn string_views(v: Seq<String>) -> Seq<Seq<char>> {
    v.map_values(|s: String| s@)
}

pub open spec fn is_perm_of_range(s: Seq<int>, n: nat) -> bool {
    &&& s.len() == n
    &&& forall|i: int| 0 <= i < n ==> 0 <= #[trigger] s[i] < n
    &&& forall|i: int, j: int| 0 <= i < n && 0 <= j < n && i != j ==> #[trigger] s[i] != #[trigger] s[j]
}

/// Every prefix of picks shuffles `0..n` into an arrangement of `0..n`.
pub proof fn lemma_shuffle_perm(n: nat, picks: Seq<int>)
    requires
        valid_picks(n, picks),
    ensures
        is_perm_of_range(shuffle(n, picks), n),
    decreases picks.len(),
{
    if picks.len() > 0 {
        let p = picks.drop_last();
        assert(valid_picks(n, p));
        lemma_shuffle_perm(n, p);
        let i = picks.len() - 1;
        let s = shuffle(n, p);
        let t = swap(s, i, picks[i]);
        assert forall|x: int, y: int| 0 <= x < n && 0 <= y < n && x != y implies #[trigger] t[x]
            != #[trigger] t[y] by {
            let sx = if x == picks[i] { i } else if x == i { picks[i] } else { x };
            let sy = if y == picks[i] { i } else if y == i { picks[i] } else { y };
            assert(t[x] == s[sx]);
            assert(t[y] == s[sy]);
        }
    }
}

/// Every target is one of the candidates.
pub proof fn lemma_picked_members(cands: Seq<Seq<char>>, picks: Seq<int>)
    requires
        valid_picks(cands.len(), picks),
    ensures
        forall|a: int|
            0 <= a < picks.len() ==> #[trigger] cands.contains(picked(cands, picks)[a]),
{
    lemma_shuffle_perm(cands.len(), picks);
    let s = shuffle(cands.len(), picks);
    assert forall|a: int| 0 <= a < picks.len() implies #[trigger] cands.contains(
        picked(cands, picks)[a],
    ) by {
        assert(cands[s[a]] == picked(cands, picks)[a]);
    }
}

/// Two positions of a pick never name the same candidate, so distinct
/// candidates give distinct targets.
pub proof fn lemma_picked_distinct(cands: Seq<Seq<char>>, picks: Seq<int>)
    requires
        valid_picks(cands.len(), picks),
        no_duplicates(cands),
    ensures
        no_duplicates(picked(cands, picks)),
{
    lemma_shuffle_perm(cands.len(), picks);
}

/// The targets named by explicit picks: step `i` swaps position `i` of the
/// candidate order with position `picks[i]`, and the first `picks.len()`
/// positions are taken.
pub fn pick_targets(candidates: &Vec<String>, picks: &Vec<usize>) -> (r: Vec<String>)
    requires
        valid_picks(candidates@.len(), picks@.map_values(|p: usize| p as int)),
    ensures
        string_views(r@) == picked(string_views(candidates@), picks@.map_values(|p: usize| p as int)),
{
    let ghost ps = picks@.map_values(|p: usize| p as int);
    let n = candidates.len();
    let mut order: Vec<usize> = Vec::new();
    let mut k: usize = 0;
    while k < n
        invariant
            k <= n,
            n == candidates@.len(),
            order@.len() == k,
            forall|i: int| 0 <= i < k ==> order@[i] == i,
        decreases n - k,
    {
        order.push(k);
        k = k + 1;
    }
    assert(order@.map_values(|p: usize| p as int) =~= shuffle(n as nat, ps.take(0)));
    let mut i: usize = 0;
    while i < picks.len()
        invariant
            i <= picks@.len(),
            ps == picks@.map_values(|p: usize| p as int),
            valid_picks(n as nat, ps),
            n == candidates@.len(),
            order@.len() == n,
            order@.map_values(|p: usize| p as int) =~= shuffle(n as nat, ps.take(i as int)),
        decreases picks@.len() - i,
    {
        let j = picks[i];
        assert(ps[i as int] == j as int);
        let a = order[i];
        let b = order[j];
        order.set(i, b);
        order.set(j, a);
        assert(ps.take(i + 1).drop_last() =~= ps.take(i as int));
        assert(order@.map_values(|p: usize| p as int) =~= shuffle(n as nat, ps.take(i + 1)));
        i = i + 1;
    }
    assert(ps.take(picks@.len() as int) =~= ps);
    proof {
        assert(valid_picks(n as nat, ps));
        lemma_shuffle_perm(n as nat, ps);
        assert forall|x: int| 0 <= x < n implies #[trigger] order@[x] < n by {
            assert(order@.map_values(|p: usize| p as int)[x] == order@[x] as int);
        }
    }
    let mut r: Vec<String> = Vec::new();
    let mut t: usize = 0;
    while t < picks.len()
        invariant
            t <= picks@.len(),
            ps == picks@.map_values(|p: usize| p as int),
            n == candidates@.len(),
            picks@.len() <= n,
            order@.len() == n,
            order@.map_values(|p: usize| p as int) =~= shuffle(n as nat, ps),
            is_perm_of_range(shuffle(n as nat, ps), n as nat),
            r@.len() == t,
            forall|x: int| 0 <= x < n ==> #[trigger] order@[x] < n,
            forall|x: int|
                0 <= x < t ==> #[trigger] r@[x]@ == candidates@[order@[x] as int]@,
        decreases picks@.len() - t,
    {
        assert(0 <= shuffle(n as nat, ps)[t as int] < n);
        assert(order@.map_values(|p: usize| p as int)[t as int] == order@[t as int] as int);
        let s = candidates[order[t]].clone();
        assert(s@ == candidates@[order@[t as int] as int]@);
        r.push(s);
        assert(r@[t as int]@ == candidates@[order@[t as int] as int]@);
        t = t + 1;
    }
    assert(string_views(r@) =~= picked(string_views(candidates@), ps));
    r
}

/// No view occurs twice.
pub open spec fn no_duplicates(s: Seq<Seq<char>>) -> bool {
    forall|a: int, b: int| 0 <= a < s.len() && 0 <= b < s.len() && a != b ==> #[trigger] s[a] != #[trigger] s[b]
}

pub open spec fn min_nat(a: nat, b: nat) -> nat {
    if a <= b { a } else { b }
}

/// `s` with each view kept at its first position only.
pub open spec fn distinct_views(s: Seq<Seq<char>>) -> Seq<Seq<char>>
    decreases s.len(),
{
    if s.len() == 0 {
        Seq::empty()
    } else {
        let d = distinct_views(s.drop_last());
        if d.contains(s.last()) {
            d
        } else {
            d.push(s.last())
        }
    }
}

/// Dropping repeats leaves no duplicates, keeps exactly the views of `s`, and
/// changes nothing in a sequence that had none.
pub proof fn lemma_distinct_views(s: Seq<Seq<char>>)
    ensures
        no_duplicates(distinct_views(s)),
        forall|x: Seq<char>| distinct_views(s).contains(x) <==> s.contains(x),
        no_duplicates(s) ==> distinct_views(s) == s,
    decreases s.len(),
{
    if s.len() > 0 {
        let p = s.drop_last();
        lemma_distinct_views(p);
        let d = distinct_views(p);
        assert forall|x: Seq<char>| distinct_views(s).contains(x) <==> s.contains(x) by {
            if s.contains(x) && x != s.last() {
                let k = choose|k: int| 0 <= k < s.len() && s[k] == x;
                assert(p[k] == x);
            }
            if p.contains(x) {
                let k = choose|k: int| 0 <= k < p.len() && p[k] == x;
                assert(s[k] == x);
            }
            if !d.contains(s.last()) {
                assert(d.push(s.last())[d.len() as int] == s.last());
                if d.contains(x) {
                    let k = choose|k: int| 0 <= k < d.len() && d[k] == x;
                    assert(d.push(s.last())[k] == x);
                }
                if d.push(s.last()).contains(x) && x != s.last() {
                    let k = choose|k: int| 0 <= k < d.len() + 1 && d.push(s.last())[k] == x;
                    assert(d[k] == x);
                }
            }
        }
        if no_duplicates(s) {
            assert(no_duplicates(p));
            assert(!p.contains(s.last())) by {
                if p.contains(s.last()) {
                    let k = choose|k: int| 0 <= k < p.len() && p[k] == s.last();
                    assert(s[k] == s[s.len() - 1]);
                }
            }
            assert(p.push(s.last()) =~= s);
        }
    }
}

/// The candidates with repeated paths dropped.
fn distinct_paths(c: &Vec<String>) -> (r: Vec<String>)
    ensures
        string_views(r@) == distinct_views(string_views(c@)),
{
    let mut r: Vec<String> = Vec::new();
    let mut i: usize = 0;
    while i < c.len()
        invariant
            i <= c@.len(),
            string_views(r@) == distinct_views(string_views(c@.take(i as int))),
        decreases c@.len() - i,
    {
        let mut found = false;
        let mut j: usize = 0;
        while j < r.len()
            invariant
                j <= r@.len(),
                i < c@.len(),
                found <==> exists|k: int| 0 <= k < j && r@[k]@ == c@[i as int]@,
            decreases r@.len() - j,
        {
            if crate::candidates::equals(r[j].as_str(), c[i].as_str()) {
                found = true;
            }
            j = j + 1;
        }
        let ghost sv = string_views(c@.take(i + 1));
        assert(sv.drop_last() =~= string_views(c@.take(i as int)));
        assert(sv.last() == c@[i as int]@);
        let ghost d = string_views(r@);
        assert(found <==> d.contains(c@[i as int]@)) by {
            if found {
                let k = choose|k: int| 0 <= k < r@.len() && r@[k]@ == c@[i as int]@;
                assert(d[k] == c@[i as int]@);
            }
            if d.contains(c@[i as int]@) {
                let k = choose|k: int| 0 <= k < d.len() && d[k] == c@[i as int]@;
                assert(r@[k]@ == d[k]);
            }
        }
        if !found {
            r.push(c[i].clone());
            assert(string_views(r@) =~= d.push(c@[i as int]@));
        }
        i = i + 1;
    }
    assert(c@.take(c@.len() as int) =~= c@);
    r
}

/// Chooses how many files to touch, uniformly in the configured range clamped
/// to the candidates at hand, then that many distinct candidates uniformly
/// without replacement.
pub fn select_targets(
    candidates: &Vec<String>,
    min_files: usize,
    max_files: usize,
    rng: &mut rand::rngs::StdRng,
) -> (r: Vec<String>)
    requires
        min_files <= max_files,
    ensures
        min_nat(min_files as nat, distinct_views(string_views(candidates@)).len()) <= r@.len(),
        r@.len() <= min_nat(max_files as nat, distinct_views(string_views(candidates@)).len()),
        exists|picks: Seq<int>|
            valid_picks(distinct_views(string_views(candidates@)).len(), picks) && string_views(r@)
                == picked(distinct_views(string_views(candidates@)), picks),
        forall|i: int| 0 <= i < r@.len() ==> string_views(candidates@).contains(#[trigger] r@[i]@),
        no_duplicates(string_views(r@)),
{
    let pool = distinct_paths(candidates);
    let len = pool.len();
    let lo = if min_files < len { min_files } else { len };
    let hi = if max_files < len { max_files } else { len };
    let n = draw_between(rng, lo, hi);
    let mut picks: Vec<usize> = Vec::new();
    let mut i: usize = 0;
    while i < n
        invariant
            i <= n,
            n <= len,
            len == pool@.len(),
            picks@.len() == i,
            forall|x: int| 0 <= x < i ==> x <= #[trigger] picks@[x] < len,
        decreases n - i,
    {
        let j = draw_between(rng, i, len - 1);
        picks.push(j);
        i = i + 1;
    }
    let ghost ps = picks@.map_values(|p: usize| p as int);
    assert(valid_picks(len as nat, ps)) by {
        assert forall|x: int| 0 <= x < ps.len() implies x <= #[trigger] ps[x] < len by {
            assert(ps[x] == picks@[x] as int);
        }
    }
    let r = pick_targets(&pool, &picks);
    proof {
        let cs = string_views(pool@);
        lemma_distinct_views(string_views(candidates@));
        assert(string_views(r@).len() == r@.len());
        assert(ps.len() == n);
        assert(cs.len() == len);
        lemma_picked_members(cs, ps);
        assert forall|i: int| 0 <= i < r@.len() implies string_views(candidates@).contains(
            #[trigger] r@[i]@,
        ) by {
            assert(string_views(r@)[i] == r@[i]@);
            assert(picked(cs, ps)[i] == string_views(r@)[i]);
            assert(cs.contains(r@[i]@));
        }
        lemma_picked_distinct(cs, ps);
    }
    r
}

} // verus!
