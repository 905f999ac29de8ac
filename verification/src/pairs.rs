use vstd::prelude::*;

verus! {

/// `a` comes strictly before `b` in lexicographic order.
pub open spec fn pair_before(a: (usize, usize), b: (usize, usize)) -> bool {
    a.0 < b.0 || (a.0 == b.0 && a.1 < b.1)
}

/// `p` names two distinct bodies out of `n`, the lower index first.
pub open spec fn is_pair(n: int, p: (usize, usize)) -> bool {
    p.0 < p.1 < n
}

/// The number of pairs `(i, j)` with `i < j < n` and `i < row`: the
/// position at which the pairs of body `row` begin.
pub open spec fn row_start(n: int, row: int) -> int
    decreases row,
{
    if row <= 0 {
        0
    } else {
        row_start(n, row - 1) + (n - row)
    }
}

/// The position of the pair `(a, b)` in the lexicographic enumeration of
/// all pairs of `n` bodies.
pub open spec fn pair_rank(n: int, a: int, b: int) -> int {
    row_start(n, a) + (b - a - 1)
}

/// `s` lists every pair of distinct bodies out of `n` once, lower index
/// first, in lexicographic order: the order in which the force and the
/// potential energy of each pair are accumulated.
pub open spec fn is_pair_schedule(n: int, s: Seq<(usize, usize)>) -> bool {
    &&& s.len() == n * (n - 1) / 2
    &&& forall|k: int| 0 <= k < s.len() ==> is_pair(n, #[trigger] s[k])
    &&& forall|k1: int, k2: int| 0 <= k1 < k2 < s.len() ==> pair_before(#[trigger] s[k1], #[trigger] s[k2])
    &&& forall|a: int, b: int| 0 <= a < b < n ==> 0 <= #[trigger] pair_rank(n, a, b) < s.len()
        && s[pair_rank(n, a, b)] == (a as usize, b as usize)
}

proof fn lemma_row_start_closed_form(n: int, row: int)
    requires
        0 <= row,
    ensures
        2 * row_start(n, row) == row * (2 * n - row - 1),
    decreases row,
{
    if row > 0 {
        lemma_row_start_closed_form(n, row - 1);
        assert(2 * row_start(n, row) == row * (2 * n - row - 1)) by (nonlinear_arith)
            requires
                2 * row_start(n, row - 1) == (row - 1) * (2 * n - (row - 1) - 1),
                row_start(n, row) == row_start(n, row - 1) + (n - row),
        ;
    } else {
        assert(row * (2 * n - row - 1) == 0) by (nonlinear_arith)
            requires
                row == 0,
        ;
    }
}

proof fn lemma_row_start_monotone(n: int, r1: int, r2: int)
    requires
        0 <= r1 <= r2 <= n,
    ensures
        row_start(n, r1) <= row_start(n, r2),
        r1 < r2 ==> row_start(n, r1) + (n - r1 - 1) <= row_start(n, r2),
    decreases r2 - r1,
{
    if r1 < r2 {
        lemma_row_start_monotone(n, r1, r2 - 1);
    }
}

proof fn lemma_rank_order(n: int, a: int, b: int, i: int, j: int)
    requires
        0 <= a < b < n,
        0 <= i < n,
        i < j <= n,
        a < i || (a == i && b < j),
    ensures
        0 <= pair_rank(n, a, b) < pair_rank(n, i, j),
{
    lemma_row_start_monotone(n, 0, a);
    if a < i {
        lemma_row_start_monotone(n, a, i);
    }
}

proof fn lemma_total_pairs(n: int)
    requires
        0 <= n,
    ensures
        row_start(n, n) == n * (n - 1) / 2,
{
    lemma_row_start_closed_form(n, n);
    assert(n * (2 * n - n - 1) == n * (n - 1)) by (nonlinear_arith);
}

/// Lists the pairs of distinct bodies out of `n`, each once, lower index
/// first, in the order of the nested loops `for i in 0..n { for j in i+1..n }`.
pub fn pair_schedule(n: usize) -> (pairs: Vec<(usize, usize)>)
    requires
        n * (n - 1) / 2 <= usize::MAX,
    ensures
        is_pair_schedule(n as int, pairs@),
{
    let mut pairs: Vec<(usize, usize)> = Vec::new();
    let mut i: usize = 0;
    while i < n
        invariant
            i <= n,
            n * (n - 1) / 2 <= usize::MAX,
            pairs.len() == row_start(n as int, i as int),
            forall|k: int| 0 <= k < pairs.len() ==> is_pair(n as int, #[trigger] pairs[k]) && pairs[k].0 < i,
            forall|k1: int, k2: int| 0 <= k1 < k2 < pairs.len()
                ==> pair_before(#[trigger] pairs[k1], #[trigger] pairs[k2]),
            forall|a: int, b: int| 0 <= a < b < n && a < i ==> 0 <= #[trigger] pair_rank(n as int, a, b) < pairs.len()
                && pairs[pair_rank(n as int, a, b)] == (a as usize, b as usize),
        decreases n - i,
    {
        let mut j: usize = i + 1;
        proof {
            lemma_row_start_monotone(n as int, i as int + 1, n as int);
            lemma_total_pairs(n as int);
        }
        while j < n
            invariant
                i < n,
                i < j <= n,
                row_start(n as int, i as int + 1) <= n * (n - 1) / 2 <= usize::MAX,
                pairs.len() == pair_rank(n as int, i as int, j as int),
                forall|k: int| 0 <= k < pairs.len() ==> is_pair(n as int, #[trigger] pairs[k])
                    && pair_before(pairs[k], (i, j)),
                forall|k1: int, k2: int| 0 <= k1 < k2 < pairs.len()
                    ==> pair_before(#[trigger] pairs[k1], #[trigger] pairs[k2]),
                forall|a: int, b: int| 0 <= a < b < n && (a < i || (a == i && b < j))
                    ==> 0 <= #[trigger] pair_rank(n as int, a, b) < pairs.len()
                    && pairs[pair_rank(n as int, a, b)] == (a as usize, b as usize),
            decreases n - j,
        {
            pairs.push((i, j));
            proof {
                assert forall|a: int, b: int| 0 <= a < b < n && (a < i || (a == i && b < j + 1))
                    implies 0 <= #[trigger] pair_rank(n as int, a, b) < pairs.len()
                    && pairs[pair_rank(n as int, a, b)] == (a as usize, b as usize) by {
                    if a < i || (a == i && b < j) {
                        lemma_rank_order(n as int, a, b, i as int, j as int);
                    }
                }
            }
            j = j + 1;
        }
        i = i + 1;
    }
    proof {
        lemma_total_pairs(n as int);
    }
    pairs
}

/// Every pair of distinct bodies is visited exactly once by a pair
/// schedule, and nothing else is visited: each interaction is accumulated
/// once, for both bodies of the pair.
pub proof fn lemma_each_pair_exactly_once(n: int, s: Seq<(usize, usize)>, a: int, b: int, k: int)
    requires
        is_pair_schedule(n, s),
        0 <= a < b < n,
        0 <= k < s.len(),
    ensures
        s[k] == (a as usize, b as usize) <==> k == pair_rank(n, a, b),
        s[k].0 < s[k].1 < n,
{
    let r = pair_rank(n, a, b);
    assert(0 <= r < s.len() && s[r] == (a as usize, b as usize));
    if k < r {
        assert(pair_before(s[k], s[r]));
    } else if r < k {
        assert(pair_before(s[r], s[k]));
    }
}

/// A pair schedule of `n` bodies is unique: the contract of
/// `pair_schedule` fixes its result completely.
pub proof fn lemma_pair_schedule_unique(n: int, s: Seq<(usize, usize)>, t: Seq<(usize, usize)>)
    requires
        is_pair_schedule(n, s),
        is_pair_schedule(n, t),
    ensures
        s == t,
{
    assert forall|k: int| 0 <= k < s.len() implies s[k] == t[k] by {
        let p = s[k];
        assert(is_pair(n, p));
        lemma_each_pair_exactly_once(n, s, p.0 as int, p.1 as int, k);
        lemma_each_pair_exactly_once(n, t, p.0 as int, p.1 as int, pair_rank(n, p.0 as int, p.1 as int));
    }
    assert(s =~= t);
}

} // verus!
