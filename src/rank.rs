//! Ranking of the candidate pool: score every candidate that satisfies the
//! criteria against all seeds, order by descending score (candidates of
//! equal score keep their pool order), and keep the first 16.

use vstd::prelude::*;
use crate::catalog::Laptop;
use crate::filter::{keep_matching, matching, satisfies, FilterCriteria};
use crate::query::SAMPLE_SIZE;
use crate::scoring::{total_score, total_score_of};

verus! {

/// A candidate with the sum of its pair scores over the seeds.
#[derive(Debug)]
pub struct ScoredCandidate {
    pub laptop: Laptop,
    pub score: u128,
}

/// Inserts `x` after every leading element that scores at least as high.
pub open spec fn insert_desc(s: Seq<ScoredCandidate>, x: ScoredCandidate) -> Seq<ScoredCandidate>
    decreases s.len(),
{
    if s.len() == 0 {
        seq![x]
    } else if s[0].score >= x.score {
        seq![s[0]] + insert_desc(s.drop_first(), x)
    } else {
        seq![x] + s
    }
}

/// Stable sort by descending score.
pub open spec fn sort_desc(s: Seq<ScoredCandidate>) -> Seq<ScoredCandidate>
    decreases s.len(),
{
    if s.len() == 0 {
        Seq::empty()
    } else {
        insert_desc(sort_desc(s.drop_last()), s.last())
    }
}

/// Each product paired with its total score over `seeds`.
pub open spec fn score_all(pool: Seq<Laptop>, seeds: Seq<Laptop>) -> Seq<ScoredCandidate> {
    pool.map_values(|l: Laptop| ScoredCandidate { laptop: l, score: total_score(l, seeds) as u128 })
}

pub open spec fn laptops_of(s: Seq<ScoredCandidate>) -> Seq<Laptop> {
    s.map_values(|c: ScoredCandidate| c.laptop)
}

pub open spec fn take_first(s: Seq<ScoredCandidate>, n: nat) -> Seq<ScoredCandidate> {
    if s.len() <= n { s } else { s.subrange(0, n as int) }
}

/// The recommendations: the candidates that satisfy `f`, ordered by
/// descending score against `seeds` (ties in pool order), at most 16.
pub open spec fn recommended(seeds: Seq<Laptop>, candidates: Seq<Laptop>, f: FilterCriteria) -> Seq<Laptop> {
    laptops_of(take_first(sort_desc(score_all(matching(candidates, f), seeds)), SAMPLE_SIZE as nat))
}

pub open spec fn sorted_desc(s: Seq<ScoredCandidate>) -> bool {
    forall|i: int, j: int| 0 <= i < j < s.len() ==> s[i].score >= s[j].score
}

pub open spec fn all_satisfy(s: Seq<ScoredCandidate>, f: FilterCriteria) -> bool {
    forall|i: int| 0 <= i < s.len() ==> satisfies(#[trigger] s[i].laptop, f)
}

proof fn lemma_insert_desc_at(s: Seq<ScoredCandidate>, x: ScoredCandidate, pos: int)
    requires
        0 <= pos <= s.len(),
        forall|j: int| 0 <= j < pos ==> s[j].score >= x.score,
        pos < s.len() ==> s[pos].score < x.score,
    ensures
        insert_desc(s, x) == s.insert(pos, x),
    decreases s.len(),
{
    if s.len() == 0 {
        assert(s.insert(pos, x) =~= seq![x]);
    } else if pos == 0 {
        assert(s.insert(0, x) =~= seq![x] + s);
    } else {
        let d = s.drop_first();
        lemma_insert_desc_at(d, x, pos - 1);
        assert(seq![s[0]] + d.insert(pos - 1, x) =~= s.insert(pos, x));
    }
}

proof fn lemma_insert_desc_props(s: Seq<ScoredCandidate>, x: ScoredCandidate, f: FilterCriteria)
    ensures
        insert_desc(s, x).len() == s.len() + 1,
        sorted_desc(s) ==> sorted_desc(insert_desc(s, x)),
        all_satisfy(s, f) && satisfies(x.laptop, f) ==> all_satisfy(insert_desc(s, x), f),
    decreases s.len(),
{
    if s.len() > 0 {
        let d = s.drop_first();
        lemma_insert_desc_props(d, x, f);
        if s[0].score >= x.score {
            let r = insert_desc(s, x);
            let rd = insert_desc(d, x);
            assert(r =~= seq![s[0]] + rd);
            if sorted_desc(s) {
                assert(sorted_desc(d));
                // every element of rd is x or an element of d
                assert forall|k: int| 0 <= k < rd.len() implies rd[k].score <= s[0].score by {
                    lemma_insert_desc_elems(d, x, k);
                }
            }
            if all_satisfy(s, f) && satisfies(x.laptop, f) {
                assert(all_satisfy(d, f));
            }
        }
    }
}

proof fn lemma_insert_desc_elems(s: Seq<ScoredCandidate>, x: ScoredCandidate, k: int)
    requires
        0 <= k < insert_desc(s, x).len(),
    ensures
        insert_desc(s, x)[k] == x || exists|j: int| 0 <= j < s.len() && s[j] == insert_desc(s, x)[k],
    decreases s.len(),
{
    if s.len() > 0 && s[0].score >= x.score {
        let d = s.drop_first();
        if k > 0 {
            lemma_insert_desc_len(d, x);
            lemma_insert_desc_elems(d, x, k - 1);
            if insert_desc(d, x)[k - 1] != x {
                let j = choose|j: int| 0 <= j < d.len() && d[j] == insert_desc(d, x)[k - 1];
                assert(s[j + 1] == insert_desc(s, x)[k]);
            }
        } else {
            assert(s[0] == insert_desc(s, x)[k]);
        }
    } else if s.len() > 0 {
        if k > 0 {
            assert(s[k - 1] == insert_desc(s, x)[k]);
        }
    }
}

proof fn lemma_insert_desc_len(s: Seq<ScoredCandidate>, x: ScoredCandidate)
    ensures
        insert_desc(s, x).len() == s.len() + 1,
    decreases s.len(),
{
    if s.len() > 0 {
        lemma_insert_desc_len(s.drop_first(), x);
    }
}

pub proof fn lemma_sort_desc_props(s: Seq<ScoredCandidate>, f: FilterCriteria)
    ensures
        sort_desc(s).len() == s.len(),
        sorted_desc(sort_desc(s)),
        all_satisfy(s, f) ==> all_satisfy(sort_desc(s), f),
    decreases s.len(),
{
    if s.len() > 0 {
        lemma_sort_desc_props(s.drop_last(), f);
        lemma_insert_desc_props(sort_desc(s.drop_last()), s.last(), f);
        if all_satisfy(s, f) {
            assert(all_satisfy(s.drop_last(), f));
            assert(satisfies(s.last().laptop, f));
        }
    }
}

/// Every element of the sorted sequence is an element of the input.
pub proof fn lemma_sort_desc_elems(s: Seq<ScoredCandidate>, k: int)
    requires
        0 <= k < sort_desc(s).len(),
    ensures
        exists|j: int| 0 <= j < s.len() && s[j] == sort_desc(s)[k],
    decreases s.len(),
{
    let d = s.drop_last();
    lemma_sort_desc_props(d, FilterCriteria { brands: None, min_price: None, max_price: None });
    lemma_insert_desc_elems(sort_desc(d), s.last(), k);
    if sort_desc(s)[k] != s.last() {
        let j = choose|j: int| 0 <= j < sort_desc(d).len() && sort_desc(d)[j] == sort_desc(s)[k];
        lemma_sort_desc_elems(d, j);
        let i = choose|i: int| 0 <= i < d.len() && d[i] == sort_desc(d)[j];
        assert(s[i] == d[i]);
    } else {
        assert(s[s.len() - 1] == s.last());
    }
}

/// The elements of `v` in reverse order.
pub fn reversed<T>(v: Vec<T>) -> (r: Vec<T>)
    ensures
        r@ == v@.reverse(),
{
    let mut v = v;
    let ghost orig = v@;
    let mut r: Vec<T> = Vec::new();
    while v.len() > 0
        invariant
            orig == v@ + r@.reverse(),
        decreases v@.len(),
    {
        let ghost before = v@;
        let ghost old_r = r@;
        let x = v.pop().unwrap();
        r.push(x);
        assert(before =~= v@.push(x));
        assert(r@.reverse() =~= seq![x] + old_r.reverse());
        assert(orig =~= v@ + r@.reverse());
    }
    assert(orig =~= r@.reverse());
    assert(r@ =~= r@.reverse().reverse());
    r
}

/// Ranks the candidates that satisfy `f` by their score against `seeds`.
pub fn rank(seeds: &Vec<Laptop>, candidates: Vec<Laptop>, f: &FilterCriteria) -> (r: Vec<ScoredCandidate>)
    ensures
        r@ == sort_desc(score_all(matching(candidates@, *f), seeds@)),
{
    let pool = keep_matching(candidates, f);
    let ghost all = score_all(pool@, seeds@);
    let ghost pool_v = pool@;
    let mut rest = reversed(pool);
    let total = rest.len();
    let ghost n = rest@.len();
    assert forall|k: int| 0 <= k < n implies #[trigger] rest@[k] == all[n - 1 - k].laptop by {
        assert(rest@[k] == pool_v[n - 1 - k]);
    }
    assert forall|k: int| 0 <= k < n implies #[trigger] all[k].score == total_score(all[k].laptop, seeds@) as u128 by {
        assert(all[k] == ScoredCandidate { laptop: pool_v[k], score: total_score(pool_v[k], seeds@) as u128 });
    }
    let mut sorted: Vec<ScoredCandidate> = Vec::new();
    let mut i: usize = 0;
    assert(all.subrange(0, 0) =~= Seq::<ScoredCandidate>::empty());
    while rest.len() > 0
        invariant
            all.len() == n,
            n == total,
            i + rest@.len() == n,
            forall|k: int| 0 <= k < rest@.len() ==> #[trigger] rest@[k] == all[n - 1 - k].laptop,
            forall|k: int| 0 <= k < n ==> #[trigger] all[k].score == total_score(all[k].laptop, seeds@) as u128,
            sorted@ == sort_desc(all.subrange(0, i as int)),
        decreases rest@.len(),
    {
        let l = rest.pop().unwrap();
        let score = total_score_of(&l, seeds);
        let x = ScoredCandidate { laptop: l, score };
        let ghost prefix = all.subrange(0, i + 1);
        assert(l == all[i as int].laptop);
        assert(x.score == all[i as int].score);
        assert(x == all[i as int]);
        assert(prefix.drop_last() =~= all.subrange(0, i as int));
        let mut pos: usize = 0;
        while pos < sorted.len() && sorted[pos].score >= x.score
            invariant
                pos <= sorted@.len(),
                forall|j: int| 0 <= j < pos ==> sorted@[j].score >= x.score,
            decreases sorted@.len() - pos,
        {
            pos = pos + 1;
        }
        proof {
            lemma_insert_desc_at(sorted@, x, pos as int);
        }
        sorted.insert(pos, x);
        i = i + 1;
    }
    assert(all.subrange(0, i as int) =~= all);
    sorted
}

/// The laptops of the first 16 ranked candidates.
pub fn top_laptops(ranked: Vec<ScoredCandidate>) -> (r: Vec<Laptop>)
    ensures
        r@ == laptops_of(take_first(ranked@, SAMPLE_SIZE as nat)),
        r@.len() <= SAMPLE_SIZE,
{
    let mut ranked = ranked;
    let ghost orig = ranked@;
    ranked.truncate(SAMPLE_SIZE);
    let ghost kept = ranked@;
    assert(kept =~= take_first(orig, SAMPLE_SIZE as nat));
    let mut rest = reversed(ranked);
    let mut r: Vec<Laptop> = Vec::new();
    while rest.len() > 0
        invariant
            laptops_of(kept) == r@ + laptops_of(rest@.reverse()),
        decreases rest@.len(),
    {
        let ghost before = rest@;
        let c = rest.pop().unwrap();
        r.push(c.laptop);
        assert(before.reverse() =~= seq![c] + rest@.reverse());
        assert(laptops_of(before.reverse()) =~= seq![c.laptop] + laptops_of(rest@.reverse()));
        assert(laptops_of(kept) =~= r@ + laptops_of(rest@.reverse()));
    }
    assert(laptops_of(rest@.reverse()) =~= Seq::<Laptop>::empty());
    assert(r@ =~= laptops_of(kept));
    r
}

/// The recommendations for the viewed products `seeds` among `candidates`:
/// those that satisfy `f`, by descending score, at most 16.
pub fn recommendation_list(seeds: &Vec<Laptop>, candidates: Vec<Laptop>, f: &FilterCriteria) -> (r: Vec<Laptop>)
    ensures
        r@ == recommended(seeds@, candidates@, *f),
        r@.len() <= SAMPLE_SIZE,
{
    top_laptops(rank(seeds, candidates, f))
}

} // verus!
