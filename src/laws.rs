//! Properties of the engine as a whole, proved from the contracts above.

use vstd::prelude::*;
use crate::catalog::Laptop;
use crate::engine::{is_fetch, next_model, run_model, start_model, take_list, viewed_ids, ProductQuery, StepModel};
use crate::filter::{lemma_matching_satisfies, matching, satisfies, FilterCriteria};
use crate::query::SAMPLE_SIZE;
use crate::rank::{all_satisfy, lemma_sort_desc_elems, lemma_sort_desc_props, recommended, score_all, sort_desc, take_first};
use crate::scoring::{
    attr_match, bonus, lemma_total_score_bound, max_pair_score, numeric_score, pair_score, total_score,
};

verus! {

/// Every product of an answer satisfies the criteria: whatever the catalog
/// returns to a fetch, the answer that follows holds only products whose
/// price lies within the given bounds and whose brand contains one of the
/// given terms, ignoring case.
pub proof fn answers_satisfy_criteria(s: StepModel, fetched: Option<Seq<Laptop>>, f: FilterCriteria)
    requires
        is_fetch(s),
    ensures
        next_model(s, fetched, f) matches StepModel::Respond(v) ==> forall|i: int|
            0 <= i < v.len() ==> satisfies(#[trigger] v[i], f),
{
    match (s, fetched) {
        (StepModel::FetchRandom, Some(ps)) => {
            lemma_matching_satisfies(ps, f);
            let m = matching(ps, f);
            let v = take_list(m, SAMPLE_SIZE as nat);
            assert forall|i: int| 0 <= i < v.len() implies satisfies(#[trigger] v[i], f) by {
                assert(v[i] == m[i]);
            }
        },
        (StepModel::FetchListing, Some(ps)) => {
            lemma_matching_satisfies(ps, f);
        },
        (StepModel::FetchCandidates(seeds), Some(c)) => {
            recommendations_satisfy_criteria(seeds, c, f);
        },
        _ => {},
    }
}

/// Every recommended product satisfies the criteria.
pub proof fn recommendations_satisfy_criteria(seeds: Seq<Laptop>, candidates: Seq<Laptop>, f: FilterCriteria)
    ensures
        forall|i: int| 0 <= i < recommended(seeds, candidates, f).len() ==> satisfies(
            #[trigger] recommended(seeds, candidates, f)[i],
            f,
        ),
{
    let m = matching(candidates, f);
    lemma_matching_satisfies(candidates, f);
    let sc = score_all(m, seeds);
    assert(all_satisfy(sc, f)) by {
        assert forall|i: int| 0 <= i < sc.len() implies satisfies(#[trigger] sc[i].laptop, f) by {
            assert(sc[i].laptop == m[i]);
        }
    }
    lemma_sort_desc_props(sc, f);
    let t = take_first(sort_desc(sc), SAMPLE_SIZE as nat);
    let r = recommended(seeds, candidates, f);
    assert forall|i: int| 0 <= i < r.len() implies satisfies(#[trigger] r[i], f) by {
        assert(r[i] == t[i].laptop);
        assert(t[i] == sort_desc(sc)[i]);
    }
}

/// A request whose viewed identifiers are all invalid, or none of which
/// resolves to a product, takes the random-sample path: the same step that
/// a request asking for a random sample starts with.
pub proof fn unresolved_views_take_random_path(q: ProductQuery, ids: Seq<i32>, f: FilterCriteria)
    ensures
        q.random != Some(true) ==> (q.viewed matches Some(v) && viewed_ids(v@).len() == 0)
            ==> start_model(q) == StepModel::FetchRandom,
        next_model(StepModel::FetchSeeds(ids), Some(Seq::empty()), f) == StepModel::FetchRandom,
        start_model(ProductQuery { random: Some(true), ..q }) == StepModel::FetchRandom,
{
}

/// The engine is a function of the request and of what the catalog
/// returns: the same request answered alike reaches the same step, so two
/// runs give the same ranked answer.
pub proof fn engine_is_deterministic(
    q1: ProductQuery,
    q2: ProductQuery,
    a1: Seq<Option<Seq<Laptop>>>,
    a2: Seq<Option<Seq<Laptop>>>,
)
    requires
        q1 == q2,
        a1 == a2,
    ensures
        run_model(q1, a1) == run_model(q2, a2),
{
}

/// A candidate that agrees with every seed on each categorical attribute on
/// which another candidate agrees with it, and has the same price, RAM,
/// storage, graphics memory and model year, scores no lower; it scores
/// strictly higher when it also agrees on some attribute the other does not.
pub proof fn more_matches_score_no_lower(a: Laptop, b: Laptop, seeds: Seq<Laptop>)
    requires
        forall|i: int, k: int|
            0 <= i < seeds.len() && 0 <= k < 11 && #[trigger] attr_match(b, seeds[i], k) ==> attr_match(
                a,
                seeds[i],
                k,
            ),
        a.show_price == b.show_price,
        a.ram == b.ram,
        a.storage == b.storage,
        a.graphic_ram == b.graphic_ram,
        a.model_year == b.model_year,
    ensures
        total_score(a, seeds) >= total_score(b, seeds),
        (exists|i: int, k: int|
            0 <= i < seeds.len() && 0 <= k < 11 && attr_match(a, seeds[i], k) && !attr_match(
                b,
                seeds[i],
                k,
            )) ==> total_score(a, seeds) > total_score(b, seeds),
    decreases seeds.len(),
{
    if seeds.len() > 0 {
        let d = seeds.drop_last();
        let s = seeds.last();
        assert forall|i: int, k: int|
            0 <= i < d.len() && 0 <= k < 11 && #[trigger] attr_match(b, d[i], k) implies attr_match(
            a,
            d[i],
            k,
        ) by {
            assert(d[i] == seeds[i]);
        }
        more_matches_score_no_lower(a, b, d);
        assert forall|k: int| 0 <= k < 11 implies bonus(a, s, k) >= #[trigger] bonus(b, s, k) by {
            assert(s == seeds[seeds.len() - 1]);
            if attr_match(b, s, k) {
                assert(attr_match(b, seeds[seeds.len() - 1], k));
            }
        }
        assert(numeric_score(a, s) == numeric_score(b, s));
        assert(bonus(a, s, 0) >= bonus(b, s, 0));
        assert(bonus(a, s, 1) >= bonus(b, s, 1));
        assert(bonus(a, s, 2) >= bonus(b, s, 2));
        assert(bonus(a, s, 3) >= bonus(b, s, 3));
        assert(bonus(a, s, 4) >= bonus(b, s, 4));
        assert(bonus(a, s, 5) >= bonus(b, s, 5));
        assert(bonus(a, s, 6) >= bonus(b, s, 6));
        assert(bonus(a, s, 7) >= bonus(b, s, 7));
        assert(bonus(a, s, 8) >= bonus(b, s, 8));
        assert(bonus(a, s, 9) >= bonus(b, s, 9));
        assert(bonus(a, s, 10) >= bonus(b, s, 10));
        assert(pair_score(a, s) >= pair_score(b, s));
        if exists|i: int, k: int|
            0 <= i < seeds.len() && 0 <= k < 11 && attr_match(a, seeds[i], k) && !attr_match(
                b,
                seeds[i],
                k,
            ) {
            let (i, k) = choose|i: int, k: int|
                0 <= i < seeds.len() && 0 <= k < 11 && attr_match(a, seeds[i], k) && !attr_match(
                    b,
                    seeds[i],
                    k,
                );
            if i < d.len() {
                assert(d[i] == seeds[i]);
                assert(attr_match(a, d[i], k) && !attr_match(b, d[i], k));
            } else {
                assert(seeds[i] == s);
                assert(bonus(a, s, k) > bonus(b, s, k));
                assert(pair_score(a, s) > pair_score(b, s));
            }
        }
    }
}

/// The recommendation path answers with at most 16 products, and so does
/// the random sample.
pub proof fn answers_at_most_sixteen(seeds: Seq<Laptop>, candidates: Seq<Laptop>, ps: Seq<Laptop>, f: FilterCriteria)
    ensures
        recommended(seeds, candidates, f).len() <= 16,
        (next_model(StepModel::FetchRandom, Some(ps), f) matches StepModel::Respond(v) && v.len() <= 16),
{
}

/// Recommendations come in descending order of score against the seeds.
pub proof fn recommendations_in_score_order(seeds: Seq<Laptop>, candidates: Seq<Laptop>, f: FilterCriteria)
    requires
        seeds.len() <= usize::MAX,
    ensures
        forall|i: int, j: int|
            0 <= i < j < recommended(seeds, candidates, f).len() ==> total_score(
                #[trigger] recommended(seeds, candidates, f)[i],
                seeds,
            ) >= total_score(#[trigger] recommended(seeds, candidates, f)[j], seeds),
{
    let sc = score_all(matching(candidates, f), seeds);
    let sorted = sort_desc(sc);
    lemma_sort_desc_props(sc, f);
    let t = take_first(sorted, SAMPLE_SIZE as nat);
    let r = recommended(seeds, candidates, f);
    assert forall|k: int| 0 <= k < sorted.len() implies #[trigger] sorted[k].score as int == total_score(
        sorted[k].laptop,
        seeds,
    ) by {
        lemma_sort_desc_elems(sc, k);
        let j = choose|j: int| 0 <= j < sc.len() && sc[j] == sorted[k];
        let l = sc[j].laptop;
        lemma_total_score_bound(l, seeds);
        assert(seeds.len() * max_pair_score() <= usize::MAX * 13_400_000) by (nonlinear_arith)
            requires
                seeds.len() <= usize::MAX,
        ;
    }
    assert forall|i: int, j: int|
        0 <= i < j < r.len() implies total_score(#[trigger] r[i], seeds) >= total_score(
        #[trigger] r[j],
        seeds,
    ) by {
        assert(r[i] == t[i].laptop && t[i] == sorted[i]);
        assert(r[j] == t[j].laptop && t[j] == sorted[j]);
        assert(sorted[i].score >= sorted[j].score);
        assert(sorted[i].score as int == total_score(sorted[i].laptop, seeds));
        assert(sorted[j].score as int == total_score(sorted[j].laptop, seeds));
    }
}

} // verus!
