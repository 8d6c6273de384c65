//! The product endpoint as a sequence of decisions between catalog
//! fetches. `start` picks the first fetch from the request; `advance` takes
//! what the catalog returned (or its failure) and picks the next fetch or
//! the answer. The caller performs each fetch with `query_for`.

use vstd::prelude::*;
use crate::catalog::Laptop;
use crate::filter::{keep_matching, matching, param_views, FilterCriteria, ParamModel, SqlQuery};
use crate::query::{
    filter_params, id_params, listing_query, listing_sql, random_query, random_sql, seeds_query, seeds_sql,
    SAMPLE_SIZE,
};
use crate::rank::{recommendation_list, recommended};
use crate::text::{chars_of, parse_i32, parse_int, split_chars, split_on, trim_chars, trimmed, views};

verus! {

/// The parameters of a product request. Prices are in hundredths.
#[derive(Clone, Debug)]
pub struct ProductQuery {
    /// Free-text search; not used by this endpoint.
    pub search: Option<String>,
    pub brands: Option<String>,
    pub min_price: Option<i64>,
    pub max_price: Option<i64>,
    /// Asks for a random sample whatever else is given.
    pub random: Option<bool>,
    /// Comma-separated identifiers of products the shopper viewed.
    pub viewed: Option<String>,
}

/// Where a request stands.
#[derive(Debug)]
pub enum Step {
    /// Fetch a random sample of the products that satisfy the criteria.
    FetchRandom,
    /// Fetch the viewed products with these identifiers.
    FetchSeeds(Vec<i32>),
    /// Fetch all products that satisfy the criteria, to list them.
    FetchListing,
    /// Fetch all products that satisfy the criteria, to rank them against
    /// these viewed products.
    FetchCandidates(Vec<Laptop>),
    /// Answer with these products.
    Respond(Vec<Laptop>),
    /// A fetch failed: answer with a service failure.
    Fail,
}

pub enum StepModel {
    FetchRandom,
    FetchSeeds(Seq<i32>),
    FetchListing,
    FetchCandidates(Seq<Laptop>),
    Respond(Seq<Laptop>),
    Fail,
}

impl View for Step {
    type V = StepModel;

    open spec fn view(&self) -> StepModel {
        match self {
            Step::FetchRandom => StepModel::FetchRandom,
            Step::FetchSeeds(ids) => StepModel::FetchSeeds(ids@),
            Step::FetchListing => StepModel::FetchListing,
            Step::FetchCandidates(s) => StepModel::FetchCandidates(s@),
            Step::Respond(r) => StepModel::Respond(r@),
            Step::Fail => StepModel::Fail,
        }
    }
}

/// The catalog could not answer a fetch.
#[derive(Clone, Copy, Debug, PartialEq, Eq)]
pub struct CatalogError;

/// The identifiers among the trimmed pieces, in order; pieces that are not
/// an `i32` are dropped.
pub open spec fn parsed_ids(pieces: Seq<Seq<char>>) -> Seq<i32>
    decreases pieces.len(),
{
    if pieces.len() == 0 {
        Seq::empty()
    } else {
        let prev = parsed_ids(pieces.drop_last());
        match parse_i32(trimmed(pieces.last())) {
            Some(i) => prev.push(i),
            None => prev,
        }
    }
}

/// The identifiers of a comma-separated list.
pub open spec fn viewed_ids(v: Seq<char>) -> Seq<i32> {
    parsed_ids(split_on(v, ','))
}

pub open spec fn criteria_model(q: ProductQuery) -> FilterCriteria {
    FilterCriteria { brands: q.brands, min_price: q.min_price, max_price: q.max_price }
}

/// The first step of a request: a random sample when asked for one; the
/// viewed products when some identifier is valid, else a random sample;
/// a plain listing when nothing was viewed.
pub open spec fn start_model(q: ProductQuery) -> StepModel {
    if q.random == Some(true) {
        StepModel::FetchRandom
    } else {
        match q.viewed {
            Some(v) => if viewed_ids(v@).len() == 0 {
                StepModel::FetchRandom
            } else {
                StepModel::FetchSeeds(viewed_ids(v@))
            },
            None => StepModel::FetchListing,
        }
    }
}

/// The step after a fetch returned `fetched` (`None`: the fetch failed).
pub open spec fn next_model(s: StepModel, fetched: Option<Seq<Laptop>>, f: FilterCriteria) -> StepModel {
    match s {
        StepModel::FetchRandom => match fetched {
            Some(ps) => StepModel::Respond(take_list(matching(ps, f), SAMPLE_SIZE as nat)),
            None => StepModel::Fail,
        },
        StepModel::FetchListing => match fetched {
            Some(ps) => StepModel::Respond(matching(ps, f)),
            None => StepModel::Fail,
        },
        StepModel::FetchSeeds(_) => match fetched {
            Some(seeds) => if seeds.len() == 0 {
                StepModel::FetchRandom
            } else {
                StepModel::FetchCandidates(seeds)
            },
            None => StepModel::Fail,
        },
        StepModel::FetchCandidates(seeds) => match fetched {
            Some(c) => StepModel::Respond(recommended(seeds, c, f)),
            None => StepModel::Fail,
        },
        other => other,
    }
}

pub open spec fn take_list(s: Seq<Laptop>, n: nat) -> Seq<Laptop> {
    if s.len() <= n { s } else { s.subrange(0, n as int) }
}

pub open spec fn is_fetch(s: StepModel) -> bool {
    !(s is Respond || s is Fail)
}

/// The step reached from the request `q` after the catalog answered the
/// fetches with `answers`, in order.
pub open spec fn run_model(q: ProductQuery, answers: Seq<Option<Seq<Laptop>>>) -> StepModel
    decreases answers.len(),
{
    if answers.len() == 0 {
        start_model(q)
    } else {
        next_model(run_model(q, answers.drop_last()), answers.last(), criteria_model(q))
    }
}

/// Parses the viewed identifiers, dropping the pieces that are not one.
pub fn parse_viewed(v: &str) -> (r: Vec<i32>)
    ensures
        r@ == viewed_ids(v@),
{
    let cs = chars_of(v);
    let pieces = split_chars(&cs, ',');
    let mut r: Vec<i32> = Vec::new();
    let mut i: usize = 0;
    while i < pieces.len()
        invariant
            i <= pieces@.len(),
            views(pieces@) == split_on(v@, ','),
            r@ == parsed_ids(split_on(v@, ',').subrange(0, i as int)),
        decreases pieces@.len() - i,
    {
        let ghost pre = split_on(v@, ',').subrange(0, i + 1);
        assert(pre.drop_last() =~= split_on(v@, ',').subrange(0, i as int));
        assert(pre.last() == pieces@[i as int]@);
        let t = trim_chars(&pieces[i]);
        match parse_int(&t) {
            Some(id) => r.push(id),
            None => {},
        }
        i = i + 1;
    }
    assert(split_on(v@, ',').subrange(0, i as int) =~= split_on(v@, ','));
    r
}

/// The filter criteria of a request.
pub fn criteria_of(q: &ProductQuery) -> (f: FilterCriteria)
    ensures
        f == criteria_model(*q),
{
    let brands = match &q.brands {
        Some(b) => Some(b.clone()),
        None => None,
    };
    FilterCriteria { brands, min_price: q.min_price, max_price: q.max_price }
}

/// The first step of a request.
pub fn start(q: &ProductQuery) -> (r: Step)
    ensures
        r@ == start_model(*q),
{
    if q.random == Some(true) {
        return Step::FetchRandom;
    }
    match &q.viewed {
        Some(v) => {
            let ids = parse_viewed(v.as_str());
            if ids.len() == 0 {
                Step::FetchRandom
            } else {
                Step::FetchSeeds(ids)
            }
        },
        None => Step::FetchListing,
    }
}

/// The query text and bound values that perform a fetch step.
pub open spec fn fetch_query(s: StepModel, f: FilterCriteria) -> Option<(Seq<char>, Seq<ParamModel>)> {
    match s {
        StepModel::FetchRandom => Some((random_sql(f), filter_params(f))),
        StepModel::FetchSeeds(ids) => Some((seeds_sql(ids.len()), id_params(ids))),
        StepModel::FetchListing => Some((listing_sql(f), filter_params(f))),
        StepModel::FetchCandidates(_) => Some((listing_sql(f), filter_params(f))),
        _ => None,
    }
}

/// The query that performs a fetch step: a random sample, the viewed
/// products, or all products that satisfy the criteria; none for an answer.
pub fn query_for(s: &Step, f: &FilterCriteria) -> (r: Option<SqlQuery>)
    ensures
        r is Some <==> is_fetch(s@),
        r matches Some(q) ==> fetch_query(s@, *f) == Some((q.sql@, param_views(q.params@))),
{
    match s {
        Step::FetchRandom => Some(random_query(f)),
        Step::FetchSeeds(ids) => Some(seeds_query(ids)),
        Step::FetchListing => Some(listing_query(f)),
        Step::FetchCandidates(_) => Some(listing_query(f)),
        _ => None,
    }
}

pub open spec fn answer_model(fetched: Result<Vec<Laptop>, CatalogError>) -> Option<Seq<Laptop>> {
    match fetched {
        Ok(v) => Some(v@),
        Err(_) => None,
    }
}

fn take_laptops(v: Vec<Laptop>, n: usize) -> (r: Vec<Laptop>)
    ensures
        r@ == take_list(v@, n as nat),
{
    let mut v = v;
    v.truncate(n);
    v
}

/// The step after the catalog answered the fetch of step `s`.
pub fn advance(s: Step, fetched: Result<Vec<Laptop>, CatalogError>, f: &FilterCriteria) -> (r: Step)
    ensures
        r@ == next_model(s@, answer_model(fetched), *f),
{
    match s {
        Step::FetchRandom => match fetched {
            Ok(ps) => Step::Respond(take_laptops(keep_matching(ps, f), SAMPLE_SIZE)),
            Err(_) => Step::Fail,
        },
        Step::FetchListing => match fetched {
            Ok(ps) => Step::Respond(keep_matching(ps, f)),
            Err(_) => Step::Fail,
        },
        Step::FetchSeeds(_) => match fetched {
            Ok(seeds) => if seeds.len() == 0 {
                Step::FetchRandom
            } else {
                Step::FetchCandidates(seeds)
            },
            Err(_) => Step::Fail,
        },
        Step::FetchCandidates(seeds) => match fetched {
            Ok(c) => Step::Respond(recommendation_list(&seeds, c, f)),
            Err(_) => Step::Fail,
        },
        other => other,
    }
}

} // verus!
