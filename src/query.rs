//! The catalog queries of the engine, built as text with numbered
//! placeholders and a list of bound values.

use vstd::prelude::*;
use crate::filter::{
    criteria_terms, param_views, split_brand_terms, FilterCriteria, ParamModel, SqlParam, SqlQuery,
    SELECT_PRODUCTS,
};
use crate::text::{decimal, push_chars, push_decimal, push_str, push_char, views};

verus! {

/// Random sample size, and the largest number of recommendations.
pub const SAMPLE_SIZE: usize = 16;

pub open spec fn placeholder(k: nat) -> Seq<char> {
    seq!['$'] + decimal(k)
}

/// `brand_name ILIKE $first OR ... ` for `n` terms.
pub open spec fn brand_alternatives(first: nat, n: nat) -> Seq<char>
    decreases n,
{
    if n == 0 {
        Seq::empty()
    } else {
        brand_alternatives(first, (n - 1) as nat) + (if n > 1 {
            " OR "@
        } else {
            Seq::empty()
        }) + "brand_name ILIKE "@ + placeholder((first + n - 1) as nat)
    }
}

pub open spec fn has_min(f: FilterCriteria) -> nat {
    if f.min_price is Some { 1 } else { 0 }
}

/// The conditions that the criteria add to a query, after `WHERE 1=1`.
pub open spec fn filter_conditions(f: FilterCriteria) -> Seq<char> {
    let nb = criteria_terms(f).len();
    let brand_part = if f.brands is Some {
        " AND ("@ + brand_alternatives(1, nb) + ")"@
    } else {
        Seq::empty()
    };
    let min_part = if f.min_price is Some {
        " AND show_price >= "@ + placeholder(nb + 1)
    } else {
        Seq::empty()
    };
    let max_part = if f.max_price is Some {
        " AND show_price <= "@ + placeholder(nb + 1 + has_min(f))
    } else {
        Seq::empty()
    };
    brand_part + min_part + max_part
}

pub open spec fn like_pattern(t: Seq<char>) -> ParamModel {
    ParamModel::Text(seq!['%'] + t + seq!['%'])
}

/// The values bound to the placeholders of `filter_conditions`, in order.
pub open spec fn filter_params(f: FilterCriteria) -> Seq<ParamModel> {
    let brand_part = criteria_terms(f).map_values(|t: Seq<char>| like_pattern(t));
    let min_part = match f.min_price {
        Some(m) => seq![ParamModel::Cents(m as int)],
        None => Seq::empty(),
    };
    let max_part = match f.max_price {
        Some(m) => seq![ParamModel::Cents(m as int)],
        None => Seq::empty(),
    };
    brand_part + min_part + max_part
}

/// All products satisfying the criteria.
pub open spec fn listing_sql(f: FilterCriteria) -> Seq<char> {
    SELECT_PRODUCTS@ + " WHERE 1=1"@ + filter_conditions(f)
}

/// A random sample of the products satisfying the criteria.
pub open spec fn random_sql(f: FilterCriteria) -> Seq<char> {
    listing_sql(f) + " ORDER BY RANDOM() LIMIT 16"@
}

/// `$1,$2,...,$n`.
pub open spec fn id_placeholders(n: nat) -> Seq<char>
    decreases n,
{
    if n == 0 {
        Seq::empty()
    } else {
        id_placeholders((n - 1) as nat) + (if n > 1 {
            ","@
        } else {
            Seq::empty()
        }) + placeholder(n)
    }
}

/// The products with the given identifiers.
pub open spec fn seeds_sql(n: nat) -> Seq<char> {
    SELECT_PRODUCTS@ + " WHERE id IN ("@ + id_placeholders(n) + ")"@
}

pub open spec fn id_params(ids: Seq<i32>) -> Seq<ParamModel> {
    ids.map_values(|i: i32| ParamModel::Id(i as int))
}

fn push_placeholder(s: &mut String, k: u128)
    ensures
        final(s)@ == old(s)@ + placeholder(k as nat),
{
    push_char(s, '$');
    push_decimal(s, k);
    assert(final(s)@ =~= old(s)@ + placeholder(k as nat));
}

/// Appends the conditions of `f` and returns the values they bind.
fn push_filter_conditions(s: &mut String, f: &FilterCriteria) -> (r: Vec<SqlParam>)
    ensures
        final(s)@ == old(s)@ + filter_conditions(*f),
        param_views(r@) == filter_params(*f),
{
    let mut params: Vec<SqlParam> = Vec::new();
    let ghost terms = criteria_terms(*f);
    let ghost brand_part = if f.brands is Some {
        " AND ("@ + brand_alternatives(1, terms.len()) + ")"@
    } else {
        Seq::empty()
    };
    let mut next: u128 = 1;
    match &f.brands {
        Some(b) => {
            let ts = split_brand_terms(b.as_str());
            push_str(s, " AND (");
            let ghost start = s@;
            let mut i: usize = 0;
            while i < ts.len()
                invariant
                    i <= ts@.len(),
                    views(ts@) == terms,
                    s@ == start + brand_alternatives(1, i as nat),
                    param_views(params@) == terms.subrange(0, i as int).map_values(
                        |t: Seq<char>| like_pattern(t),
                    ),
                decreases ts@.len() - i,
            {
                if i > 0 {
                    push_str(s, " OR ");
                }
                push_str(s, "brand_name ILIKE ");
                push_placeholder(s, i as u128 + 1);
                assert(s@ =~= start + brand_alternatives(1, (i + 1) as nat));
                let mut p = String::new();
                push_char(&mut p, '%');
                push_chars(&mut p, &ts[i]);
                push_char(&mut p, '%');
                let ghost old_params = params@;
                params.push(SqlParam::Text(p));
                proof {
                    assert(views(ts@)[i as int] == ts@[i as int]@);
                    assert(p@ =~= seq!['%'] + terms[i as int] + seq!['%']);
                    assert(param_views(params@) =~= param_views(old_params).push(
                        like_pattern(terms[i as int]),
                    ));
                    assert(terms.subrange(0, i + 1).map_values(|t: Seq<char>| like_pattern(t))
                        =~= terms.subrange(0, i as int).map_values(|t: Seq<char>| like_pattern(t)).push(
                        like_pattern(terms[i as int]),
                    ));
                }
                i = i + 1;
            }
            push_str(s, ")");
            assert(terms.subrange(0, i as int) =~= terms);
            next = i as u128 + 1;
        },
        None => {},
    }
    assert(s@ =~= old(s)@ + brand_part);
    assert(next == terms.len() + 1);
    let ghost after_brands = s@;
    let ghost brand_params = params@;
    match f.min_price {
        Some(m) => {
            push_str(s, " AND show_price >= ");
            push_placeholder(s, next);
            params.push(SqlParam::Cents(m));
            next = next + 1;
        },
        None => {},
    }
    match f.max_price {
        Some(m) => {
            push_str(s, " AND show_price <= ");
            push_placeholder(s, next);
            params.push(SqlParam::Cents(m));
        },
        None => {},
    }
    assert(s@ =~= old(s)@ + filter_conditions(*f));
    assert(param_views(params@) =~= filter_params(*f));
    params
}

/// The query for all products satisfying `f`.
pub fn listing_query(f: &FilterCriteria) -> (q: SqlQuery)
    ensures
        q.sql@ == listing_sql(*f),
        param_views(q.params@) == filter_params(*f),
{
    let mut sql = String::new();
    push_str(&mut sql, SELECT_PRODUCTS);
    push_str(&mut sql, " WHERE 1=1");
    let params = push_filter_conditions(&mut sql, f);
    assert(sql@ =~= listing_sql(*f));
    SqlQuery { sql, params }
}

/// The query for a random sample of at most 16 products satisfying `f`.
pub fn random_query(f: &FilterCriteria) -> (q: SqlQuery)
    ensures
        q.sql@ == random_sql(*f),
        param_views(q.params@) == filter_params(*f),
{
    let mut q = listing_query(f);
    push_str(&mut q.sql, " ORDER BY RANDOM() LIMIT 16");
    q
}

/// The query for the products with identifiers `ids`.
pub fn seeds_query(ids: &Vec<i32>) -> (q: SqlQuery)
    ensures
        q.sql@ == seeds_sql(ids@.len()),
        param_views(q.params@) == id_params(ids@),
{
    let mut sql = String::new();
    push_str(&mut sql, SELECT_PRODUCTS);
    push_str(&mut sql, " WHERE id IN (");
    let ghost start = sql@;
    let mut params: Vec<SqlParam> = Vec::new();
    let mut i: usize = 0;
    while i < ids.len()
        invariant
            i <= ids@.len(),
            sql@ == start + id_placeholders(i as nat),
            param_views(params@) == id_params(ids@.subrange(0, i as int)),
        decreases ids@.len() - i,
    {
        if i > 0 {
            push_str(&mut sql, ",");
        }
        push_placeholder(&mut sql, i as u128 + 1);
        let ghost old_params = params@;
        params.push(SqlParam::Id(ids[i]));
        assert(param_views(params@) =~= param_views(old_params).push(ParamModel::Id(ids@[i as int] as int)));
        assert(ids@.subrange(0, i + 1) =~= ids@.subrange(0, i as int).push(ids@[i as int]));
        assert(sql@ =~= start + id_placeholders((i + 1) as nat));
        assert(param_views(params@) =~= id_params(ids@.subrange(0, i + 1)));
        i = i + 1;
    }
    push_str(&mut sql, ")");
    assert(ids@.subrange(0, i as int) =~= ids@);
    assert(sql@ =~= seeds_sql(ids@.len()));
    SqlQuery { sql, params }
}

} // verus!
