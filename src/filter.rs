//! Filter criteria (brand allow-list and price bounds): what it means for a
//! product to satisfy them, and the parameterised SQL predicate that asks
//! the catalog for such products.

use vstd::prelude::*;
use crate::catalog::Laptop;
use crate::text::{chars_of, split_chars, split_on, string_of, trim_chars, trimmed, views};

verus! {

/// Brand terms and price bounds of one request. Prices are in hundredths
/// of the currency unit.
#[derive(Clone, Debug)]
pub struct FilterCriteria {
    /// Comma-separated brand terms, matched as case-insensitive substrings.
    pub brands: Option<String>,
    pub min_price: Option<i64>,
    pub max_price: Option<i64>,
}

/// A value bound to a placeholder of a query.
#[derive(Clone, Debug)]
pub enum SqlParam {
    Text(String),
    Cents(i64),
    Id(i32),
    Int(i64),
}

pub enum ParamModel {
    Text(Seq<char>),
    Cents(int),
    Id(int),
    Int(int),
}

impl View for SqlParam {
    type V = ParamModel;

    open spec fn view(&self) -> ParamModel {
        match self {
            SqlParam::Text(s) => ParamModel::Text(s@),
            SqlParam::Cents(c) => ParamModel::Cents(*c as int),
            SqlParam::Id(i) => ParamModel::Id(*i as int),
            SqlParam::Int(i) => ParamModel::Int(*i as int),
        }
    }
}

/// A query text with `$1`, `$2`, ... placeholders and the values bound to
/// them, in order. Caller-supplied values never enter the text.
#[derive(Clone, Debug)]
pub struct SqlQuery {
    pub sql: String,
    pub params: Vec<SqlParam>,
}

pub open spec fn param_views(p: Seq<SqlParam>) -> Seq<ParamModel> {
    p.map_values(|x: SqlParam| x@)
}

/// The columns the engine reads, from the catalog table.
pub const SELECT_PRODUCTS: &'static str = "SELECT id, display_name, brand_name, model_name, model_year, product_authentication, product_type, processor, processor_generation, processor_series, ram, ram_type, storage, storage_type, graphic, graphic_ram, battery, touchscreen, show_price, face_image_url FROM laptop_details";

/// The trimmed brand terms of a comma-separated list.
pub open spec fn brand_terms(b: Seq<char>) -> Seq<Seq<char>> {
    split_on(b, ',').map_values(|t: Seq<char>| trimmed(t))
}

/// The brand terms of the criteria; none when no brand list was given.
pub open spec fn criteria_terms(f: FilterCriteria) -> Seq<Seq<char>> {
    match f.brands {
        Some(b) => brand_terms(b@),
        None => Seq::empty(),
    }
}

/// Lower-case mapping of Unicode, as `str::to_lowercase` applies it.
pub uninterp spec fn lower_of(s: Seq<char>) -> Seq<char>;

/// Relies on str::to_lowercase: the lower-case form of the text, which
/// depends on the text alone.
#[verifier::external_body]
pub(crate) fn lowercase(s: &str) -> (r: String)
    ensures
        r@ == lower_of(s@),
{
    s.to_lowercase()
}

pub open spec fn occurs_at(h: Seq<char>, n: Seq<char>, i: int) -> bool {
    0 <= i && i + n.len() <= h.len() && h.subrange(i, i + n.len()) == n
}

/// `n` is a substring of `h`.
pub open spec fn contains(h: Seq<char>, n: Seq<char>) -> bool {
    exists|i: int| occurs_at(h, n, i)
}

/// The brand contains at least one of the terms, ignoring case.
pub open spec fn brand_matches(brand: Seq<char>, terms: Seq<Seq<char>>) -> bool {
    exists|k: int| 0 <= k < terms.len() && contains(lower_of(brand), lower_of(#[trigger] terms[k]))
}

/// The product satisfies every criterion given: a brand term when a brand
/// list is given, and each price bound that is given.
pub open spec fn satisfies(l: Laptop, f: FilterCriteria) -> bool {
    &&& (f.brands is Some ==> brand_matches(l.brand_name@, criteria_terms(f)))
    &&& (f.min_price matches Some(m) ==> l.show_price >= m)
    &&& (f.max_price matches Some(m) ==> l.show_price <= m)
}

/// The products of `s` that satisfy `f`, in their order.
pub open spec fn matching(s: Seq<Laptop>, f: FilterCriteria) -> Seq<Laptop>
    decreases s.len(),
{
    if s.len() == 0 {
        Seq::empty()
    } else if satisfies(s.last(), f) {
        matching(s.drop_last(), f).push(s.last())
    } else {
        matching(s.drop_last(), f)
    }
}

pub proof fn lemma_matching_satisfies(s: Seq<Laptop>, f: FilterCriteria)
    ensures
        forall|i: int| 0 <= i < matching(s, f).len() ==> satisfies(#[trigger] matching(s, f)[i], f),
        matching(s, f).len() <= s.len(),
    decreases s.len(),
{
    if s.len() > 0 {
        lemma_matching_satisfies(s.drop_last(), f);
    }
}

/// Whether `n` occurs in `h` at `i`.
fn occurs_at_exec(h: &Vec<char>, n: &Vec<char>, i: usize) -> (r: bool)
    requires
        i + n@.len() <= h@.len(),
    ensures
        r == occurs_at(h@, n@, i as int),
{
    let hl = h.len();
    let mut j: usize = 0;
    while j < n.len()
        invariant
            hl == h@.len(),
            i + n@.len() <= h@.len(),
            j <= n@.len(),
            forall|k: int| 0 <= k < j ==> h@[i + k] == n@[k],
        decreases n@.len() - j,
    {
        if h[i + j] != n[j] {
            assert(h@.subrange(i as int, i + n@.len())[j as int] != n@[j as int]);
            return false;
        }
        j = j + 1;
    }
    assert(h@.subrange(i as int, i + n@.len()) =~= n@);
    true
}

/// Whether `n` is a substring of `h`.
pub fn contains_chars(h: &Vec<char>, n: &Vec<char>) -> (r: bool)
    ensures
        r == contains(h@, n@),
{
    if n.len() > h.len() {
        return false;
    }
    let last = h.len() - n.len();
    let mut i: usize = 0;
    loop
        invariant
            last == h@.len() - n@.len(),
            n@.len() <= h@.len(),
            i <= last,
            forall|k: int| 0 <= k < i ==> !occurs_at(h@, n@, k),
        decreases last - i,
    {
        if occurs_at_exec(h, n, i) {
            return true;
        }
        if i == last {
            return false;
        }
        i = i + 1;
    }
}

/// The trimmed terms of a comma-separated brand list.
pub fn split_brand_terms(b: &str) -> (r: Vec<Vec<char>>)
    ensures
        views(r@) == brand_terms(b@),
{
    let cs = chars_of(b);
    let pieces = split_chars(&cs, ',');
    let mut r: Vec<Vec<char>> = Vec::new();
    let mut i: usize = 0;
    while i < pieces.len()
        invariant
            i <= pieces@.len(),
            views(pieces@) == split_on(b@, ','),
            views(r@) == split_on(b@, ',').subrange(0, i as int).map_values(
                |t: Seq<char>| trimmed(t),
            ),
        decreases pieces@.len() - i,
    {
        let t = trim_chars(&pieces[i]);
        proof {
            assert(views(pieces@)[i as int] == pieces@[i as int]@);
            assert(t@ == trimmed(split_on(b@, ',')[i as int]));
        }
        let ghost old_r = r@;
        r.push(t);
        assert(views(r@) =~= views(old_r).push(t@));
        i = i + 1;
        assert(views(r@) =~= split_on(b@, ',').subrange(0, i as int).map_values(
            |t: Seq<char>| trimmed(t),
        ));
    }
    assert(split_on(b@, ',').subrange(0, i as int) =~= split_on(b@, ','));
    r
}

/// The lower-case form of each term.
fn lower_terms(terms: &Vec<Vec<char>>) -> (r: Vec<Vec<char>>)
    ensures
        r@.len() == terms@.len(),
        forall|k: int| 0 <= k < r@.len() ==> #[trigger] r@[k]@ == lower_of(terms@[k]@),
{
    let mut r: Vec<Vec<char>> = Vec::new();
    let mut i: usize = 0;
    while i < terms.len()
        invariant
            i <= terms@.len(),
            r@.len() == i,
            forall|k: int| 0 <= k < i ==> #[trigger] r@[k]@ == lower_of(terms@[k]@),
        decreases terms@.len() - i,
    {
        let s = string_of(&terms[i]);
        let low = lowercase(s.as_str());
        r.push(chars_of(low.as_str()));
        i = i + 1;
    }
    r
}

/// Whether `brand` contains one of the lower-cased terms, ignoring case.
fn brand_matches_exec(brand: &String, low_terms: &Vec<Vec<char>>, terms: Ghost<Seq<Seq<char>>>) -> (r: bool)
    requires
        low_terms@.len() == terms@.len(),
        forall|k: int| 0 <= k < low_terms@.len() ==> #[trigger] low_terms@[k]@ == lower_of(terms@[k]),
    ensures
        r == brand_matches(brand@, terms@),
{
    let low = lowercase(brand.as_str());
    let h = chars_of(low.as_str());
    let mut k: usize = 0;
    while k < low_terms.len()
        invariant
            k <= low_terms@.len() == terms@.len(),
            h@ == lower_of(brand@),
            forall|j: int| 0 <= j < low_terms@.len() ==> #[trigger] low_terms@[j]@ == lower_of(terms@[j]),
            forall|j: int| 0 <= j < k ==> !contains(lower_of(brand@), lower_of(#[trigger] terms@[j])),
        decreases low_terms@.len() - k,
    {
        if contains_chars(&h, &low_terms[k]) {
            return true;
        }
        k = k + 1;
    }
    false
}

/// The products that satisfy `f`, in their order.
pub fn keep_matching(v: Vec<Laptop>, f: &FilterCriteria) -> (r: Vec<Laptop>)
    ensures
        r@ == matching(v@, *f),
{
    let terms: Vec<Vec<char>> = match &f.brands {
        Some(b) => split_brand_terms(b.as_str()),
        None => Vec::new(),
    };
    let low = lower_terms(&terms);
    let ghost tv = views(terms@);
    assert(tv == criteria_terms(*f)) by {
        if f.brands is None {
            assert(views(terms@) =~= Seq::<Seq<char>>::empty());
        }
    }
    assert forall|k: int| 0 <= k < low@.len() implies #[trigger] low@[k]@ == lower_of(tv[k]) by {
        assert(tv[k] == terms@[k]@);
    }
    let mut v = v;
    let ghost orig = v@;
    let mut rev: Vec<Laptop> = Vec::new();
    while v.len() > 0
        invariant
            orig.len() >= v@.len(),
            v@ == orig.subrange(0, v@.len() as int),
            matching(orig, *f) == matching(v@, *f) + rev@.reverse(),
            tv == criteria_terms(*f),
            low@.len() == tv.len(),
            forall|k: int| 0 <= k < low@.len() ==> #[trigger] low@[k]@ == lower_of(tv[k]),
        decreases v@.len(),
    {
        let ghost before = v@;
        let l = v.pop().unwrap();
        assert(before.drop_last() =~= v@);
        let brand_ok = match &f.brands {
            Some(_) => brand_matches_exec(&l.brand_name, &low, Ghost(tv)),
            None => true,
        };
        let min_ok = match f.min_price {
            Some(m) => l.show_price >= m,
            None => true,
        };
        let max_ok = match f.max_price {
            Some(m) => l.show_price <= m,
            None => true,
        };
        if brand_ok && min_ok && max_ok {
            assert(satisfies(l, *f));
            let ghost old_rev = rev@;
            rev.push(l);
            assert(seq![l] + old_rev.reverse() =~= rev@.reverse()) by {
                assert(rev@.reverse() =~= seq![l] + old_rev.reverse());
            }
            assert(matching(before, *f) == matching(v@, *f).push(l));
            assert(matching(v@, *f).push(l) + old_rev.reverse() =~= matching(v@, *f) + rev@.reverse());
        } else {
            assert(!satisfies(l, *f));
        }
    }
    assert(matching(v@, *f) =~= Seq::<Laptop>::empty());
    let mut r: Vec<Laptop> = Vec::new();
    let ghost target = rev@.reverse();
    while rev.len() > 0
        invariant
            target == r@ + rev@.reverse(),
        decreases rev@.len(),
    {
        let ghost before = rev@;
        let l = rev.pop().unwrap();
        r.push(l);
        assert(before.reverse() =~= seq![l] + rev@.reverse());
        assert(target =~= r@ + rev@.reverse());
    }
    assert(r@ =~= target);
    r
}

} // verus!
