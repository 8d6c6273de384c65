//! Weighted similarity between a candidate and the products a shopper has
//! viewed. Scores are exact integers in millionths of a point.

use vstd::prelude::*;
use crate::catalog::Laptop;

verus! {

/// One point of score.
pub const POINT: u128 = 1_000_000;

/// Price differences are measured against 10,000 currency units, held here
/// in hundredths.
pub const PRICE_SCALE: u128 = 1_000_000;

pub const RAM_SCALE: u128 = 4;

pub const STORAGE_SCALE: u128 = 256;

pub const GRAPHIC_RAM_SCALE: u128 = 2;

pub const YEAR_SCALE: u128 = 1;

/// Both values present and equal.
pub open spec fn text_match(a: Option<String>, b: Option<String>) -> bool {
    match (a, b) {
        (Some(x), Some(y)) => x@ == y@,
        _ => false,
    }
}

pub open spec fn flag_match(a: Option<bool>, b: Option<bool>) -> bool {
    match (a, b) {
        (Some(x), Some(y)) => x == y,
        _ => false,
    }
}

/// Whether candidate `c` and seed `s` agree on categorical attribute `k`
/// (0 to 10: brand, model, product type, processor, processor generation,
/// processor series, RAM type, storage type, graphics, battery, touchscreen).
pub open spec fn attr_match(c: Laptop, s: Laptop, k: int) -> bool {
    if k == 0 {
        c.brand_name@ == s.brand_name@
    } else if k == 1 {
        c.model_name@ == s.model_name@
    } else if k == 2 {
        text_match(c.product_type, s.product_type)
    } else if k == 3 {
        text_match(c.processor, s.processor)
    } else if k == 4 {
        text_match(c.processor_generation, s.processor_generation)
    } else if k == 5 {
        text_match(c.processor_series, s.processor_series)
    } else if k == 6 {
        text_match(c.ram_type, s.ram_type)
    } else if k == 7 {
        text_match(c.storage_type, s.storage_type)
    } else if k == 8 {
        text_match(c.graphic, s.graphic)
    } else if k == 9 {
        text_match(c.battery, s.battery)
    } else if k == 10 {
        flag_match(c.touchscreen, s.touchscreen)
    } else {
        false
    }
}

/// The bonus of categorical attribute `k`, in millionths of a point.
pub open spec fn attr_weight(k: int) -> nat {
    if k == 0 || k == 1 || k == 3 {
        1_000_000
    } else if k == 2 || k == 4 || k == 5 {
        800_000
    } else {
        600_000
    }
}

pub open spec fn bonus(c: Laptop, s: Laptop, k: int) -> nat {
    if attr_match(c, s, k) { attr_weight(k) } else { 0 }
}

/// The sum of the bonuses of the attributes on which `c` and `s` agree.
pub open spec fn categorical_score(c: Laptop, s: Laptop) -> nat {
    bonus(c, s, 0) + bonus(c, s, 1) + bonus(c, s, 2) + bonus(c, s, 3) + bonus(c, s, 4) + bonus(
        c,
        s,
        5,
    ) + bonus(c, s, 6) + bonus(c, s, 7) + bonus(c, s, 8) + bonus(c, s, 9) + bonus(c, s, 10)
}

/// `1 / (1 + d / scale)` in millionths of a point, rounded down.
pub open spec fn closeness(d: nat, scale: nat) -> nat {
    ((POINT as nat) * scale) / (scale + d)
}

pub open spec fn abs_diff(a: int, b: int) -> nat {
    if a >= b { (a - b) as nat } else { (b - a) as nat }
}

/// The closeness of two optional quantities; nothing when either is absent.
pub open spec fn opt_closeness(a: Option<i32>, b: Option<i32>, scale: nat) -> nat {
    match (a, b) {
        (Some(x), Some(y)) => closeness(abs_diff(x as int, y as int), scale),
        _ => 0,
    }
}

/// The continuous part of the score: price, RAM, storage, graphics memory
/// and model year.
pub open spec fn numeric_score(c: Laptop, s: Laptop) -> nat {
    closeness(abs_diff(c.show_price as int, s.show_price as int), PRICE_SCALE as nat)
        + opt_closeness(c.ram, s.ram, RAM_SCALE as nat) + opt_closeness(
        c.storage,
        s.storage,
        STORAGE_SCALE as nat,
    ) + opt_closeness(c.graphic_ram, s.graphic_ram, GRAPHIC_RAM_SCALE as nat) + opt_closeness(
        c.model_year,
        s.model_year,
        YEAR_SCALE as nat,
    )
}

/// The score of candidate `c` against one seed `s`.
pub open spec fn pair_score(c: Laptop, s: Laptop) -> nat {
    categorical_score(c, s) + numeric_score(c, s)
}

/// The sum of the pair scores of `c` over all seeds. The candidate's final
/// score is this sum divided by the number of seeds; as that number is the
/// same for every candidate, both order candidates alike.
pub open spec fn total_score(c: Laptop, seeds: Seq<Laptop>) -> nat
    decreases seeds.len(),
{
    if seeds.len() == 0 {
        0
    } else {
        total_score(c, seeds.drop_last()) + pair_score(c, seeds.last())
    }
}

/// Largest score of one pair: all eleven bonuses and five full closeness terms.
pub open spec fn max_pair_score() -> nat {
    13_400_000
}

pub proof fn lemma_pair_score_bound(c: Laptop, s: Laptop)
    ensures
        pair_score(c, s) <= max_pair_score(),
{
    assert forall|d: nat, scale: nat| scale > 0 implies #[trigger] closeness(d, scale)
        <= 1_000_000 by {
        assert((1_000_000 * scale) / (scale + d) <= (1_000_000 * scale) / scale) by {
            vstd::arithmetic::div_mod::lemma_div_is_ordered_by_denominator(
                (1_000_000 * scale) as int,
                scale as int,
                (scale + d) as int,
            );
        }
        vstd::arithmetic::div_mod::lemma_div_multiples_vanish(1_000_000, scale as int);
        assert((1_000_000 * scale) == scale * 1_000_000) by (nonlinear_arith);
    }
}

pub proof fn lemma_total_score_bound(c: Laptop, seeds: Seq<Laptop>)
    ensures
        total_score(c, seeds) <= seeds.len() * max_pair_score(),
    decreases seeds.len(),
{
    if seeds.len() > 0 {
        lemma_total_score_bound(c, seeds.drop_last());
        lemma_pair_score_bound(c, seeds.last());
        assert((seeds.len() - 1) * max_pair_score() + max_pair_score() == seeds.len()
            * max_pair_score()) by (nonlinear_arith);
    }
}

fn text_eq(a: &Option<String>, b: &Option<String>) -> (r: bool)
    ensures
        r == text_match(*a, *b),
{
    match (a, b) {
        (Some(x), Some(y)) => x.eq(y),
        _ => false,
    }
}

fn flag_eq(a: Option<bool>, b: Option<bool>) -> (r: bool)
    ensures
        r == flag_match(a, b),
{
    match (a, b) {
        (Some(x), Some(y)) => x == y,
        _ => false,
    }
}

/// `1 / (1 + d / scale)` in millionths of a point, rounded down.
pub fn closeness_of(d: u128, scale: u128) -> (r: u128)
    requires
        1 <= scale <= PRICE_SCALE,
        d <= u64::MAX,
    ensures
        r == closeness(d as nat, scale as nat),
{
    (POINT * scale) / (scale + d)
}

fn opt_closeness_of(a: Option<i32>, b: Option<i32>, scale: u128) -> (r: u128)
    requires
        1 <= scale <= PRICE_SCALE,
    ensures
        r == opt_closeness(a, b, scale as nat),
{
    match (a, b) {
        (Some(x), Some(y)) => {
            let d: i64 = x as i64 - y as i64;
            let d: u128 = if d >= 0 { d as u128 } else { (-d) as u128 };
            closeness_of(d, scale)
        },
        _ => 0,
    }
}

fn categorical_of(c: &Laptop, s: &Laptop) -> (r: u128)
    ensures
        r == categorical_score(*c, *s),
{
    let mut score: u128 = 0;
    if c.brand_name == s.brand_name {
        score = score + 1_000_000;
    }
    if c.model_name == s.model_name {
        score = score + 1_000_000;
    }
    if text_eq(&c.product_type, &s.product_type) {
        score = score + 800_000;
    }
    if text_eq(&c.processor, &s.processor) {
        score = score + 1_000_000;
    }
    if text_eq(&c.processor_generation, &s.processor_generation) {
        score = score + 800_000;
    }
    if text_eq(&c.processor_series, &s.processor_series) {
        score = score + 800_000;
    }
    if text_eq(&c.ram_type, &s.ram_type) {
        score = score + 600_000;
    }
    if text_eq(&c.storage_type, &s.storage_type) {
        score = score + 600_000;
    }
    if text_eq(&c.graphic, &s.graphic) {
        score = score + 600_000;
    }
    if text_eq(&c.battery, &s.battery) {
        score = score + 600_000;
    }
    if flag_eq(c.touchscreen, s.touchscreen) {
        score = score + 600_000;
    }
    score
}

fn numeric_of(c: &Laptop, s: &Laptop) -> (r: u128)
    ensures
        r == numeric_score(*c, *s),
{
    let dp: i128 = c.show_price as i128 - s.show_price as i128;
    let dp: u128 = if dp >= 0 { dp as u128 } else { (-dp) as u128 };
    let mut score = closeness_of(dp, PRICE_SCALE);
    score = score + opt_closeness_of(c.ram, s.ram, RAM_SCALE);
    score = score + opt_closeness_of(c.storage, s.storage, STORAGE_SCALE);
    score = score + opt_closeness_of(c.graphic_ram, s.graphic_ram, GRAPHIC_RAM_SCALE);
    score = score + opt_closeness_of(c.model_year, s.model_year, YEAR_SCALE);
    score
}

/// The score of candidate `c` against seed `s`.
pub fn pair_score_of(c: &Laptop, s: &Laptop) -> (r: u128)
    ensures
        r == pair_score(*c, *s),
{
    categorical_of(c, s) + numeric_of(c, s)
}

/// The sum of the pair scores of `c` over all seeds.
pub fn total_score_of(c: &Laptop, seeds: &Vec<Laptop>) -> (r: u128)
    ensures
        r == total_score(*c, seeds@),
{
    let mut total: u128 = 0;
    let mut i: usize = 0;
    while i < seeds.len()
        invariant
            i <= seeds@.len(),
            total == total_score(*c, seeds@.subrange(0, i as int)),
        decreases seeds@.len() - i,
    {
        let p = pair_score_of(c, &seeds[i]);
        proof {
            let next = seeds@.subrange(0, i + 1);
            assert(next.drop_last() =~= seeds@.subrange(0, i as int));
            lemma_total_score_bound(*c, next);
            assert(i + 1 <= usize::MAX);
            assert((i + 1) * max_pair_score() <= usize::MAX * 13_400_000) by (nonlinear_arith)
                requires
                    i + 1 <= usize::MAX,
            ;
        }
        total = total + p;
        i = i + 1;
    }
    assert(seeds@.subrange(0, seeds@.len() as int) =~= seeds@);
    total
}

} // verus!
