//! What the catalog endpoints hand back for each product.

use vstd::prelude::*;
use crate::catalog::Laptop;
use crate::rank::reversed;
use crate::text::{decimal, digit_char, digit_to_char, int_text, push_char, push_decimal, push_int, push_str};

verus! {

/// One product as the listing and recommendation endpoints return it.
#[derive(Clone, Debug)]
pub struct LaptopResponse {
    pub id: String,
    pub image: Option<String>,
    pub display_name: String,
    pub show_price: String,
    pub tag: String,
}

/// The tag shown when a product has no authentication tag.
pub const DEFAULT_TAG: &'static str = "Performance Laptop";

pub open spec fn abs(i: int) -> nat {
    if i < 0 { (-i) as nat } else { i as nat }
}

/// A price in hundredths, written with two decimal places.
pub open spec fn price_text(cents: int) -> Seq<char> {
    let a = abs(cents);
    (if cents < 0 { seq!['-'] } else { Seq::empty() }) + decimal(a / 100) + seq![
        '.',
        digit_char((a % 100) / 10),
        digit_char(a % 10),
    ]
}

/// Appends a price in hundredths with two decimal places.
pub fn push_price(s: &mut String, cents: i64)
    ensures
        final(s)@ == old(s)@ + price_text(cents as int),
{
    if cents < 0 {
        push_char(s, '-');
    }
    let a: u128 = if cents < 0 { (0 - (cents as i128)) as u128 } else { cents as u128 };
    assert(a == abs(cents as int));
    push_decimal(s, a / 100);
    push_char(s, '.');
    push_char(s, digit_to_char((a % 100) / 10));
    push_char(s, digit_to_char(a % 10));
    assert(final(s)@ =~= old(s)@ + price_text(cents as int));
}

/// The price text of a product.
pub fn format_price(cents: i64) -> (r: String)
    ensures
        r@ == price_text(cents as int),
{
    let mut r = String::new();
    push_price(&mut r, cents);
    assert(r@ =~= price_text(cents as int));
    r
}

pub open spec fn tag_of(l: Laptop) -> Seq<char> {
    match l.product_authentication {
        Some(t) => t@,
        None => DEFAULT_TAG@,
    }
}

/// The response for one product: its identifier as text, its image, its
/// name, its price with two decimals and its tag (or the default tag).
pub fn map_to_response(laptop: Laptop) -> (r: LaptopResponse)
    ensures
        r.id@ == int_text(laptop.id as int),
        r.image == laptop.face_image_url,
        r.display_name == laptop.display_name,
        r.show_price@ == price_text(laptop.show_price as int),
        r.tag@ == tag_of(laptop),
{
    let mut id = String::new();
    push_int(&mut id, laptop.id as i64);
    assert(id@ =~= int_text(laptop.id as int));
    let tag = match laptop.product_authentication {
        Some(t) => t,
        None => {
            let mut t = String::new();
            push_str(&mut t, DEFAULT_TAG);
            assert(t@ =~= DEFAULT_TAG@);
            t
        },
    };
    LaptopResponse {
        id,
        image: laptop.face_image_url,
        display_name: laptop.display_name,
        show_price: format_price(laptop.show_price),
        tag,
    }
}

pub open spec fn responses_match(r: Seq<LaptopResponse>, ls: Seq<Laptop>) -> bool {
    &&& r.len() == ls.len()
    &&& forall|i: int| 0 <= i < r.len() ==> {
        &&& (#[trigger] r[i]).id@ == int_text(ls[i].id as int)
        &&& r[i].image == ls[i].face_image_url
        &&& r[i].display_name == ls[i].display_name
        &&& r[i].show_price@ == price_text(ls[i].show_price as int)
        &&& r[i].tag@ == tag_of(ls[i])
    }
}

/// The responses for a list of products, in order.
pub fn map_all(laptops: Vec<Laptop>) -> (r: Vec<LaptopResponse>)
    ensures
        responses_match(r@, laptops@),
{
    let ghost orig = laptops@;
    let mut rest = reversed(laptops);
    let mut r: Vec<LaptopResponse> = Vec::new();
    assert(rest@.reverse() =~= orig.subrange(0, orig.len() as int));
    while rest.len() > 0
        invariant
            r@.len() + rest@.len() == orig.len(),
            rest@.reverse() == orig.subrange(r@.len() as int, orig.len() as int),
            responses_match(r@, orig.subrange(0, r@.len() as int)),
        decreases rest@.len(),
    {
        let ghost before = rest@;
        let ghost k = r@.len() as int;
        let l = rest.pop().unwrap();
        assert(before.reverse()[0] == l);
        assert(orig[k] == l);
        let resp = map_to_response(l);
        let ghost old_r = r@;
        r.push(resp);
        assert(rest@.reverse() =~= orig.subrange(k + 1, orig.len() as int)) by {
            assert(before.reverse().drop_first() =~= rest@.reverse());
        }
        assert(orig.subrange(0, k + 1) =~= orig.subrange(0, k).push(l));
        assert(responses_match(r@, orig.subrange(0, k + 1))) by {
            assert forall|i: int| 0 <= i < r@.len() implies #[trigger] r@[i] == (if i < k { old_r[i] } else { resp }) by {}
        }
    }
    assert(orig.subrange(0, r@.len() as int) =~= orig);
    r
}

} // verus!
