//! Product cards of the home page and of the brand pages.

use vstd::prelude::*;
use crate::filter::{lower_of, lowercase, SqlParam, SqlQuery, ParamModel, param_views};
use crate::text::{decimal, digit_char, push_str, same_text};

verus! {

/// One product card as the home and brand pages show it.
#[derive(Clone, Debug)]
pub struct LaptopFrontend {
    pub id: i32,
    pub image: String,
    pub show_price: String,
    pub tag: String,
    pub display_name: String,
}

/// Three decimal digits, with leading zeros.
pub open spec fn three_digits(n: nat) -> Seq<char> {
    seq![digit_char(n / 100), digit_char((n / 10) % 10), digit_char(n % 10)]
}

/// Decimal digits grouped by three with `,` from the right, as in English.
pub open spec fn grouped(n: nat) -> Seq<char>
    decreases n,
{
    if n < 1000 {
        decimal(n)
    } else {
        grouped(n / 1000) + seq![','] + three_digits(n % 1000)
    }
}

/// Relies on num_format's `ToFormattedString::to_formatted_string` with
/// `Locale::en`: the decimal digits grouped by three with `,` (the English
/// locale's separator and standard grouping).
#[verifier::external_body]
fn format_en(n: u64) -> (r: String)
    ensures
        r@ == grouped(n as nat),
{
    num_format::ToFormattedString::to_formatted_string(&n, &num_format::Locale::en)
}

/// `Rs` followed by the whole price grouped by thousands.
pub open spec fn card_price(units: nat) -> Seq<char> {
    "Rs"@ + grouped(units)
}

/// A product card; the price is in whole currency units.
pub fn to_frontend(id: i32, image: String, tag: String, display_name: String, price_units: u64) -> (r: LaptopFrontend)
    ensures
        r.id == id,
        r.image == image,
        r.tag == tag,
        r.display_name == display_name,
        r.show_price@ == card_price(price_units as nat),
{
    let mut show_price = String::new();
    push_str(&mut show_price, "Rs");
    let digits = format_en(price_units);
    push_str(&mut show_price, digits.as_str());
    assert(show_price@ =~= card_price(price_units as nat));
    LaptopFrontend { id, image, show_price, tag, display_name }
}

/// The brands that have a page.
pub open spec fn is_listed_brand(b: Seq<char>) -> bool {
    b == "acer"@ || b == "asus"@ || b == "lenovo"@ || b == "msi"@
}

/// The brand of a lower-case path segment, when it has a page.
pub fn listed_brand(lowered: &str) -> (r: Option<String>)
    ensures
        r is Some <==> is_listed_brand(lowered@),
        r matches Some(b) ==> b@ == lowered@,
{
    if same_text(lowered, "acer") || same_text(lowered, "asus") || same_text(lowered, "lenovo")
        || same_text(lowered, "msi") {
        let mut b = String::new();
        push_str(&mut b, lowered);
        assert(b@ =~= lowered@);
        Some(b)
    } else {
        None
    }
}

/// The brand of a path segment, compared without regard to case.
pub fn brand_from_path(segment: &str) -> (r: Option<String>)
    ensures
        r is Some <==> is_listed_brand(lower_of(segment@)),
        r matches Some(b) ==> b@ == lower_of(segment@),
{
    let low = lowercase(segment);
    listed_brand(low.as_str())
}

/// The products of one brand that have an image, twelve at random.
pub const BRAND_PAGE_SQL: &'static str = "SELECT id, face_image_url, product_authentication, show_price::FLOAT8 AS show_price, display_name FROM laptop_details WHERE LOWER(brand_name) = $1 AND face_image_url IS NOT NULL ORDER BY RANDOM() LIMIT 12";

/// Fifteen products that have an image, at random.
pub const TOP_PICKS_SQL: &'static str = "SELECT id, face_image_url, product_authentication, show_price::FLOAT8 AS show_price, display_name FROM laptop_details WHERE face_image_url IS NOT NULL ORDER BY RANDOM() LIMIT 15";

/// The query for a brand page.
pub fn brand_page_query(brand: String) -> (q: SqlQuery)
    ensures
        q.sql@ == BRAND_PAGE_SQL@,
        param_views(q.params@) == seq![ParamModel::Text(brand@)],
{
    let mut sql = String::new();
    push_str(&mut sql, BRAND_PAGE_SQL);
    let mut params: Vec<SqlParam> = Vec::new();
    let ghost b = brand@;
    params.push(SqlParam::Text(brand));
    assert(sql@ =~= BRAND_PAGE_SQL@);
    assert(param_views(params@) =~= seq![ParamModel::Text(b)]);
    SqlQuery { sql, params }
}

} // verus!
