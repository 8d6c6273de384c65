//! Search-as-you-type suggestions.

use vstd::prelude::*;
use crate::filter::{param_views, ParamModel, SqlParam, SqlQuery};
use crate::text::owned;

verus! {

/// One suggestion, as the search box shows it.
#[derive(Clone, Debug)]
pub struct LaptopResponse {
    pub id: i32,
    pub image: Option<String>,
    pub display_name: String,
    pub show_price: String,
    pub tag: String,
}

/// The text typed so far, if any.
#[derive(Clone, Debug)]
pub struct SuggestionQuery {
    pub search: Option<String>,
}

/// The five products whose text best matches the search, by full-text rank.
pub const SUGGESTION_SQL: &'static str = "SELECT id, face_image_url AS image, display_name, show_price::TEXT AS show_price, product_authentication AS tag FROM laptop_details WHERE to_tsvector('english', coalesce(brand_name, '') || ' ' || coalesce(model_name, '') || ' ' || coalesce(display_name, '') || ' ' || coalesce(product_type, '') || ' ' || coalesce(product_authentication, '') || ' ' || coalesce(suitable_for, '') || ' ' || coalesce(color, '') || ' ' || coalesce(processor_generation, '') || ' ' || coalesce(processor, '') || ' ' || coalesce(processor_series, '') || ' ' || coalesce(ram_type, '') || ' ' || coalesce(storage_type, '') || ' ' || coalesce(graphic, '') || ' ' || coalesce(display, '') || ' ' || coalesce(display_type, '') || ' ' || coalesce(power_supply, '') || ' ' || coalesce(battery, '') || ' ' || coalesce(warranty, '')) @@ plainto_tsquery('english', $1) ORDER BY ts_rank(to_tsvector('english', coalesce(brand_name, '') || ' ' || coalesce(model_name, '') || ' ' || coalesce(display_name, '') || ' ' || coalesce(product_type, '') || ' ' || coalesce(product_authentication, '') || ' ' || coalesce(suitable_for, '') || ' ' || coalesce(color, '') || ' ' || coalesce(processor_generation, '') || ' ' || coalesce(processor, '') || ' ' || coalesce(processor_series, '') || ' ' || coalesce(ram_type, '') || ' ' || coalesce(storage_type, '') || ' ' || coalesce(graphic, '') || ' ' || coalesce(display, '') || ' ' || coalesce(display_type, '') || ' ' || coalesce(power_supply, '') || ' ' || coalesce(battery, '') || ' ' || coalesce(warranty, '')), plainto_tsquery('english', $1)) DESC LIMIT 5";

/// The query for the suggestions; none without a search text, which
/// answers with no suggestion.
pub fn suggestion_query(q: &SuggestionQuery) -> (r: Option<SqlQuery>)
    ensures
        r is Some <==> q.search is Some,
        r matches Some(sq) ==> sq.sql@ == SUGGESTION_SQL@ && param_views(sq.params@) == seq![
            ParamModel::Text(q.search->Some_0@),
        ],
{
    match &q.search {
        Some(s) => {
            let mut params: Vec<SqlParam> = Vec::new();
            let t = s.clone();
            params.push(SqlParam::Text(t));
            assert(param_views(params@) =~= seq![ParamModel::Text(s@)]);
            Some(SqlQuery { sql: owned(SUGGESTION_SQL), params })
        },
        None => None,
    }
}

} // verus!
