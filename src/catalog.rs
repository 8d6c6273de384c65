//! The catalog entry the engine works on.

use vstd::prelude::*;

verus! {

/// One laptop of the catalog. Prices are held in hundredths of the
/// currency unit.
#[derive(Clone, Debug)]
pub struct Laptop {
    pub id: i32,
    pub display_name: String,
    pub brand_name: String,
    pub model_name: String,
    pub model_year: Option<i32>,
    pub product_authentication: Option<String>,
    pub product_type: Option<String>,
    pub processor: Option<String>,
    pub processor_generation: Option<String>,
    pub processor_series: Option<String>,
    pub ram: Option<i32>,
    pub ram_type: Option<String>,
    pub storage: Option<i32>,
    pub storage_type: Option<String>,
    pub graphic: Option<String>,
    pub graphic_ram: Option<i32>,
    pub battery: Option<String>,
    pub touchscreen: Option<bool>,
    pub show_price: i64,
    pub face_image_url: Option<String>,
}

} // verus!
