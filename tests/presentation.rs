use epasal::catalog::Laptop;
use epasal::response::{format_price, map_to_response};
use epasal::storefront::{brand_from_path, brand_page_query, to_frontend};
use epasal::suggestion::{suggestion_query, SuggestionQuery};

fn product(id: i32, price: i64, tag: Option<&str>) -> Laptop {
    Laptop {
        id,
        display_name: "Acer Nitro 5".to_string(),
        brand_name: "Acer".to_string(),
        model_name: "Nitro 5".to_string(),
        model_year: Some(2023),
        product_authentication: tag.map(|s| s.to_string()),
        product_type: None,
        processor: None,
        processor_generation: None,
        processor_series: None,
        ram: None,
        ram_type: None,
        storage: None,
        storage_type: None,
        graphic: None,
        graphic_ram: None,
        battery: None,
        touchscreen: None,
        show_price: price,
        face_image_url: Some("face.jpg".to_string()),
    }
}

#[test]
fn response_carries_text_fields() {
    let r = map_to_response(product(101, 12_345_678, None));
    assert_eq!(r.id, "101");
    assert_eq!(r.image.as_deref(), Some("face.jpg"));
    assert_eq!(r.display_name, "Acer Nitro 5");
    assert_eq!(r.show_price, "123456.78");
    assert_eq!(r.tag, "Performance Laptop");
    let r = map_to_response(product(-7, 5, Some("Genuine")));
    assert_eq!(r.id, "-7");
    assert_eq!(r.show_price, "0.05");
    assert_eq!(r.tag, "Genuine");
}

#[test]
fn prices_have_two_decimals() {
    assert_eq!(format_price(0), "0.00");
    assert_eq!(format_price(-5), "-0.05");
    assert_eq!(format_price(10_000_000), "100000.00");
    assert_eq!(format_price(i64::MIN), "-92233720368547758.08");
}

#[test]
fn card_price_is_grouped_by_thousands() {
    let c = to_frontend(3, "img".to_string(), "tag".to_string(), "name".to_string(), 1_234_567);
    assert_eq!(c.show_price, "Rs1,234,567");
    assert_eq!(to_frontend(3, String::new(), String::new(), String::new(), 999).show_price, "Rs999");
    assert_eq!(to_frontend(3, String::new(), String::new(), String::new(), 1000).show_price, "Rs1,000");
    assert_eq!(c.id, 3);
    assert_eq!(c.image, "img");
}

#[test]
fn brand_page_ignores_case() {
    assert_eq!(brand_from_path("ACER").as_deref(), Some("acer"));
    assert_eq!(brand_from_path("Lenovo").as_deref(), Some("lenovo"));
    assert_eq!(brand_from_path("dell"), None);
    let q = brand_page_query("msi".to_string());
    assert!(q.sql.contains("LOWER(brand_name) = $1"));
    assert_eq!(q.params.len(), 1);
}

#[test]
fn suggestions_need_search_text() {
    assert!(suggestion_query(&SuggestionQuery { search: None }).is_none());
    let q = suggestion_query(&SuggestionQuery { search: Some("gaming".to_string()) }).unwrap();
    assert!(q.sql.ends_with("DESC LIMIT 5"));
    assert_eq!(q.params.len(), 1);
}
