use epasal::catalog::Laptop;
use epasal::engine::{advance, criteria_of, parse_viewed, query_for, start, CatalogError, ProductQuery, Step};
use epasal::filter::{keep_matching, FilterCriteria, SqlParam};
use epasal::rank::{rank, top_laptops};
use epasal::scoring::{closeness_of, pair_score_of, total_score_of, PRICE_SCALE};

fn laptop(id: i32, brand: &str, model: &str, ram: Option<i32>, ram_type: Option<&str>, price_cents: i64) -> Laptop {
    Laptop {
        id,
        display_name: format!("{} {}", brand, model),
        brand_name: brand.to_string(),
        model_name: model.to_string(),
        model_year: None,
        product_authentication: None,
        product_type: None,
        processor: None,
        processor_generation: None,
        processor_series: None,
        ram,
        ram_type: ram_type.map(|s| s.to_string()),
        storage: None,
        storage_type: None,
        graphic: None,
        graphic_ram: None,
        battery: None,
        touchscreen: None,
        show_price: price_cents,
        face_image_url: None,
    }
}

fn query(brands: Option<&str>, min: Option<i64>, max: Option<i64>, random: Option<bool>, viewed: Option<&str>) -> ProductQuery {
    ProductQuery {
        search: None,
        brands: brands.map(|s| s.to_string()),
        min_price: min,
        max_price: max,
        random,
        viewed: viewed.map(|s| s.to_string()),
    }
}

fn no_filter() -> FilterCriteria {
    FilterCriteria { brands: None, min_price: None, max_price: None }
}

fn ids(v: &[Laptop]) -> Vec<i32> {
    v.iter().map(|l| l.id).collect()
}

fn responded(s: Step) -> Vec<Laptop> {
    match s {
        Step::Respond(v) => v,
        other => panic!("expected an answer, got {:?}", other),
    }
}

#[test]
fn similar_product_outranks_unrelated_one() {
    let seed = laptop(101, "Acer", "Nitro 5", Some(16), Some("DDR4"), 10_000_000);
    let close = laptop(202, "Acer", "Aspire 7", Some(16), Some("DDR4"), 10_050_000);
    let other = laptop(303, "Dell", "Inspiron", None, None, 10_000_000);
    let seeds = vec![seed.clone()];
    // the price term of 202: 1 / (1 + 500 / 10000)
    assert_eq!(closeness_of(50_000, PRICE_SCALE), 952_380);
    let step = advance(Step::FetchCandidates(seeds), Ok(vec![other, close, seed]), &no_filter());
    let out = responded(step);
    assert_eq!(ids(&out), vec![101, 202, 303]);
}

#[test]
fn empty_viewed_list_takes_random_path() {
    let q = query(None, None, None, None, Some(""));
    let f = criteria_of(&q);
    let s = start(&q);
    assert!(matches!(s, Step::FetchRandom));
    let sql = query_for(&s, &f).unwrap();
    assert!(sql.sql.ends_with(" WHERE 1=1 ORDER BY RANDOM() LIMIT 16"));
    assert!(sql.params.is_empty());
    let pool: Vec<Laptop> = (0..20).map(|i| laptop(i, "Asus", "Vivobook", None, None, 5_000_000)).collect();
    let out = responded(advance(s, Ok(pool), &f));
    assert_eq!(out.len(), 16);
    assert_eq!(ids(&out), (0..16).collect::<Vec<i32>>());
}

#[test]
fn brand_and_price_filters_give_plain_listing() {
    let q = query(Some("acer,asus"), Some(5_000_000), Some(15_000_000), None, None);
    let f = criteria_of(&q);
    let s = start(&q);
    assert!(matches!(s, Step::FetchListing));
    let sql = query_for(&s, &f).unwrap();
    assert!(sql.sql.ends_with(
        " WHERE 1=1 AND (brand_name ILIKE $1 OR brand_name ILIKE $2) AND show_price >= $3 AND show_price <= $4"
    ));
    assert_eq!(sql.params.len(), 4);
    assert!(matches!(&sql.params[0], SqlParam::Text(t) if t == "%acer%"));
    assert!(matches!(&sql.params[1], SqlParam::Text(t) if t == "%asus%"));
    assert!(matches!(sql.params[2], SqlParam::Cents(5_000_000)));
    assert!(matches!(sql.params[3], SqlParam::Cents(15_000_000)));
    let rows = vec![
        laptop(1, "ACER", "Swift", None, None, 9_000_000),
        laptop(2, "Dell", "XPS", None, None, 9_000_000),
        laptop(3, "Asus", "ROG", None, None, 20_000_000),
        laptop(4, "asus", "TUF", None, None, 5_000_000),
        laptop(5, "Acer", "Aspire", None, None, 4_999_999),
    ];
    let out = responded(advance(s, Ok(rows), &f));
    assert_eq!(ids(&out), vec![1, 4]);
}

#[test]
fn returned_products_satisfy_criteria() {
    let f = FilterCriteria { brands: Some(" Len ".to_string()), min_price: None, max_price: Some(100) };
    let rows = vec![
        laptop(1, "Lenovo", "Legion", None, None, 100),
        laptop(2, "Lenovo", "Yoga", None, None, 101),
        laptop(3, "HP", "Envy", None, None, 50),
    ];
    assert_eq!(ids(&keep_matching(rows, &f)), vec![1]);
}

#[test]
fn unresolved_views_fall_back_to_random() {
    let q = query(None, None, None, Some(false), Some("abc, x, 99999999999"));
    assert!(matches!(start(&q), Step::FetchRandom));
    let q = query(None, None, None, None, Some("7, 9"));
    let s = start(&q);
    match &s {
        Step::FetchSeeds(v) => assert_eq!(v, &vec![7, 9]),
        other => panic!("unexpected {:?}", other),
    }
    let f = criteria_of(&q);
    let sql = query_for(&s, &f).unwrap();
    assert!(sql.sql.ends_with(" WHERE id IN ($1,$2)"));
    assert!(matches!(advance(s, Ok(vec![]), &f), Step::FetchRandom));
}

#[test]
fn random_flag_overrides_viewed_list() {
    let q = query(None, None, None, Some(true), Some("1,2"));
    assert!(matches!(start(&q), Step::FetchRandom));
}

#[test]
fn failed_fetch_fails_request() {
    let f = no_filter();
    assert!(matches!(advance(Step::FetchSeeds(vec![1]), Err(CatalogError), &f), Step::Fail));
    assert!(matches!(advance(Step::FetchCandidates(vec![]), Err(CatalogError), &f), Step::Fail));
    assert!(matches!(advance(Step::FetchListing, Err(CatalogError), &f), Step::Fail));
}

#[test]
fn no_match_is_an_empty_answer() {
    let f = FilterCriteria { brands: Some("msi".to_string()), min_price: None, max_price: None };
    let out = responded(advance(Step::FetchListing, Ok(vec![laptop(1, "Acer", "A", None, None, 1)]), &f));
    assert!(out.is_empty());
}

#[test]
fn ranking_twice_gives_same_order() {
    let seeds = vec![laptop(1, "Acer", "Nitro", Some(8), None, 8_000_000)];
    let pool = || {
        vec![
            laptop(2, "Acer", "Swift", Some(8), None, 9_000_000),
            laptop(3, "HP", "Omen", Some(8), None, 8_000_000),
            laptop(4, "Acer", "Nitro", Some(16), None, 7_000_000),
            laptop(5, "HP", "Omen", Some(8), None, 8_000_000),
        ]
    };
    let a = top_laptops(rank(&seeds, pool(), &no_filter()));
    let b = top_laptops(rank(&seeds, pool(), &no_filter()));
    assert_eq!(ids(&a), ids(&b));
    // equal scores keep the pool order
    let pos3 = ids(&a).iter().position(|&i| i == 3).unwrap();
    let pos5 = ids(&a).iter().position(|&i| i == 5).unwrap();
    assert!(pos3 < pos5);
}

#[test]
fn more_categorical_matches_score_higher() {
    let seed = laptop(1, "Acer", "Nitro", Some(16), Some("DDR5"), 10_000_000);
    let a = laptop(2, "Acer", "Other", Some(16), Some("DDR5"), 12_000_000);
    let b = laptop(3, "Acer", "Other", Some(16), Some("DDR4"), 12_000_000);
    let seeds = vec![seed.clone()];
    assert!(total_score_of(&a, &seeds) > total_score_of(&b, &seeds));
    assert_eq!(pair_score_of(&a, &seed) - pair_score_of(&b, &seed), 600_000);
}

#[test]
fn pair_score_of_identical_products() {
    let mut l = laptop(1, "Acer", "Nitro", Some(16), Some("DDR5"), 10_000_000);
    l.model_year = Some(2023);
    l.storage = Some(512);
    l.graphic_ram = Some(6);
    l.product_type = Some("Gaming".to_string());
    // brand, model, product type, RAM type; five full closeness terms
    assert_eq!(pair_score_of(&l, &l), 1_000_000 + 1_000_000 + 800_000 + 600_000 + 5 * 1_000_000);
    let mut m = l.clone();
    m.ram = Some(8);
    m.storage = Some(256);
    m.graphic_ram = Some(4);
    m.model_year = Some(2021);
    // RAM 4/(4+8), storage 256/(256+256), graphics 2/(2+2), year 1/(1+2)
    assert_eq!(pair_score_of(&m, &l), 3_400_000 + 1_000_000 + 333_333 + 500_000 + 500_000 + 333_333);
}

#[test]
fn mean_over_several_seeds_uses_sum() {
    let s1 = laptop(1, "Acer", "A", None, None, 0);
    let s2 = laptop(2, "Dell", "B", None, None, 0);
    let c = laptop(3, "Acer", "C", None, None, 0);
    let seeds = vec![s1.clone(), s2.clone()];
    assert_eq!(total_score_of(&c, &seeds), pair_score_of(&c, &s1) + pair_score_of(&c, &s2));
    assert_eq!(total_score_of(&c, &seeds), 2_000_000 + 1_000_000);
}

#[test]
fn recommendations_capped_at_sixteen() {
    let seeds = vec![laptop(1, "Acer", "A", None, None, 0)];
    let pool: Vec<Laptop> = (0..40).map(|i| laptop(i, "Acer", "A", None, None, (i as i64) * 100_000)).collect();
    let out = responded(advance(Step::FetchCandidates(seeds), Ok(pool), &no_filter()));
    assert_eq!(out.len(), 16);
    assert_eq!(ids(&out), (0..16).collect::<Vec<i32>>());
}

#[test]
fn recommendations_respect_filter() {
    let seeds = vec![laptop(1, "Acer", "A", None, None, 0)];
    let pool = vec![laptop(2, "Acer", "A", None, None, 0), laptop(3, "Asus", "A", None, None, 0)];
    let f = FilterCriteria { brands: Some("asus".to_string()), min_price: None, max_price: None };
    let out = responded(advance(Step::FetchCandidates(seeds), Ok(pool), &f));
    assert_eq!(ids(&out), vec![3]);
}

#[test]
fn viewed_identifiers_parse_like_integers() {
    assert_eq!(parse_viewed(" 12, x, -3,+4,2147483648,,2147483647"), vec![12, -3, 4, 2147483647]);
    assert_eq!(parse_viewed(""), Vec::<i32>::new());
    assert_eq!(parse_viewed("-2147483648"), vec![i32::MIN]);
}

#[test]
fn empty_brand_term_matches_every_brand() {
    let f = FilterCriteria { brands: Some("".to_string()), min_price: None, max_price: None };
    let rows = vec![laptop(1, "Acer", "A", None, None, 0), laptop(2, "HP", "B", None, None, 0)];
    assert_eq!(ids(&keep_matching(rows, &f)), vec![1, 2]);
}
