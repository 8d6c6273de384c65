use epasal::chat::{
    conversation, decide, extract_json_from_text, reply_or_default, results_reply, role_for, search_query,
    BotCommand, BotDecision, BotFilter, BoundOp, FilterValue, SearchHit, StoredMessage, FEW_FILTERS_REPLY,
    NO_FILTERS_REPLY, NO_MATCH_REPLY, SYSTEM_PROMPT,
};
use epasal::filter::SqlParam;

fn filter(key: &str, value: FilterValue) -> BotFilter {
    BotFilter { key: key.to_string(), value }
}

fn search(filters: Option<Vec<BotFilter>>) -> Option<BotCommand> {
    Some(BotCommand { action: Some("search".to_string()), filters })
}

#[test]
fn json_object_is_cut_from_reply() {
    assert_eq!(
        extract_json_from_text("Sure! {\"action\":\"search\",\"filters\":{}} thanks").as_deref(),
        Some("{\"action\":\"search\",\"filters\":{}}")
    );
    assert_eq!(extract_json_from_text("a {x} b {y} c").as_deref(), Some("{x} b {y}"));
    assert_eq!(extract_json_from_text("} then {"), None);
    assert_eq!(extract_json_from_text("no braces"), None);
    assert_eq!(extract_json_from_text("{"), None);
    assert_eq!(extract_json_from_text("é{ü}").as_deref(), Some("{ü}"));
}

#[test]
fn conversation_maps_roles() {
    assert_eq!(role_for("bot"), "assistant");
    assert_eq!(role_for("user"), "user");
    assert_eq!(role_for("admin"), "user");
    let history = vec![
        StoredMessage { sender: "user".to_string(), content: "hi".to_string() },
        StoredMessage { sender: "bot".to_string(), content: "hello".to_string() },
    ];
    let turns = conversation(history, "need a laptop");
    assert_eq!(turns.len(), 4);
    assert_eq!(turns[0].role, "system");
    assert_eq!(turns[0].content, SYSTEM_PROMPT);
    assert_eq!(turns[2].role, "assistant");
    assert_eq!(turns[2].content, "hello");
    assert_eq!(turns[3].role, "user");
    assert_eq!(turns[3].content, "need a laptop");
}

#[test]
fn missing_model_text_gets_fallback() {
    assert_eq!(reply_or_default(Some("ok".to_string())), "ok");
    assert_eq!(reply_or_default(None), "Sorry, I didn\u{2019}t understand that.");
}

#[test]
fn search_filters_become_bound_conditions() {
    let fs = vec![
        filter("brand_name", FilterValue::Text("acer".to_string())),
        filter("ram", FilterValue::Number(Some(16))),
        filter(
            "show_price",
            FilterValue::Bounds(vec![
                BoundOp { op: "lte".to_string(), value: Some(180000) },
                BoundOp { op: "lt".to_string(), value: Some(5) },
                BoundOp { op: "gte".to_string(), value: None },
            ]),
        ),
        filter("storage", FilterValue::Text("512".to_string())),
        filter("model_year", FilterValue::Text("new".to_string())),
        filter("price; DROP TABLE laptop_details", FilterValue::Text("x".to_string())),
        filter("color", FilterValue::Number(Some(3))),
    ];
    let q = search_query(&fs);
    assert_eq!(
        q.sql,
        "SELECT id, display_name, show_price FROM laptop_details WHERE 1=1 AND brand_name ILIKE $1 AND ram = $2 \
         AND show_price <= $3 AND show_price >= $4 AND storage = $5 ORDER BY show_price ASC LIMIT 4"
    );
    assert_eq!(q.params.len(), 5);
    assert!(matches!(&q.params[0], SqlParam::Text(t) if t == "%acer%"));
    assert!(matches!(q.params[1], SqlParam::Int(16)));
    assert!(matches!(q.params[2], SqlParam::Int(180000)));
    assert!(matches!(q.params[3], SqlParam::Int(0)));
    assert!(matches!(q.params[4], SqlParam::Int(512)));
}

#[test]
fn decisions_on_model_reply() {
    let reply = || "plain answer".to_string();
    match decide(reply(), None) {
        BotDecision::Reply(b) => {
            assert_eq!(b.text, "plain answer");
            assert!(b.save);
        },
        _ => panic!("expected a reply"),
    }
    let other = Some(BotCommand { action: Some("chat".to_string()), filters: Some(vec![]) });
    assert!(matches!(decide(reply(), other), BotDecision::Reply(b) if b.text == "plain answer"));
    assert!(matches!(decide(reply(), search(None)), BotDecision::Reply(b) if b.text == NO_FILTERS_REPLY));
    let two = vec![
        filter("ram", FilterValue::Number(Some(8))),
        filter("brand_name", FilterValue::Text("hp".to_string())),
    ];
    assert!(matches!(decide(reply(), search(Some(two))), BotDecision::Reply(b) if b.text == FEW_FILTERS_REPLY));
    let three = vec![
        filter("ram", FilterValue::Number(Some(8))),
        filter("brand_name", FilterValue::Text("hp".to_string())),
        filter("storage", FilterValue::Number(Some(512))),
    ];
    match decide(reply(), search(Some(three))) {
        BotDecision::Search(q) => assert_eq!(q.params.len(), 3),
        _ => panic!("expected a search"),
    }
}

#[test]
fn search_results_become_links() {
    let none = results_reply(&vec![], "https://shop.np");
    assert_eq!(none.text, NO_MATCH_REPLY);
    assert!(!none.save);
    let hits = vec![
        SearchHit { id: 5, display_name: "HP Victus".to_string(), show_price: 150_000 },
        SearchHit { id: 12, display_name: "Acer Nitro".to_string(), show_price: 18_000_050 },
    ];
    let r = results_reply(&hits, "https://https://shop.np");
    assert!(r.save);
    assert_eq!(
        r.text,
        "Here are some laptops I found for you:\n- [HP Victus](https://shop.np/products?id=5) - NPR 1500.00\n\
         - [Acer Nitro](https://shop.np/products?id=12) - NPR 180000.50"
    );
    let r = results_reply(&hits[..1].to_vec(), "localhost:5173");
    assert_eq!(
        r.text,
        "Here are some laptops I found for you:\n- [HP Victus](https://localhost:5173/products?id=5) - NPR 1500.00"
    );
}
