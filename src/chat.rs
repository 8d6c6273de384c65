//! The shopping assistant's rules: what the language model is sent, how a
//! search request is read from its reply, the catalog query that request
//! becomes, and the text the shopper gets back.

use vstd::prelude::*;
use crate::filter::{param_views, ParamModel, SqlParam, SqlQuery};
use crate::query::placeholder;
use crate::response::{price_text, push_price};
use crate::text::{
    chars_of, int_text, owned, parse_i64, parse_long, push_char, push_chars, push_decimal, push_int,
    push_str, same_text,
};

verus! {

/// The instructions the language model gets before the conversation.
pub const SYSTEM_PROMPT: &'static str = "You are a backend assistant for an e-commerce laptop store in Nepal. Shop name is epasal.

DO NOT generate product listings or product data.
ONLY return a JSON object like:
{
  \"action\": \"search\",
  \"filters\": {
    \"brand_name\": \"acer\",
    \"ram\": 16,
    \"graphic\": \"rtx 3050\",
    \"show_price\": { \"lte\": 180000 }
  }
}

NEVER include descriptions, prices, or recommendations yourself.
NEVER guess what laptops are available.

User filters may include:
- brand_name, model_name, model_year, display_name, product_type, suitable_for, color,
  processor_generation, processor, processor_series, ram, ram_type, storage, storage_type,
  graphic, graphic_ram, display, display_type, touchscreen, power_supply, battery, warranty,
  show_price (in NPR)

Once enough filters are collected from the user, return the JSON.
Otherwise, keep asking clarifying questions to get more filter info.

Until enough information is gathered, keep the conversation friendly and natural.";

/// The reply when the model's answer has no text.
pub const FALLBACK_REPLY: &'static str = "Sorry, I didn\u{2019}t understand that.";

/// The reply to a search request without a filter object.
pub const NO_FILTERS_REPLY: &'static str = "Could you please give me more details like your budget, RAM, storage, or use case (e.g., gaming, study, editing)?";

/// The reply to a search request with too few usable filters.
pub const FEW_FILTERS_REPLY: &'static str = "Could you please tell me a bit more, like your budget, RAM, storage, or intended use (e.g., gaming, study, editing)? This will help me suggest the best laptops for you.";

/// The reply when no product matched.
pub const NO_MATCH_REPLY: &'static str = "Sorry, no laptops matched your preferences. Would you like to try different filters?";

pub const RESULTS_HEADER: &'static str = "Here are some laptops I found for you:\n";

pub const SEARCH_SELECT: &'static str = "SELECT id, display_name, show_price FROM laptop_details WHERE 1=1";

/// The four cheapest matches.
pub const SEARCH_ORDER: &'static str = " ORDER BY show_price ASC LIMIT 4";

/// A search runs only with more than this many bound values.
pub const MIN_SEARCH_ARGS: usize = 2;

// ---------------------------------------------------------------------------
// The JSON object inside the model's reply

/// `i` is the first position of `c` in `s`.
pub open spec fn is_first(s: Seq<char>, c: char, i: int) -> bool {
    0 <= i < s.len() && s[i] == c && forall|j: int| 0 <= j < i ==> s[j] != c
}

/// `i` is the last position of `c` in `s`.
pub open spec fn is_last(s: Seq<char>, c: char, i: int) -> bool {
    0 <= i < s.len() && s[i] == c && forall|j: int| i < j < s.len() ==> s[j] != c
}

/// The text from the first `{` to the last `}`, when the first comes before
/// the last.
pub open spec fn has_json_span(s: Seq<char>, a: int, b: int) -> bool {
    is_first(s, '{', a) && is_last(s, '}', b) && a < b
}

fn first_position(s: &Vec<char>, c: char) -> (r: Option<usize>)
    ensures
        r matches Some(i) ==> is_first(s@, c, i as int),
        r is None ==> forall|j: int| 0 <= j < s@.len() ==> s@[j] != c,
{
    let mut i: usize = 0;
    while i < s.len()
        invariant
            i <= s@.len(),
            forall|j: int| 0 <= j < i ==> s@[j] != c,
        decreases s@.len() - i,
    {
        if s[i] == c {
            return Some(i);
        }
        i = i + 1;
    }
    None
}

fn last_position(s: &Vec<char>, c: char) -> (r: Option<usize>)
    ensures
        r matches Some(i) ==> is_last(s@, c, i as int),
        r is None ==> forall|j: int| 0 <= j < s@.len() ==> s@[j] != c,
{
    let mut i: usize = s.len();
    while i > 0
        invariant
            i <= s@.len(),
            forall|j: int| i <= j < s@.len() ==> s@[j] != c,
        decreases i,
    {
        if s[i - 1] == c {
            return Some(i - 1);
        }
        i = i - 1;
    }
    None
}

/// The JSON object candidate of a reply: from its first `{` to its last `}`.
pub fn extract_json_from_text(text: &str) -> (r: Option<String>)
    ensures
        r is Some <==> exists|a: int, b: int| has_json_span(text@, a, b),
        forall|a: int, b: int|
            has_json_span(text@, a, b) ==> (r matches Some(j) && j@ == text@.subrange(a, b + 1)),
{
    let cs = chars_of(text);
    let start = first_position(&cs, '{');
    let end = last_position(&cs, '}');
    match (start, end) {
        (Some(a), Some(b)) => {
            if a < b {
                let mut j = String::new();
                let n = cs.len();
                let mut k: usize = a;
                while k <= b
                    invariant
                        a <= k <= b + 1,
                        b < n == cs@.len(),
                        j@ == cs@.subrange(a as int, k as int),
                    decreases b + 1 - k,
                {
                    push_char(&mut j, cs[k]);
                    k = k + 1;
                    assert(j@ =~= cs@.subrange(a as int, k as int));
                }
                assert forall|x: int, y: int| has_json_span(text@, x, y) implies x == a && y == b by {
                    if x < a as int {
                        assert(cs@[x] == '{');
                    }
                    if (a as int) < x {
                        assert(cs@[a as int] == '{');
                    }
                    if y < b as int {
                        assert(cs@[b as int] == '}');
                    }
                    if (b as int) < y {
                        assert(cs@[y] == '}');
                    }
                }
                assert(has_json_span(text@, a as int, b as int));
                Some(j)
            } else {
                assert forall|x: int, y: int| !has_json_span(text@, x, y) by {
                    if has_json_span(text@, x, y) {
                        if x != a as int {
                            if x < a as int { assert(cs@[x] == '{'); } else { assert(cs@[a as int] == '{'); }
                        }
                        if y != b as int {
                            if y < b as int { assert(cs@[b as int] == '}'); } else { assert(cs@[y] == '}'); }
                        }
                    }
                }
                None
            }
        },
        _ => {
            assert forall|x: int, y: int| !has_json_span(text@, x, y) by {
                if has_json_span(text@, x, y) {
                    assert(cs@[x] == '{');
                    assert(cs@[y] == '}');
                }
            }
            None
        },
    }
}

// ---------------------------------------------------------------------------
// The conversation sent to the model

/// A message of the stored conversation.
#[derive(Clone, Debug)]
pub struct StoredMessage {
    pub sender: String,
    pub content: String,
}

/// A message as the chat model takes it.
#[derive(Clone, Debug)]
pub struct ChatTurn {
    pub role: String,
    pub content: String,
}

/// Messages of the bot are the assistant's; all others are the user's.
pub open spec fn role_of(sender: Seq<char>) -> Seq<char> {
    if sender == "bot"@ {
        "assistant"@
    } else {
        "user"@
    }
}

pub fn role_for(sender: &str) -> (r: String)
    ensures
        r@ == role_of(sender@),
{
    if same_text(sender, "bot") {
        owned("assistant")
    } else {
        owned("user")
    }
}

/// The messages for the model: the instructions, the stored conversation
/// with each sender's role, and the new message of the user.
pub fn conversation(history: Vec<StoredMessage>, user_message: &str) -> (r: Vec<ChatTurn>)
    ensures
        r@.len() == history@.len() + 2,
        r@[0].role@ == "system"@ && r@[0].content@ == SYSTEM_PROMPT@,
        forall|i: int| 0 <= i < history@.len() ==> (#[trigger] r@[i + 1]).role@ == role_of(
            history@[i].sender@,
        ) && r@[i + 1].content == history@[i].content,
        r@[r@.len() - 1].role@ == "user"@ && r@[r@.len() - 1].content@ == user_message@,
{
    let mut r: Vec<ChatTurn> = Vec::new();
    r.push(ChatTurn { role: owned("system"), content: owned(SYSTEM_PROMPT) });
    let mut i: usize = 0;
    let ghost h = history@;
    let mut history = history;
    while i < history.len()
        invariant
            i <= history@.len(),
            history@.len() == h.len(),
            forall|k: int| i <= k < h.len() ==> history@[k] == h[k],
            r@.len() == i + 1,
            r@[0].role@ == "system"@ && r@[0].content@ == SYSTEM_PROMPT@,
            forall|k: int| 0 <= k < i ==> (#[trigger] r@[k + 1]).role@ == role_of(h[k].sender@)
                && r@[k + 1].content == h[k].content,
        decreases history@.len() - i,
    {
        let role = role_for(history[i].sender.as_str());
        let content = history[i].content.clone();
        r.push(ChatTurn { role, content });
        i = i + 1;
    }
    r.push(ChatTurn { role: owned("user"), content: owned(user_message) });
    r
}

/// The model's text, or the fallback reply when it gave none.
pub fn reply_or_default(content: Option<String>) -> (r: String)
    ensures
        r@ == (match content {
            Some(c) => c@,
            None => FALLBACK_REPLY@,
        }),
{
    match content {
        Some(c) => c,
        None => owned(FALLBACK_REPLY),
    }
}

// ---------------------------------------------------------------------------
// The search request in the model's reply

/// A bound on a numeric column: `lte`, `gte` or `eq`, and its value when it
/// is an integer.
#[derive(Clone, Debug)]
pub struct BoundOp {
    pub op: String,
    pub value: Option<i64>,
}

/// The value of one filter of a search request.
#[derive(Clone, Debug)]
pub enum FilterValue {
    /// An object of bounds, in its key order.
    Bounds(Vec<BoundOp>),
    /// A number, when it is an integer.
    Number(Option<i64>),
    Text(String),
    /// Anything else.
    Other,
}

/// One filter of a search request: a column and its value.
#[derive(Clone, Debug)]
pub struct BotFilter {
    pub key: String,
    pub value: FilterValue,
}

/// What the model's JSON object holds: its `action` when that is a text,
/// and its `filters` when that is an object.
#[derive(Clone, Debug)]
pub struct BotCommand {
    pub action: Option<String>,
    pub filters: Option<Vec<BotFilter>>,
}

pub struct BoundModel {
    pub op: Seq<char>,
    pub value: Option<i64>,
}

pub enum ValueModel {
    Bounds(Seq<BoundModel>),
    Number(Option<i64>),
    Text(Seq<char>),
    Other,
}

pub struct FilterModel {
    pub key: Seq<char>,
    pub value: ValueModel,
}

pub open spec fn bound_model(b: BoundOp) -> BoundModel {
    BoundModel { op: b.op@, value: b.value }
}

pub open spec fn filter_model(f: BotFilter) -> FilterModel {
    FilterModel {
        key: f.key@,
        value: match f.value {
            FilterValue::Bounds(ops) => ValueModel::Bounds(ops@.map_values(|b: BoundOp| bound_model(b))),
            FilterValue::Number(n) => ValueModel::Number(n),
            FilterValue::Text(t) => ValueModel::Text(t@),
            FilterValue::Other => ValueModel::Other,
        },
    }
}

pub open spec fn filter_models(fs: Seq<BotFilter>) -> Seq<FilterModel> {
    fs.map_values(|f: BotFilter| filter_model(f))
}

/// The columns compared as numbers.
pub open spec fn is_numeric_column(k: Seq<char>) -> bool {
    k == "ram"@ || k == "graphic_ram"@ || k == "show_price"@ || k == "model_year"@ || k
        == "storage"@
}

/// The columns a search may name: the filters the model is told of. Any
/// other key is ignored, so that no text of the reply enters the query.
pub open spec fn is_searchable_column(k: Seq<char>) -> bool {
    is_numeric_column(k) || k == "brand_name"@ || k == "model_name"@ || k == "display_name"@
        || k == "product_type"@ || k == "suitable_for"@ || k == "color"@ || k
        == "processor_generation"@ || k == "processor"@ || k == "processor_series"@ || k
        == "ram_type"@ || k == "storage_type"@ || k == "graphic"@ || k == "display"@ || k
        == "display_type"@ || k == "touchscreen"@ || k == "power_supply"@ || k == "battery"@
        || k == "warranty"@
}

/// The comparison of a bound, when it is one of `lte`, `gte`, `eq`.
pub open spec fn op_symbol(op: Seq<char>) -> Option<Seq<char>> {
    if op == "lte"@ {
        Some(" <= "@)
    } else if op == "gte"@ {
        Some(" >= "@)
    } else if op == "eq"@ {
        Some(" = "@)
    } else {
        None
    }
}

/// ` AND <key><cmp>$k`
pub open spec fn condition(key: Seq<char>, cmp: Seq<char>, k: nat) -> Seq<char> {
    " AND "@ + key + cmp + placeholder(k)
}

pub struct Clauses {
    pub sql: Seq<char>,
    pub args: Seq<ParamModel>,
}

pub open spec fn no_clauses() -> Clauses {
    Clauses { sql: Seq::empty(), args: Seq::empty() }
}

/// The conditions of the bounds on `key`, whose placeholders are numbered
/// from `first`. Unknown comparisons are skipped; a missing value is 0.
pub open spec fn bound_clauses(key: Seq<char>, ops: Seq<BoundModel>, first: nat) -> Clauses
    decreases ops.len(),
{
    if ops.len() == 0 {
        no_clauses()
    } else {
        let prev = bound_clauses(key, ops.drop_last(), first);
        match op_symbol(ops.last().op) {
            Some(cmp) => Clauses {
                sql: prev.sql + condition(key, cmp, first + prev.args.len()),
                args: prev.args.push(ParamModel::Int(ops.last().value.unwrap_or(0) as int)),
            },
            None => prev,
        }
    }
}

/// The conditions of one filter, with placeholders numbered from `first`:
/// bounds, numbers and integer texts on numeric columns; a case-insensitive
/// substring on the other columns; nothing for anything else.
pub open spec fn filter_clauses(f: FilterModel, first: nat) -> Clauses {
    if !is_searchable_column(f.key) {
        no_clauses()
    } else if is_numeric_column(f.key) {
        match f.value {
            ValueModel::Bounds(ops) => bound_clauses(f.key, ops, first),
            ValueModel::Number(n) => Clauses {
                sql: condition(f.key, " = "@, first),
                args: seq![ParamModel::Int(n.unwrap_or(0) as int)],
            },
            ValueModel::Text(t) => match parse_i64(t) {
                Some(v) => Clauses {
                    sql: condition(f.key, " = "@, first),
                    args: seq![ParamModel::Int(v as int)],
                },
                None => no_clauses(),
            },
            ValueModel::Other => no_clauses(),
        }
    } else {
        match f.value {
            ValueModel::Text(t) => Clauses {
                sql: condition(f.key, " ILIKE "@, first),
                args: seq![ParamModel::Text(seq!['%'] + t + seq!['%'])],
            },
            _ => no_clauses(),
        }
    }
}

/// The conditions of all filters, in order.
pub open spec fn search_clauses(fs: Seq<FilterModel>) -> Clauses
    decreases fs.len(),
{
    if fs.len() == 0 {
        no_clauses()
    } else {
        let prev = search_clauses(fs.drop_last());
        let last = filter_clauses(fs.last(), prev.args.len() + 1);
        Clauses { sql: prev.sql + last.sql, args: prev.args + last.args }
    }
}

pub open spec fn search_sql(fs: Seq<FilterModel>) -> Seq<char> {
    SEARCH_SELECT@ + search_clauses(fs).sql + SEARCH_ORDER@
}

fn push_condition(sql: &mut String, key: &str, cmp: &str, k: u128)
    ensures
        final(sql)@ == old(sql)@ + condition(key@, cmp@, k as nat),
{
    push_str(sql, " AND ");
    push_str(sql, key);
    push_str(sql, cmp);
    push_char(sql, '$');
    push_decimal(sql, k);
    assert(final(sql)@ =~= old(sql)@ + condition(key@, cmp@, k as nat));
}

fn comparison_of(op: &str) -> (r: Option<String>)
    ensures
        r matches Some(c) ==> op_symbol(op@) == Some(c@),
        r is None ==> op_symbol(op@) is None,
{
    if same_text(op, "lte") {
        Some(owned(" <= "))
    } else if same_text(op, "gte") {
        Some(owned(" >= "))
    } else if same_text(op, "eq") {
        Some(owned(" = "))
    } else {
        None
    }
}

pub fn is_numeric_key(k: &str) -> (r: bool)
    ensures
        r == is_numeric_column(k@),
{
    same_text(k, "ram") || same_text(k, "graphic_ram") || same_text(k, "show_price")
        || same_text(k, "model_year") || same_text(k, "storage")
}

pub fn is_searchable_key(k: &str) -> (r: bool)
    ensures
        r == is_searchable_column(k@),
{
    is_numeric_key(k) || same_text(k, "brand_name") || same_text(k, "model_name") || same_text(
        k,
        "display_name",
    ) || same_text(k, "product_type") || same_text(k, "suitable_for") || same_text(k, "color")
        || same_text(k, "processor_generation") || same_text(k, "processor") || same_text(
        k,
        "processor_series",
    ) || same_text(k, "ram_type") || same_text(k, "storage_type") || same_text(k, "graphic")
        || same_text(k, "display") || same_text(k, "display_type") || same_text(k, "touchscreen")
        || same_text(k, "power_supply") || same_text(k, "battery") || same_text(k, "warranty")
}

fn push_bounds(sql: &mut String, args: &mut Vec<SqlParam>, key: &str, ops: &Vec<BoundOp>)
    requires
        old(args)@.len() < 0x1_0000_0000_0000_0000,
    ensures
        final(sql)@ == old(sql)@ + bound_clauses(key@, ops@.map_values(|b: BoundOp| bound_model(b)), (old(args)@.len() + 1) as nat).sql,
        param_views(final(args)@) == param_views(old(args)@) + bound_clauses(key@, ops@.map_values(|b: BoundOp| bound_model(b)), (old(args)@.len() + 1) as nat).args,
{
    let ghost first = (old(args)@.len() + 1) as nat;
    let ghost models = ops@.map_values(|b: BoundOp| bound_model(b));
    let ghost sql0 = sql@;
    let ghost args0 = param_views(args@);
    let mut i: usize = 0;
    assert(models.subrange(0, 0) =~= Seq::<BoundModel>::empty());
    while i < ops.len()
        invariant
            i <= ops@.len(),
            models == ops@.map_values(|b: BoundOp| bound_model(b)),
            first == args0.len() + 1,
            first < 0x1_0000_0000_0000_0001,
            sql@ == sql0 + bound_clauses(key@, models.subrange(0, i as int), first).sql,
            param_views(args@) == args0 + bound_clauses(key@, models.subrange(0, i as int), first).args,
            bound_clauses(key@, models.subrange(0, i as int), first).args.len() <= i,
        decreases ops@.len() - i,
    {
        let ghost pre = models.subrange(0, i as int);
        let ghost next = models.subrange(0, i + 1);
        assert(next.drop_last() =~= pre);
        assert(next.last() == bound_model(ops@[i as int]));
        let ghost prev = bound_clauses(key@, pre, first);
        match comparison_of(ops[i].op.as_str()) {
            Some(cmp) => {
                let k: u128 = args.len() as u128 + 1;
                assert(param_views(args@).len() == args@.len());
                push_condition(sql, key, cmp.as_str(), k);
                let v: i64 = match ops[i].value {
                    Some(v) => v,
                    None => 0,
                };
                let ghost old_args = args@;
                args.push(SqlParam::Int(v));
                assert(param_views(args@) =~= param_views(old_args).push(ParamModel::Int(v as int)));
            },
            None => {},
        }
        i = i + 1;
    }
    assert(models.subrange(0, i as int) =~= models);
}

fn push_filter(sql: &mut String, args: &mut Vec<SqlParam>, f: &BotFilter)
    requires
        old(args)@.len() < 0x1_0000_0000_0000_0000,
    ensures
        final(sql)@ == old(sql)@ + filter_clauses(filter_model(*f), (old(args)@.len() + 1) as nat).sql,
        param_views(final(args)@) == param_views(old(args)@) + filter_clauses(filter_model(*f), (old(args)@.len() + 1) as nat).args,
{
    let ghost first = (old(args)@.len() + 1) as nat;
    let ghost m = filter_model(*f);
    let k: u128 = args.len() as u128 + 1;
    let key = f.key.as_str();
    if !is_searchable_key(key) {
        assert(param_views(args@) =~= param_views(old(args)@) + Seq::<ParamModel>::empty());
        assert(sql@ =~= old(sql)@ + Seq::<char>::empty());
        return;
    }
    let ghost old_args = args@;
    if is_numeric_key(key) {
        match &f.value {
            FilterValue::Bounds(ops) => {
                push_bounds(sql, args, key, ops);
            },
            FilterValue::Number(n) => {
                push_condition(sql, key, " = ", k);
                let v: i64 = match n {
                    Some(v) => *v,
                    None => 0,
                };
                args.push(SqlParam::Int(v));
                assert(param_views(args@) =~= param_views(old_args) + seq![ParamModel::Int(v as int)]);
            },
            FilterValue::Text(t) => {
                let cs = chars_of(t.as_str());
                match parse_long(&cs) {
                    Some(v) => {
                        push_condition(sql, key, " = ", k);
                        args.push(SqlParam::Int(v));
                        assert(param_views(args@) =~= param_views(old_args) + seq![ParamModel::Int(v as int)]);
                    },
                    None => {
                        assert(param_views(args@) =~= param_views(old_args) + Seq::<ParamModel>::empty());
                        assert(sql@ =~= old(sql)@ + Seq::<char>::empty());
                    },
                }
            },
            FilterValue::Other => {
                assert(param_views(args@) =~= param_views(old_args) + Seq::<ParamModel>::empty());
                assert(sql@ =~= old(sql)@ + Seq::<char>::empty());
            },
        }
    } else {
        match &f.value {
            FilterValue::Text(t) => {
                push_condition(sql, key, " ILIKE ", k);
                let mut p = String::new();
                push_char(&mut p, '%');
                push_str(&mut p, t.as_str());
                push_char(&mut p, '%');
                let ghost pv = p@;
                args.push(SqlParam::Text(p));
                assert(pv =~= seq!['%'] + t@ + seq!['%']);
                assert(param_views(args@) =~= param_views(old_args) + seq![ParamModel::Text(pv)]);
            },
            _ => {
                assert(param_views(args@) =~= param_views(old_args) + Seq::<ParamModel>::empty());
                assert(sql@ =~= old(sql)@ + Seq::<char>::empty());
            },
        }
    }
}

/// The catalog query of a search request.
pub fn search_query(fs: &Vec<BotFilter>) -> (q: SqlQuery)
    ensures
        q.sql@ == search_sql(filter_models(fs@)),
        param_views(q.params@) == search_clauses(filter_models(fs@)).args,
{
    let ghost models = filter_models(fs@);
    let mut sql = String::new();
    push_str(&mut sql, SEARCH_SELECT);
    let ghost sql0 = sql@;
    let mut args: Vec<SqlParam> = Vec::new();
    let mut i: usize = 0;
    assert(models.subrange(0, 0) =~= Seq::<FilterModel>::empty());
    assert(param_views(args@) =~= Seq::<ParamModel>::empty());
    while i < fs.len()
        invariant
            i <= fs@.len(),
            models == filter_models(fs@),
            sql@ == sql0 + search_clauses(models.subrange(0, i as int)).sql,
            param_views(args@) == search_clauses(models.subrange(0, i as int)).args,
        decreases fs@.len() - i,
    {
        let ghost pre = models.subrange(0, i as int);
        let ghost next = models.subrange(0, i + 1);
        assert(next.drop_last() =~= pre);
        assert(next.last() == filter_model(fs@[i as int]));
        assert(param_views(args@).len() == args@.len());
        let _count = args.len();
        push_filter(&mut sql, &mut args, &fs[i]);
        i = i + 1;
    }
    assert(models.subrange(0, i as int) =~= models);
    push_str(&mut sql, SEARCH_ORDER);
    assert(sql@ =~= search_sql(models));
    SqlQuery { sql, params: args }
}

// ---------------------------------------------------------------------------
// What the shopper gets back

/// A reply of the assistant, and whether it is stored in the conversation.
#[derive(Clone, Debug)]
pub struct BotReply {
    pub text: String,
    pub save: bool,
}

/// What to do with the model's reply.
#[derive(Clone, Debug)]
pub enum BotDecision {
    /// Answer with this text.
    Reply(BotReply),
    /// Run this catalog search and answer with its results.
    Search(SqlQuery),
}

pub open spec fn is_search(c: BotCommand) -> bool {
    c.action matches Some(a) && a@ == "search"@
}

/// Decides on the model's reply `reply`, given what its JSON object holds
/// (`None`: it holds no JSON object). A search request without filters, or
/// with no more than two usable values, asks for more details; any other
/// reply is passed on.
pub fn decide(reply: String, command: Option<BotCommand>) -> (r: BotDecision)
    ensures
        match command {
            Some(c) if is_search(c) => match c.filters {
                None => r matches BotDecision::Reply(b) && b.text@ == NO_FILTERS_REPLY@ && b.save,
                Some(fs) => if search_clauses(filter_models(fs@)).args.len() <= MIN_SEARCH_ARGS {
                    r matches BotDecision::Reply(b) && b.text@ == FEW_FILTERS_REPLY@ && b.save
                } else {
                    r matches BotDecision::Search(q) && q.sql@ == search_sql(filter_models(fs@))
                        && param_views(q.params@) == search_clauses(filter_models(fs@)).args
                },
            },
            _ => r matches BotDecision::Reply(b) && b.text == reply && b.save,
        },
{
    match command {
        Some(c) => {
            let searching = match &c.action {
                Some(a) => same_text(a.as_str(), "search"),
                None => false,
            };
            if !searching {
                return BotDecision::Reply(BotReply { text: reply, save: true });
            }
            match c.filters {
                None => BotDecision::Reply(BotReply { text: owned(NO_FILTERS_REPLY), save: true }),
                Some(fs) => {
                    let q = search_query(&fs);
                    assert(param_views(q.params@).len() == q.params@.len());
                    if q.params.len() <= MIN_SEARCH_ARGS {
                        BotDecision::Reply(BotReply { text: owned(FEW_FILTERS_REPLY), save: true })
                    } else {
                        BotDecision::Search(q)
                    }
                },
            }
        },
        None => BotDecision::Reply(BotReply { text: reply, save: true }),
    }
}

/// A product found by a search; its price is in hundredths.
#[derive(Clone, Debug)]
pub struct SearchHit {
    pub id: i32,
    pub display_name: String,
    pub show_price: i64,
}

pub open spec fn scheme() -> Seq<char> {
    seq!['h', 't', 't', 'p', 's', ':', '/', '/']
}

/// `s` without every leading `https://`, as `str::trim_start_matches` removes them.
pub open spec fn strip_scheme(s: Seq<char>) -> Seq<char>
    decreases s.len(),
{
    if s.len() >= 8 && s.subrange(0, 8) == scheme() {
        strip_scheme(s.subrange(8, s.len() as int))
    } else {
        s
    }
}

/// `- [name](https://host/products?id=ID) - NPR price`
pub open spec fn hit_line(h: SearchHit, host: Seq<char>) -> Seq<char> {
    "- ["@ + h.display_name@ + "](https://"@ + host + "/products?id="@ + int_text(h.id as int)
        + ") - NPR "@ + price_text(h.show_price as int)
}

/// The lines of the hits, separated by line breaks.
pub open spec fn hit_lines(hs: Seq<SearchHit>, host: Seq<char>) -> Seq<char>
    decreases hs.len(),
{
    if hs.len() == 0 {
        Seq::empty()
    } else if hs.len() == 1 {
        hit_line(hs[0], host)
    } else {
        hit_lines(hs.drop_last(), host) + seq!['\n'] + hit_line(hs.last(), host)
    }
}

fn strip_scheme_chars(s: &Vec<char>) -> (r: Vec<char>)
    ensures
        r@ == strip_scheme(s@),
{
    let n = s.len();
    let mut i: usize = 0;
    assert(s@.subrange(0, n as int) =~= s@);
    while n - i >= 8 && s[i] == 'h' && s[i + 1] == 't' && s[i + 2] == 't' && s[i + 3] == 'p' && s[i
        + 4] == 's' && s[i + 5] == ':' && s[i + 6] == '/' && s[i + 7] == '/'
        invariant
            i <= n == s@.len(),
            strip_scheme(s@) == strip_scheme(s@.subrange(i as int, n as int)),
        decreases n - i,
    {
        let ghost rest = s@.subrange(i as int, n as int);
        assert(rest.subrange(0, 8) =~= scheme());
        assert(rest.subrange(8, rest.len() as int) =~= s@.subrange(i + 8, n as int));
        i = i + 8;
    }
    proof {
        let rest = s@.subrange(i as int, n as int);
        if rest.len() >= 8 && rest.subrange(0, 8) == scheme() {
            assert(rest.subrange(0, 8)[0] == 'h');
            assert(rest.subrange(0, 8)[7] == '/');
            assert(rest[0] == 'h' && rest[1] == 't' && rest[2] == 't' && rest[3] == 'p');
            assert(rest[4] == 's' && rest[5] == ':' && rest[6] == '/' && rest[7] == '/');
        }
        assert(strip_scheme(rest) == rest);
    }
    let mut r: Vec<char> = Vec::new();
    let mut k: usize = i;
    while k < n
        invariant
            i <= k <= n == s@.len(),
            r@ == s@.subrange(i as int, k as int),
        decreases n - k,
    {
        r.push(s[k]);
        k = k + 1;
        assert(r@ =~= s@.subrange(i as int, k as int));
    }
    r
}

fn push_hit(out: &mut String, h: &SearchHit, host: &Vec<char>)
    ensures
        final(out)@ == old(out)@ + hit_line(*h, host@),
{
    push_str(out, "- [");
    push_str(out, h.display_name.as_str());
    push_str(out, "](https://");
    push_chars(out, host);
    push_str(out, "/products?id=");
    push_int(out, h.id as i64);
    push_str(out, ") - NPR ");
    push_price(out, h.show_price);
    assert(final(out)@ =~= old(out)@ + hit_line(*h, host@));
}

/// The answer to a search: the found products as links on the shop at
/// `base_url`, or an apology, which is not stored, when none was found.
pub fn results_reply(hits: &Vec<SearchHit>, base_url: &str) -> (r: BotReply)
    ensures
        hits@.len() == 0 ==> r.text@ == NO_MATCH_REPLY@ && !r.save,
        hits@.len() > 0 ==> r.text@ == RESULTS_HEADER@ + hit_lines(hits@, strip_scheme(base_url@))
            && r.save,
{
    if hits.len() == 0 {
        return BotReply { text: owned(NO_MATCH_REPLY), save: false };
    }
    let host = strip_scheme_chars(&chars_of(base_url));
    let mut text = owned(RESULTS_HEADER);
    let ghost start = text@;
    let mut i: usize = 0;
    while i < hits.len()
        invariant
            i <= hits@.len(),
            host@ == strip_scheme(base_url@),
            text@ == start + hit_lines(hits@.subrange(0, i as int), host@),
        decreases hits@.len() - i,
    {
        let ghost pre = hits@.subrange(0, i as int);
        let ghost next = hits@.subrange(0, i + 1);
        assert(next.drop_last() =~= pre);
        if i > 0 {
            push_char(&mut text, '\n');
        } else {
            assert(pre =~= Seq::<SearchHit>::empty());
        }
        push_hit(&mut text, &hits[i], &host);
        if i == 0 {
            assert(next =~= seq![hits@[0]]);
            assert(text@ =~= start + hit_lines(next, host@));
        } else {
            assert(text@ =~= start + hit_lines(next, host@));
        }
        i = i + 1;
    }
    assert(hits@.subrange(0, i as int) =~= hits@);
    BotReply { text, save: true }
}

} // verus!
