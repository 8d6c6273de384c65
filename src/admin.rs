//! Rules of the administration and messaging endpoints.

use vstd::prelude::*;
use crate::text::{chars_of, int_text, owned, push_int, push_str, same_text, trim_chars, trimmed, string_of};

verus! {

/// A message posted for a user goes to the bot when the bot answers that
/// user, else to the administrator.
pub open spec fn receiver_of(bot_enabled: bool) -> Seq<char> {
    if bot_enabled { "bot"@ } else { "admin"@ }
}

pub fn receiver_for(bot_enabled: bool) -> (r: String)
    ensures
        r@ == receiver_of(bot_enabled),
{
    if bot_enabled { owned("bot") } else { owned("admin") }
}

/// An administrator's message is accepted only when the user in the path
/// is the user in the message.
pub fn same_user(path_user: &str, body_user: &str) -> (r: bool)
    ensures
        r == (path_user@ == body_user@),
{
    same_text(path_user, body_user)
}

/// `brand model year` of an inventory row, absent parts written as empty
/// text (and the year as 0), without surrounding white space.
pub open spec fn inventory_name_of(brand: Option<String>, model: Option<String>, year: Option<i32>) -> Seq<char> {
    let b = match brand { Some(s) => s@, None => Seq::empty() };
    let m = match model { Some(s) => s@, None => Seq::empty() };
    let y = match year { Some(v) => v as int, None => 0 };
    trimmed(b + seq![' '] + m + seq![' '] + int_text(y))
}

pub fn inventory_name(brand: &Option<String>, model: &Option<String>, year: Option<i32>) -> (r: String)
    ensures
        r@ == inventory_name_of(*brand, *model, year),
{
    let mut s = String::new();
    match brand {
        Some(b) => push_str(&mut s, b.as_str()),
        None => {},
    }
    crate::text::push_char(&mut s, ' ');
    match model {
        Some(m) => push_str(&mut s, m.as_str()),
        None => {},
    }
    crate::text::push_char(&mut s, ' ');
    let y: i64 = match year {
        Some(v) => v as i64,
        None => 0,
    };
    push_int(&mut s, y);
    let ghost full = s@;
    assert(full =~= (match *brand { Some(x) => x@, None => Seq::<char>::empty() }) + seq![' '] + (
    match *model { Some(x) => x@, None => Seq::<char>::empty() }) + seq![' '] + int_text(y as int));
    string_of(&trim_chars(&chars_of(s.as_str())))
}

/// The image of an inventory row: empty when missing or blank.
pub open spec fn inventory_image_of(url: Option<String>) -> Seq<char> {
    match url {
        Some(u) => if trimmed(u@).len() > 0 { u@ } else { Seq::empty() },
        None => Seq::empty(),
    }
}

pub fn inventory_image(url: Option<String>) -> (r: String)
    ensures
        r@ == inventory_image_of(url),
{
    match url {
        Some(u) => {
            let t = trim_chars(&chars_of(u.as_str()));
            if t.len() > 0 {
                u
            } else {
                String::new()
            }
        },
        None => String::new(),
    }
}

/// A text that may be absent, or `Unknown`.
pub open spec fn or_unknown(t: Option<String>) -> Seq<char> {
    match t {
        Some(s) => s@,
        None => "Unknown"@,
    }
}

pub fn text_or_unknown(t: Option<String>) -> (r: String)
    ensures
        r@ == or_unknown(t),
{
    match t {
        Some(s) => s,
        None => owned("Unknown"),
    }
}

} // verus!
