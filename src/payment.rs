//! Payment records and the rules of the payment endpoints.

use vstd::prelude::*;
use crate::text::{chars_of, owned, parse_i32, parse_int, push_str, same_text};

verus! {

/// The buyer's contact details.
#[derive(Clone, Debug)]
pub struct CustomerInfo {
    pub name: String,
    pub email: String,
    pub phone: String,
}

/// A request to start a payment for one product; the price is in whole
/// currency units.
#[derive(Clone, Debug)]
pub struct InitiatePaymentRequest {
    pub product_id: String,
    pub product_name: String,
    pub price: u32,
    pub customer_info: CustomerInfo,
}

/// A lookup of a payment by the gateway's payment identifier.
#[derive(Clone, Debug)]
pub struct VerifyQuery {
    pub pidx: String,
}

/// The outcome the shop front reports for a payment.
#[derive(Clone, Debug)]
pub struct VerifyPaymentRequest {
    pub pidx: String,
    pub status: String,
}

/// The gateway takes amounts in hundredths: the price times 100, when that
/// fits in a `u32`.
pub fn gateway_amount(price: u32) -> (r: Option<u32>)
    ensures
        r matches Some(a) ==> a == price * 100,
        r is None <==> price * 100 > u32::MAX,
{
    price.checked_mul(100)
}

pub open spec fn verify_url(backend: Seq<char>) -> Seq<char> {
    backend + "/api/payment/khalti/verify"@
}

pub open spec fn status_url(base: Seq<char>) -> Seq<char> {
    base + "/payment/status"@
}

/// The verification address on the backend.
pub fn verify_url_of(backend: &str) -> (r: String)
    ensures
        r@ == verify_url(backend@),
{
    let mut r = owned(backend);
    push_str(&mut r, "/api/payment/khalti/verify");
    r
}

/// The status page of the shop front.
pub fn status_url_of(base: &str) -> (r: String)
    ensures
        r@ == status_url(base@),
{
    let mut r = owned(base);
    push_str(&mut r, "/payment/status");
    r
}

pub open spec fn is_completed(status: Seq<char>) -> bool {
    status == "Completed"@
}

/// The e-mail text for a payment status.
pub open spec fn status_body(status: Seq<char>) -> Seq<char> {
    if is_completed(status) {
        "Your order is set to depart soon."@
    } else if status == "User canceled"@ {
        "So sorry we could not make a deal."@
    } else {
        "Undefined payment status."@
    }
}

pub fn status_email_body(status: &str) -> (r: String)
    ensures
        r@ == status_body(status@),
{
    if same_text(status, "Completed") {
        owned("Your order is set to depart soon.")
    } else if same_text(status, "User canceled") {
        owned("So sorry we could not make a deal.")
    } else {
        owned("Undefined payment status.")
    }
}

/// A sale is recorded only for a completed payment.
pub fn records_sale(status: &str) -> (r: bool)
    ensures
        r == is_completed(status@),
{
    same_text(status, "Completed")
}

/// The product of a stored payment, when its identifier text is an `i32`.
pub fn sold_laptop_id(text: &str) -> (r: Option<i32>)
    ensures
        r == parse_i32(text@),
{
    parse_int(&chars_of(text))
}

} // verus!
