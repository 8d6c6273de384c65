use epasal::account::{
    check_signup, conflict_message, login, new_temp_user, prepare_signup, temp_user_from, LoginOutcome, LoginUser,
    SignupData, SignupError,
};
use epasal::admin::{inventory_image, inventory_name, receiver_for, same_user, text_or_unknown};
use epasal::payment::{
    gateway_amount, records_sale, sold_laptop_id, status_email_body, status_url_of, verify_url_of,
};

fn form(email: &str, password: &str) -> SignupData {
    SignupData {
        name: "Sita".to_string(),
        number: "9800000000".to_string(),
        email: email.to_string(),
        password: password.to_string(),
    }
}

#[test]
fn signup_needs_email_and_password() {
    assert_eq!(check_signup(&form("a@b.np", "pw")), Ok(()));
    assert_eq!(check_signup(&form("", "pw")), Err(SignupError::MissingCredentials));
    assert_eq!(check_signup(&form("a@b.np", "")), Err(SignupError::MissingCredentials));
}

#[test]
fn conflict_messages_name_the_field() {
    assert_eq!(conflict_message("email"), "Email already exists");
    assert_eq!(conflict_message("phoneNumber"), "Phone number already exists");
    assert_eq!(conflict_message("other"), "User already exists");
}

#[test]
fn pending_signup_has_token_and_code() {
    let t = temp_user_from(form("a@b.np", "pw"), "abc", 1234);
    assert_eq!(t.temp_id, "signupabc");
    assert_eq!(t.code, "01234");
    assert_eq!(t.email, "a@b.np");
    let t = new_temp_user(form("a@b.np", "pw"));
    assert!(t.temp_id.starts_with("signup"));
    assert_eq!(t.temp_id.len(), 42);
    assert_eq!(t.code.len(), 5);
    let n: u32 = t.code.parse().unwrap();
    assert!((10000..99999).contains(&n));
}

#[test]
fn payment_amounts_and_links() {
    assert_eq!(gateway_amount(1500), Some(150_000));
    assert_eq!(gateway_amount(u32::MAX / 100 + 1), None);
    assert_eq!(verify_url_of("http://api"), "http://api/api/payment/khalti/verify");
    assert_eq!(status_url_of("http://shop"), "http://shop/payment/status");
}

#[test]
fn payment_status_rules() {
    assert_eq!(status_email_body("Completed"), "Your order is set to depart soon.");
    assert_eq!(status_email_body("User canceled"), "So sorry we could not make a deal.");
    assert_eq!(status_email_body("Pending"), "Undefined payment status.");
    assert!(records_sale("Completed"));
    assert!(!records_sale("completed"));
    assert_eq!(sold_laptop_id("42"), Some(42));
    assert_eq!(sold_laptop_id(" 42"), None);
}

#[test]
fn admin_rules() {
    assert_eq!(receiver_for(true), "bot");
    assert_eq!(receiver_for(false), "admin");
    assert!(same_user("7", "7"));
    assert!(!same_user("7", "8"));
    assert_eq!(inventory_name(&Some("Acer".to_string()), &None, Some(2023)), "Acer  2023");
    assert_eq!(inventory_name(&None, &None, None), "0");
    assert_eq!(inventory_image(Some("  ".to_string())), "");
    assert_eq!(inventory_image(Some("a.jpg".to_string())), "a.jpg");
    assert_eq!(text_or_unknown(None), "Unknown");
}


#[test]
fn hashed_password_logs_in() {
    let d = prepare_signup(form("a@b.np", "s3cret")).unwrap();
    assert_ne!(d.password, "s3cret");
    assert!(d.password.starts_with("$argon2"));
    let user = Some(LoginUser { id: 9, hashed_password: d.password.clone(), status: "user".to_string() });
    assert_eq!(login(&user, "s3cret"), LoginOutcome::Success(9));
    assert_eq!(login(&user, "wrong"), LoginOutcome::WrongPassword);
    let broken = Some(LoginUser { id: 9, hashed_password: "plain".to_string(), status: "user".to_string() });
    assert_eq!(login(&broken, "s3cret"), LoginOutcome::UnreadableHash);
    assert_eq!(login(&None, "s3cret"), LoginOutcome::NoUser);
    assert_eq!(prepare_signup(form("", "x")).unwrap_err(), SignupError::MissingCredentials);
}
