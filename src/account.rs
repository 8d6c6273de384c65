//! Sign-up and log-in records, and the rules the account endpoints apply.

use vstd::prelude::*;
use crate::text::{decimal, owned, push_decimal, push_str, same_text};

verus! {

/// A stored account as log-in reads it.
#[derive(Clone, Debug)]
pub struct LoginUser {
    pub id: i32,
    pub hashed_password: String,
    pub status: String,
}

/// A sign-up form.
#[derive(Clone, Debug)]
pub struct SignupData {
    pub name: String,
    pub number: String,
    pub email: String,
    pub password: String,
}

/// A sign-up waiting for its one-time code to be confirmed.
#[derive(Clone, Debug)]
pub struct TempUser {
    pub temp_id: String,
    pub name: String,
    pub number: String,
    pub email: String,
    pub password: String,
    pub code: String,
}

/// A log-in form.
#[derive(Clone, Debug)]
pub struct LoginRequest {
    pub gmail: String,
    pub password: String,
}

/// A confirmation of a pending sign-up.
#[derive(Clone, Debug)]
pub struct VerifyRequest {
    pub temp_id: String,
}

/// Why a sign-up form is refused before anything is stored.
#[derive(Clone, Copy, Debug, PartialEq, Eq)]
pub enum SignupError {
    /// The e-mail address or the password is empty.
    MissingCredentials,
    /// The password could not be hashed.
    Hashing,
}

/// A sign-up needs an e-mail address and a password.
pub fn check_signup(data: &SignupData) -> (r: Result<(), SignupError>)
    ensures
        r == (if data.email@.len() > 0 && data.password@.len() > 0 {
            Ok::<(), SignupError>(())
        } else {
            Err(SignupError::MissingCredentials)
        }),
{
    if data.email.as_str().unicode_len() == 0 || data.password.as_str().unicode_len() == 0 {
        Err(SignupError::MissingCredentials)
    } else {
        Ok(())
    }
}

/// The message for an account that already exists, by the field in conflict.
pub open spec fn conflict_text(field: Seq<char>) -> Seq<char> {
    if field == "email"@ {
        "Email already exists"@
    } else if field == "phoneNumber"@ {
        "Phone number already exists"@
    } else {
        "User already exists"@
    }
}

pub fn conflict_message(field: &str) -> (r: String)
    ensures
        r@ == conflict_text(field@),
{
    if same_text(field, "email") {
        owned("Email already exists")
    } else if same_text(field, "phoneNumber") {
        owned("Phone number already exists")
    } else {
        owned("User already exists")
    }
}

/// Smallest one-time code.
pub const CODE_MIN: u32 = 10000;

/// One more than the largest one-time code.
pub const CODE_END: u32 = 99999;

/// Relies on rand's `Rng::gen_range` over `thread_rng()`: a number in the
/// half-open range `CODE_MIN..CODE_END`.
#[verifier::external_body]
fn random_code() -> (r: u32)
    ensures
        CODE_MIN <= r < CODE_END,
{
    rand::Rng::gen_range(&mut rand::thread_rng(), CODE_MIN..CODE_END)
}

/// Relies on uuid's `Uuid::new_v4` and its `Display`: a random identifier in
/// hyphenated form, 36 characters.
#[verifier::external_body]
fn random_token() -> (r: String)
    ensures
        r@.len() == 36,
{
    uuid::Uuid::new_v4().to_string()
}

/// The decimal digits of `n`, with leading zeros up to five digits.
pub open spec fn five_digits(n: nat) -> Seq<char> {
    let d = decimal(n);
    if d.len() >= 5 {
        d
    } else {
        Seq::new((5 - d.len()) as nat, |i: int| '0') + d
    }
}

pub open spec fn temp_id_of(token: Seq<char>) -> Seq<char> {
    "signup"@ + token
}

/// A pending sign-up made of the form, a random token and a one-time code.
pub fn temp_user_from(data: SignupData, token: &str, code: u32) -> (r: TempUser)
    ensures
        r.temp_id@ == temp_id_of(token@),
        r.code@ == five_digits(code as nat),
        r.name == data.name,
        r.number == data.number,
        r.email == data.email,
        r.password == data.password,
{
    let mut temp_id = owned("signup");
    push_str(&mut temp_id, token);
    let mut digits = String::new();
    push_decimal(&mut digits, code as u128);
    let count = digits.as_str().unicode_len();
    let mut text = String::new();
    let mut pad: usize = count;
    while pad < 5
        invariant
            count == digits@.len(),
            count <= pad <= 5 || (count > 5 && pad == count),
            text@ == Seq::new((pad - count) as nat, |i: int| '0'),
        decreases 5 - pad,
    {
        crate::text::push_char(&mut text, '0');
        pad = pad + 1;
        assert(text@ =~= Seq::new((pad - count) as nat, |i: int| '0'));
    }
    push_str(&mut text, digits.as_str());
    assert(text@ =~= five_digits(code as nat));
    TempUser {
        temp_id,
        name: data.name,
        number: data.number,
        email: data.email,
        password: data.password,
        code: text,
    }
}

/// A pending sign-up with a fresh random token and one-time code.
pub fn new_temp_user(data: SignupData) -> (r: TempUser)
    ensures
        exists|token: Seq<char>| token.len() == 36 && r.temp_id@ == temp_id_of(token),
        exists|c: nat| CODE_MIN <= c < CODE_END && r.code@ == five_digits(c),
        r.email == data.email,
        r.password == data.password,
{
    let token = random_token();
    let code = random_code();
    let r = temp_user_from(data, token.as_str(), code);
    assert(CODE_MIN <= code as nat && (code as nat) < CODE_END && r.code@ == five_digits(code as nat));
    r
}

/// Relies on argon2's `PasswordHasher::hash_password` with `Argon2::default()`
/// and a salt that `SaltString::generate` draws from the operating system:
/// the PHC text of the hash, or nothing when hashing fails.
#[verifier::external_body]
fn argon2_hash(password: &str) -> (r: Option<String>) {
    let salt = argon2::password_hash::SaltString::generate(&mut rand::rngs::OsRng);
    argon2::PasswordHasher::hash_password(&argon2::Argon2::default(), password.as_bytes(), &salt)
        .ok()
        .map(|h| h.to_string())
}

/// A checked sign-up form whose password is replaced by its hash.
pub fn prepare_signup(data: SignupData) -> (r: Result<SignupData, SignupError>)
    ensures
        r == Err::<SignupData, SignupError>(SignupError::MissingCredentials) <==> !(data.email@.len() > 0
            && data.password@.len() > 0),
        r matches Ok(d) ==> d.name == data.name && d.number == data.number && d.email == data.email,
{
    match check_signup(&data) {
        Err(e) => Err(e),
        Ok(()) => match argon2_hash(data.password.as_str()) {
            Some(h) => Ok(SignupData { name: data.name, number: data.number, email: data.email, password: h }),
            None => Err(SignupError::Hashing),
        },
    }
}

/// Whether `password` matches the stored PHC text `phc` under Argon2:
/// `None` when the text is not a PHC hash.
pub uninterp spec fn argon2_verdict(password: Seq<char>, phc: Seq<char>) -> Option<bool>;

/// Relies on argon2's `PasswordHash::new` and `PasswordVerifier::verify_password`
/// with `Argon2::default()`: whether the stored text parses as a PHC hash and,
/// if it does, whether the password verifies against it. Both depend on the
/// two texts alone (the salt and parameters are read from the hash).
#[verifier::external_body]
fn check_password(password: &str, phc: &str) -> (r: Option<bool>)
    ensures
        r == argon2_verdict(password@, phc@),
{
    match argon2::PasswordHash::new(phc) {
        Ok(h) => Some(
            argon2::PasswordVerifier::verify_password(&argon2::Argon2::default(), password.as_bytes(), &h)
                .is_ok(),
        ),
        Err(_) => None,
    }
}

/// How a log-in ends.
#[derive(Clone, Copy, Debug, PartialEq, Eq)]
pub enum LoginOutcome {
    /// No account has this e-mail address.
    NoUser,
    /// The stored hash cannot be read.
    UnreadableHash,
    /// The password does not match.
    WrongPassword,
    /// Logged in as this account.
    Success(i32),
}

pub open spec fn outcome_of(user: Option<LoginUser>, verdict: Option<bool>) -> LoginOutcome {
    match user {
        None => LoginOutcome::NoUser,
        Some(u) => match verdict {
            None => LoginOutcome::UnreadableHash,
            Some(false) => LoginOutcome::WrongPassword,
            Some(true) => LoginOutcome::Success(u.id),
        },
    }
}

/// The outcome of a log-in, given the account found (if any) and the
/// verdict on its password.
pub fn login_outcome(user: &Option<LoginUser>, verdict: Option<bool>) -> (r: LoginOutcome)
    ensures
        r == outcome_of(*user, verdict),
{
    match user {
        None => LoginOutcome::NoUser,
        Some(u) => match verdict {
            None => LoginOutcome::UnreadableHash,
            Some(false) => LoginOutcome::WrongPassword,
            Some(true) => LoginOutcome::Success(u.id),
        },
    }
}

/// Logs in with `password` as the account found for the e-mail address.
pub fn login(user: &Option<LoginUser>, password: &str) -> (r: LoginOutcome)
    ensures
        r == outcome_of(
            *user,
            match *user {
                Some(u) => argon2_verdict(password@, u.hashed_password@),
                None => None,
            },
        ),
{
    match user {
        None => LoginOutcome::NoUser,
        Some(u) => {
            let verdict = check_password(password, u.hashed_password.as_str());
            login_outcome(user, verdict)
        },
    }
}

} // verus!
