use auth_service::data_stores::{LoginAttemptId, TwoFACode};
use auth_service::email::Email;
use auth_service::password::Password;
use auth_service::user::User;

#[test]
fn is_should_return_the_email_address_when_valid() {
    let expected = Email::parse(String::from("foo@example.com")).unwrap();
    let actual = Email::parse(String::from("foo@example.com"));
    assert_eq!(actual, Ok(expected.clone()));
    assert_eq!(actual.unwrap().as_ref(), "foo@example.com");
}

#[test]
fn is_should_return_an_error_when_email_address_does_not_contain_at() {
    let actual = Email::parse(String::from("foo")).is_err();
    assert_eq!(actual, true);
}

#[test]
fn is_should_return_the_email_address_when_as_ref_is_called() {
    let expected = String::from("foo@example.com");
    let email = Email::parse(expected.clone()).unwrap();

    let actual = email.as_ref();

    assert_eq!(actual, &expected);
}

#[test]
fn is_should_return_the_password_when_len_gte_8() {
    let actual = Password::parse(String::from("12345678"));
    assert!(actual.is_ok());
    assert_eq!(actual.unwrap().as_ref(), "12345678");
}

#[test]
fn is_should_return_an_error_when_password_is_less_than_8_chars() {
    let actual = Password::parse(String::from("1234567")).is_err();
    assert_eq!(actual, true);
}

#[test]
fn email_with_at_only_is_accepted_and_empty_is_refused() {
    assert!(Email::parse(String::from("@")).is_ok());
    assert!(Email::parse(String::new()).is_err());
}

#[test]
fn password_length_counts_bytes() {
    // Four two-byte characters make eight bytes.
    assert!(Password::parse(String::from("éééé")).is_ok());
    assert!(Password::parse(String::from("ééé")).is_err());
}

#[test]
fn two_fa_code_parse_accepts_six_digit_integers_only() {
    assert_eq!(TwoFACode::parse(String::from("123456")).unwrap().as_ref(), "123456");
    assert!(TwoFACode::parse(String::from("000000")).is_ok());
    assert!(TwoFACode::parse(String::from("-12345")).is_ok());
    assert!(TwoFACode::parse(String::from("+12345")).is_ok());
    assert!(TwoFACode::parse(String::from("12345")).is_err());
    assert!(TwoFACode::parse(String::from("1234567")).is_err());
    assert!(TwoFACode::parse(String::from("12a456")).is_err());
    assert!(TwoFACode::parse(String::from("1-2345")).is_err());
    assert!(TwoFACode::parse(String::from("+-1234")).is_err());
}

#[test]
fn two_fa_code_default_is_six_digits() {
    for _ in 0..50 {
        let code = TwoFACode::default();
        let text = code.as_ref();
        assert_eq!(text.len(), 6);
        assert!(text.chars().all(|c| c.is_ascii_digit()));
        assert!(TwoFACode::parse(text.to_string()).is_ok());
    }
}

#[test]
fn two_fa_code_from_number_pads_to_six_digits() {
    assert_eq!(TwoFACode::from_number(42).as_ref(), "000042");
    assert_eq!(TwoFACode::from_number(0).as_ref(), "000000");
    assert_eq!(TwoFACode::from_number(999_999).as_ref(), "999999");
}

#[test]
fn login_attempt_id_parse_gives_the_canonical_form() {
    let id = LoginAttemptId::parse(String::from("550E8400E29B41D4A716446655440000")).unwrap();
    assert_eq!(id.as_ref(), "550e8400-e29b-41d4-a716-446655440000");
    assert!(LoginAttemptId::parse(String::from("not-a-uuid")).is_err());
}

#[test]
fn login_attempt_id_default_is_fresh_and_parses() {
    let a = LoginAttemptId::default();
    let b = LoginAttemptId::default();
    assert_eq!(a.as_ref().len(), 36);
    assert_ne!(a, b);
    let again = LoginAttemptId::parse(a.as_ref().to_string()).unwrap();
    assert_eq!(again, a);
}

#[test]
fn user_new_keeps_its_fields() {
    let email = Email::parse(String::from("a@x.com")).unwrap();
    let password = Password::parse(String::from("longenough1")).unwrap();
    let user = User::new(email.clone(), password.clone(), true);
    assert_eq!(user.email, email);
    assert_eq!(user.password, password);
    assert!(user.requires_2fa);
}
