use avanzo::credentials::check_code;
use avanzo::credentials::compare_email;
use avanzo::credentials::compare_password;
use avanzo::credentials::generate_code;
use avanzo::credentials::hash_password;

#[test]
fn hashing_is_salted_and_verifiable() {
    let first = hash_password("secret".to_string());
    let second = hash_password("secret".to_string());
    assert_ne!(first, "secret");
    assert_ne!(first, second);
    assert!(first.starts_with("$argon2"));
    assert!(compare_password("secret", &first));
    assert!(compare_password("secret", &second));
    assert!(!compare_password("Secret", &first));
    assert!(!compare_password("", &first));
}

#[test]
fn malformed_stored_hashes_never_verify() {
    assert!(!compare_password("secret", "not a hash"));
    assert!(!compare_password("secret", ""));
}

#[test]
fn generated_codes_are_six_uniform_digits() {
    for _ in 0..16 {
        let code = generate_code();
        assert_eq!(code.len(), 6);
        assert!(code.chars().all(|c| c.is_ascii_digit()));
        let value: u32 = code.parse().unwrap();
        assert!((100_000..1_000_000).contains(&value));
    }
}

#[test]
fn code_comparison_is_exact() {
    assert!(check_code(&"123456".to_string(), "123456".to_string()));
    assert!(!check_code(&"123456".to_string(), "123457".to_string()));
    assert!(!check_code(&"123456".to_string(), "".to_string()));
    assert!(!check_code(&"".to_string(), "123456".to_string()));
}

#[test]
fn email_comparison_is_exact() {
    assert!(compare_email(&"a@x.com".to_string(), &"a@x.com".to_string()));
    assert!(!compare_email(&"a@x.com".to_string(), &"A@x.com".to_string()));
    assert!(!compare_email(&"a@x.com".to_string(), &"a@x.co".to_string()));
}
