use duka::auth::{
    generate_token, hex_encode, is_public_path, login_attempt, logout_cookie, session_cookie,
    session_from_cookie, session_is_fresh, LoginForm, LoginOutcome, MAX_ATTEMPTS,
};

#[test]
fn hex_encode_is_lowercase_two_digits_per_byte() {
    assert_eq!(hex_encode(&[0x00, 0x0f, 0xa0, 0xff]), "000fa0ff");
    assert_eq!(hex_encode(&[]), "");
}

#[test]
fn tokens_are_32_lowercase_hex_digits() {
    let t = generate_token();
    assert_eq!(t.len(), 32);
    assert!(t.chars().all(|c| c.is_ascii_digit() || ('a'..='f').contains(&c)));
    assert_ne!(generate_token(), t);
}

#[test]
fn session_cookie_layout() {
    assert_eq!(session_cookie("abc", false), "duka_session=abc; HttpOnly; SameSite=Strict; Path=/");
    assert_eq!(
        session_cookie("abc", true),
        "duka_session=abc; HttpOnly; SameSite=Strict; Path=/; Secure"
    );
    assert_eq!(
        logout_cookie(),
        "duka_session=; HttpOnly; SameSite=Strict; Path=/; Max-Age=0; Secure"
    );
}

#[test]
fn session_read_from_cookie_header() {
    assert_eq!(session_from_cookie("duka_session=abc"), Some("abc".to_string()));
    assert_eq!(
        session_from_cookie("theme=dark;  duka_session=tok123 ; other=1"),
        Some("tok123".to_string())
    );
    assert_eq!(
        session_from_cookie("duka_session=first; duka_session=second"),
        Some("first".to_string())
    );
    assert_eq!(session_from_cookie("theme=dark"), None);
    assert_eq!(session_from_cookie(""), None);
    assert_eq!(session_from_cookie("xduka_session=abc"), None);
    assert_eq!(session_from_cookie("duka_session="), Some(String::new()));
}

#[test]
fn login_cookie_is_recognised() {
    let token = generate_token();
    let cookie = session_cookie(&token, true);
    assert_eq!(session_from_cookie(&cookie), Some(token));
}

#[test]
fn public_paths() {
    assert!(is_public_path("/login"));
    assert!(is_public_path("/login.css"));
    assert!(is_public_path("/logout"));
    assert!(!is_public_path("/logout/x"));
    assert!(!is_public_path("/devices"));
    assert!(!is_public_path("/"));
}

#[test]
fn session_expiry() {
    assert!(session_is_fresh(1_000, 1_500, 600));
    assert!(!session_is_fresh(1_000, 1_600, 600));
    assert!(session_is_fresh(2_000, 1_000, 1));
    assert!(!session_is_fresh(2_000, 1_000, 0));
}

#[test]
fn credentials_must_match_exactly() {
    let form = LoginForm { username: "admin".to_string(), password: "pw".to_string() };
    assert!(form.credentials_match(&"admin".to_string(), &"pw".to_string()));
    assert!(!form.credentials_match(&"admin".to_string(), &"pw2".to_string()));
    assert!(!form.credentials_match(&"Admin".to_string(), &"pw".to_string()));
}

#[test]
fn lockout_after_max_failed_attempts() {
    let mut failures = 0;
    for i in 1..=MAX_ATTEMPTS {
        let (outcome, n) = login_attempt(failures, false);
        assert_eq!(outcome, LoginOutcome::Rejected { locked: i == MAX_ATTEMPTS });
        assert_eq!(n, i);
        failures = n;
    }
    // even the right credentials are refused now
    assert_eq!(login_attempt(failures, true), (LoginOutcome::LockedOut, MAX_ATTEMPTS));
    assert_eq!(login_attempt(failures, false), (LoginOutcome::LockedOut, MAX_ATTEMPTS));
}

#[test]
fn successful_login_clears_failures() {
    assert_eq!(login_attempt(3, true), (LoginOutcome::Accepted, 0));
    assert_eq!(login_attempt(0, true), (LoginOutcome::Accepted, 0));
}
