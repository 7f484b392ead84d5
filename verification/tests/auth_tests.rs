use open_fair_flow::auth::{
    auth_middleware, check_auth_server, create_session, credentials_accepted,
    extract_session_from_cookie, generate_session_token, is_public_path_exec, login_server,
    logout_server, remove_session, validate_session, AccessDecision, SessionStore,
};

fn is_token(t: &str) -> bool {
    t.len() == 64 && t.chars().all(|c| c.is_ascii_digit() || ('a'..='f').contains(&c))
}

#[test]
fn tokens_are_64_lowercase_hex_digits_and_differ() {
    let a = generate_session_token();
    let b = generate_session_token();
    assert!(is_token(&a));
    assert!(is_token(&b));
    assert_ne!(a, b);
}

#[test]
fn session_lifecycle() {
    let mut store = SessionStore::new();
    let t1 = create_session(&mut store);
    let t2 = create_session(&mut store);
    assert!(validate_session(&store, &t1));
    assert!(validate_session(&store, &t2));
    assert!(!validate_session(&store, "not-a-token"));
    remove_session(&mut store, &t1);
    assert!(!validate_session(&store, &t1));
    assert!(validate_session(&store, &t2));
    remove_session(&mut store, &t1);
    assert!(validate_session(&store, &t2));
}

#[test]
fn store_insert_is_idempotent() {
    let mut store = SessionStore::new();
    store.insert("abc".to_string());
    store.insert("abc".to_string());
    assert!(store.contains("abc"));
    store.remove("abc");
    assert!(!store.contains("abc"));
}

#[test]
fn cookie_extraction() {
    assert_eq!(extract_session_from_cookie("session_token=abc"), Some("abc".to_string()));
    assert_eq!(
        extract_session_from_cookie("theme=dark;  session_token=xyz ; lang=en"),
        Some("xyz".to_string())
    );
    assert_eq!(
        extract_session_from_cookie("session_token=first; session_token=second"),
        Some("first".to_string())
    );
    assert_eq!(extract_session_from_cookie("session_token="), Some(String::new()));
    assert_eq!(extract_session_from_cookie("theme=dark"), None);
    assert_eq!(extract_session_from_cookie(""), None);
    assert_eq!(extract_session_from_cookie("xsession_token=abc"), None);
}

#[test]
fn login_sets_a_cookie_that_authenticates() {
    let mut store = SessionStore::new();
    let cookie = login_server(&mut store, "admin", "admin", None, None).expect("accepted");
    assert!(cookie.starts_with("session_token="));
    assert!(cookie.ends_with("; Path=/; HttpOnly; SameSite=Strict; Max-Age=86400"));
    let token = extract_session_from_cookie(&cookie).unwrap();
    assert!(is_token(&token));
    assert!(validate_session(&store, &token));
    let header = format!("session_token={token}");
    assert!(check_auth_server(&store, Some(&header)));
    assert_eq!(auth_middleware(&store, "/datasets", Some(&header)), AccessDecision::Proceed);
    assert_eq!(auth_middleware(&store, "/api/datasets/list", Some(&header)), AccessDecision::Proceed);
}

#[test]
fn login_with_wrong_credentials_changes_nothing() {
    let mut store = SessionStore::new();
    assert_eq!(login_server(&mut store, "admin", "wrong", None, None), None);
    assert_eq!(login_server(&mut store, "admin", "admin", Some("root"), Some("pw")), None);
    assert!(login_server(&mut store, "root", "pw", Some("root"), Some("pw")).is_some());
}

#[test]
fn credentials_default_to_admin() {
    assert!(credentials_accepted("admin", "admin", None, None));
    assert!(!credentials_accepted("Admin", "admin", None, None));
    assert!(credentials_accepted("u", "p", Some("u"), Some("p")));
    assert!(!credentials_accepted("admin", "admin", Some("u"), None));
}

#[test]
fn logout_ends_the_session_and_clears_the_cookie() {
    let mut store = SessionStore::new();
    let token = create_session(&mut store);
    let header = format!("a=b; session_token={token}");
    let cleared = logout_server(&mut store, Some(&header));
    assert_eq!(cleared, "session_token=; Path=/; HttpOnly; SameSite=Strict; Max-Age=0");
    assert!(!validate_session(&store, &token));
    assert!(!check_auth_server(&store, Some(&header)));
    assert_eq!(auth_middleware(&store, "/api/workspaces/list", Some(&header)), AccessDecision::Unauthorized);
    assert_eq!(auth_middleware(&store, "/workspaces", Some(&header)), AccessDecision::RedirectToLogin);
    assert_eq!(logout_server(&mut store, None), "session_token=; Path=/; HttpOnly; SameSite=Strict; Max-Age=0");
}

#[test]
fn public_paths() {
    for p in ["/login", "/api/auth/login", "/assets/main.css", "/_dioxus/x", "/public/a", "/wasm/app.wasm"] {
        assert!(is_public_path_exec(p), "{p}");
        let store = SessionStore::new();
        assert_eq!(auth_middleware(&store, p, None), AccessDecision::Proceed);
    }
    for p in ["/", "/login/", "/api/authx", "/api/auth", "/datasets"] {
        assert!(!is_public_path_exec(p), "{p}");
    }
}

#[test]
fn requests_without_session() {
    let store = SessionStore::new();
    assert_eq!(auth_middleware(&store, "/", None), AccessDecision::RedirectToLogin);
    assert_eq!(auth_middleware(&store, "/api/datasets/list", None), AccessDecision::Unauthorized);
    assert_eq!(auth_middleware(&store, "/api/x", Some("session_token=nope")), AccessDecision::Unauthorized);
    assert!(!check_auth_server(&store, None));
}
