use oyun_kafe_yonetim::web::{
    api_route, bearer_token, history_limit, is_authorization_header, login_check, login_request,
    page_for, port_setting, web_urls, ApiRoute, Method, Page, TokenStore, WEB_PORT,
};
use oyun_kafe_yonetim::auth::{legacy_hash, make_hash};

#[test]
fn issued_token_signs_in_until_it_expires() {
    let mut store = TokenStore::new();
    let t = store.issue_token("ali", 1000);
    assert_eq!(t.len(), 36);
    assert_eq!(store.check_token(&t, 1000).as_deref(), Some("ali"));
    assert_eq!(store.check_token(&t, 1000 + 43199).as_deref(), Some("ali"));
    assert_eq!(store.check_token(&t, 1000 + 43200), None);
    assert_eq!(store.check_token("baska", 1000), None);
}

#[test]
fn dropped_token_signs_in_no_one() {
    let mut store = TokenStore::new();
    let a = store.issue_token("ali", 0);
    let b = store.issue_token("veli", 0);
    store.drop_token(&a);
    assert_eq!(store.check_token(&a, 1), None);
    assert_eq!(store.check_token(&b, 1).as_deref(), Some("veli"));
}

#[test]
fn pages_and_routes() {
    assert_eq!(page_for("/"), Page::Index);
    assert_eq!(page_for("/index.html"), Page::Index);
    assert_eq!(page_for("/web/app.js"), Page::Index);
    assert_eq!(page_for("/api/ping"), Page::Api);
    assert_eq!(page_for("/favicon.ico"), Page::NotFound);
    assert_eq!(api_route(Method::Options, "/api/anything"), ApiRoute::Preflight);
    assert_eq!(api_route(Method::Get, "/api/ping"), ApiRoute::Ping);
    assert_eq!(api_route(Method::Post, "/api/login"), ApiRoute::Login);
    assert_eq!(api_route(Method::Get, "/api/login"), ApiRoute::NotFound);
    assert_eq!(api_route(Method::Post, "/api/logout"), ApiRoute::Logout);
    assert_eq!(api_route(Method::Get, "/api/overview?x=1"), ApiRoute::Overview);
    assert_eq!(api_route(Method::Get, "/api/drinks"), ApiRoute::Drinks);
    assert_eq!(api_route(Method::Get, "/api/history"), ApiRoute::History(30));
    assert_eq!(api_route(Method::Get, "/api/history?limit=5"), ApiRoute::History(5));
    assert_eq!(api_route(Method::Get, "/api/history?a=1&limit=7&limit=9"), ApiRoute::History(7));
    assert_eq!(api_route(Method::Get, "/api/history?limit=x&limit=9"), ApiRoute::History(30));
    assert_eq!(api_route(Method::Other, "/api/ping"), ApiRoute::NotFound);
}

#[test]
fn history_limit_reads_first_limit() {
    assert_eq!(history_limit(&"limit=12".chars().collect()), 12);
    assert_eq!(history_limit(&"".chars().collect()), 30);
    assert_eq!(history_limit(&"nolimit=3".chars().collect()), 30);
}

#[test]
fn authorization_header() {
    assert!(is_authorization_header("Authorization"));
    assert!(is_authorization_header("AUTHORIZATION"));
    assert!(!is_authorization_header("Authorisation"));
    assert_eq!(bearer_token("Bearer  abc ").as_deref(), Some("abc"));
    assert_eq!(bearer_token("Basic abc"), None);
}

#[test]
fn sign_in_body_and_check() {
    let (u, p) = login_request(r#"{"username":"  ali ","password":"x1"}"#).unwrap();
    assert_eq!((u.as_str(), p.as_str()), ("ali", "x1"));
    let e = login_request(r#"{"username":"ali"}"#).unwrap_err();
    assert_eq!((e.status, e.error.as_str()), (400, "Kullanıcı adı ve şifre gerekli"));
    assert_eq!(login_request("bozuk").unwrap_err().status, 400);
    let h = legacy_hash("x12345");
    assert_eq!(login_check(0, &h, "x12345").unwrap_err().status, 403);
    let e = login_check(1, &h, "yanlis").unwrap_err();
    assert_eq!((e.status, e.error.as_str()), (401, "Yanlış şifre"));
    assert!(login_check(1, &h, "x12345").is_ok());
}

#[test]
fn viewer_refuses_argon2_hashes() {
    let h = make_hash("x12345");
    let e = login_check(1, &h, "x12345").unwrap_err();
    assert_eq!((e.status, e.error.as_str()), (401, "Yanlış şifre"));
}

#[test]
fn port_and_addresses() {
    assert_eq!(port_setting(None), WEB_PORT);
    assert_eq!(port_setting(Some("9000")), 9000);
    assert_eq!(port_setting(Some("70000")), WEB_PORT);
    let (local, lan) = web_urls("192.168.1.5", 8747);
    assert_eq!(local, "http://127.0.0.1:8747");
    assert_eq!(lan, "http://192.168.1.5:8747");
    let (_, lan) = web_urls("", 8747);
    assert_eq!(lan, "");
}
