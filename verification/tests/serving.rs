use paradox_server::auth::{AuthImpl, Authorize, CheckFuture, CheckOutcome};
use paradox_server::config::{
    default_lu_json_cache, default_lu_res_cache, default_port, default_public, header_values,
    is_header_value, no, AuthConfig, Config, CorsOptions, DataOptions, GeneralOptions, HostConfig,
    TlsOptions,
};
use paradox_server::routing::{
    fallback_path, public_falls_through, redirect_action, redirect_location, requires_fallback,
    route_request, RedirectAction, RedirectCore, RedirectLayer, PublicOrLayer, Target,
    API_PREFIX, FALLBACK_PREFIX, RES_PREFIX,
};

fn general(base: Option<&str>, secure: bool) -> GeneralOptions {
    GeneralOptions {
        port: 3030,
        public: false,
        cors: CorsOptions::default(),
        base: base.map(|b| b.to_string()),
        domain: "lu.example.org".to_string(),
        secure,
    }
}

fn data() -> DataOptions {
    DataOptions {
        public: "public".into(),
        res: None,
        versions: None,
        cdclient: "cd.fdb".into(),
        explorer_spa: "spa".into(),
        lu_res_cache: "lu-res".into(),
        lu_json_cache: "lu-json".into(),
        lu_res_prefix: None,
        locale: "locale.xml".into(),
        sqlite: "cd.sqlite".into(),
    }
}

fn host(name: &str, redirect: bool, base: Option<&str>) -> HostConfig {
    HostConfig { name: name.into(), redirect, base: base.map(|b| b.to_string()) }
}

fn config(hosts: Vec<HostConfig>, auth: Option<AuthConfig>) -> Config {
    Config { general: general(Some("explorer"), true), tls: None, data: data(), host: hosts, auth }
}

#[test]
fn requests_go_to_their_part() {
    assert!(matches!(route_request(None), Target::App));
    assert!(matches!(route_request(Some("/api/v0/maps/x.png")), Target::Fallback));
    assert!(matches!(route_request(Some("/api/v0/scripts/a.lua")), Target::Fallback));
    match route_request(Some("/api/v0/tables?x=1")) {
        Target::Api(rest) => assert_eq!(rest, "/v0/tables?x=1"),
        _ => panic!("api"),
    }
    match route_request(Some("/lu-res/textures/a.png")) {
        Target::Assets(rest) => assert_eq!(rest, "/textures/a.png"),
        _ => panic!("assets"),
    }
    match route_request(Some("/apix")) {
        Target::Api(rest) => assert_eq!(rest, "x"),
        _ => panic!("prefix"),
    }
    assert!(matches!(route_request(Some("/objects/1")), Target::App));
    assert!(requires_fallback("/api/v0/maps/"));
    assert!(!requires_fallback("/api/v0/map"));
    assert_eq!(fallback_path("/api/v0/maps/a.png"), "/maps/a.png");
    assert_eq!((API_PREFIX, RES_PREFIX, FALLBACK_PREFIX), ("/api", "/lu-res", "/api/v0"));
}

#[test]
fn redirect_locations() {
    assert_eq!(redirect_location("lu.example.org", "explorer", "/a"), "https://lu.example.org/explorer//a");
    assert_eq!(redirect_location("lu.example.org", "", "a"), "https://lu.example.org/a");
    assert_eq!(redirect_location("d", "b/", "c"), "https://d/b/c");
}

#[test]
fn host_redirects() {
    let cfg = config(
        vec![
            host("old.example.org", true, None),
            host("mirror.example.org", false, Some("/lu")),
            host("based.example.org", true, Some("/x")),
            host("mirror.example.org", false, Some("/lu2")),
        ],
        None,
    );
    let core = RedirectCore::new(&cfg);
    assert_eq!(core.canonical_domain, "lu.example.org");
    assert_eq!(core.canonical_base, "explorer");
    assert!(matches!(redirect_action(&core, None, "/a"), RedirectAction::Pass));
    assert!(matches!(redirect_action(&core, Some("other.org"), "/a"), RedirectAction::Pass));
    match redirect_action(&core, Some("old.example.org"), "objects/1") {
        RedirectAction::Redirect(l) => assert_eq!(l, "https://lu.example.org/explorer/objects/1"),
        _ => panic!("redirect"),
    }
    match redirect_action(&core, Some("mirror.example.org"), "/lu2/objects") {
        RedirectAction::PassWithPath(p) => assert_eq!(p, "/objects"),
        _ => panic!("the last entry counts"),
    }
    assert!(matches!(
        redirect_action(&core, Some("mirror.example.org"), "/lu/objects"),
        RedirectAction::NotFound
    ));
    match redirect_action(&core, Some("based.example.org"), "/xyz") {
        RedirectAction::Redirect(l) => assert_eq!(l, "https://lu.example.org/explorer/yz"),
        _ => panic!("base is dropped"),
    }
    let layer = RedirectLayer::new(&cfg);
    assert_eq!(layer.core.canonical_domain, "lu.example.org");
}

#[test]
fn public_directory_falls_through_on_404_only() {
    assert!(public_falls_through(404));
    assert!(!public_falls_through(200));
    assert!(!public_falls_through(403));
    assert_eq!(PublicOrLayer::new("pub".to_string()).path, "pub");
}

fn auth_cfg() -> AuthConfig {
    AuthConfig {
        basic: Some(vec![("alice".to_string(), "secret".to_string())]),
        user_agents: vec!["Discordbot/2.0".to_string()],
        api_keys: vec!["k3y".to_string()],
    }
}

#[test]
fn basic_authorization() {
    let a = Authorize::new(&Some(auth_cfg()));
    match &a.kind {
        AuthImpl::Basic(b) => assert_eq!(b.allowed_credentials, vec!["YWxpY2U6c2VjcmV0".to_string()]),
        AuthImpl::Off => panic!("users are configured"),
    }
    assert!(a.authorize(Some("Basic YWxpY2U6c2VjcmV0"), None, None));
    assert!(!a.authorize(Some("Basic YWxpY2U6c2VjcmV1"), None, None));
    assert!(!a.authorize(Some("basic YWxpY2U6c2VjcmV0"), None, None));
    assert!(a.authorize(None, Some("x=1&apiKey=k3y"), None));
    assert!(a.authorize(None, Some("apiKey=k%33y"), None));
    assert!(!a.authorize(None, Some("apikey=k3y"), None));
    assert!(a.authorize(None, None, Some("Discordbot/2.0")));
    assert!(!a.authorize(None, None, Some("curl")));
    assert!(!a.authorize(None, None, None));
}

#[test]
fn authorization_off() {
    let none = Authorize::new(&None);
    assert!(matches!(none.kind, AuthImpl::Off));
    assert!(none.authorize(None, None, None));
    let no_users = AuthConfig { basic: None, user_agents: vec![], api_keys: vec!["k".into()] };
    let off = Authorize::new(&Some(no_users));
    assert!(matches!(off.kind, AuthImpl::Off));
    assert!(off.authorize(None, None, None));
    assert!(matches!(AuthImpl::new(None), AuthImpl::Off));
}

#[test]
fn check_answers() {
    assert!(matches!(CheckFuture { is_allowed: true }.get(), CheckOutcome::FallThrough));
    match (CheckFuture { is_allowed: false }).get() {
        CheckOutcome::Denied { www_authenticate, body } => {
            assert_eq!(www_authenticate, "Basic realm=\"LU-Explorer\"");
            assert_eq!(body, "Access denied");
        }
        CheckOutcome::FallThrough => panic!("denied"),
    }
}

#[test]
fn configuration_defaults_and_urls() {
    assert_eq!(default_port(), 3030);
    assert_eq!(default_public(), "public");
    assert_eq!(default_lu_res_cache(), "lu-res");
    assert_eq!(default_lu_json_cache(), "lu-json");
    assert!(!no());
    let g = general(Some("explorer"), true);
    assert_eq!(g.scheme(), "https");
    assert_eq!(g.base_url(), "https://lu.example.org/explorer");
    let h = general(None, false);
    assert_eq!(h.base_url(), "http://lu.example.org");
    assert_eq!(h.ip(), [127, 0, 0, 1]);
    let mut p = general(None, false);
    p.public = true;
    assert_eq!(p.ip(), [0, 0, 0, 0]);
    let cors = CorsOptions::default();
    assert!(cors.all);
    assert!(cors.domains.is_empty());
}

#[test]
fn cors_domains_must_be_header_values() {
    assert!(is_header_value("https://a.example\tb"));
    assert!(!is_header_value("a\nb"));
    assert!(!is_header_value("a\u{7f}"));
    let ok = vec!["https://a.org".to_string(), "https://ü.org".to_string()];
    assert_eq!(header_values(ok.clone()), Ok(ok));
    assert_eq!(header_values(vec!["a".into(), "b\r".into(), "c\n".into()]), Err(1));
}

#[test]
fn tls_is_refused() {
    let mut c = config(vec![], None);
    assert!(!c.wants_tls());
    c.tls = Some(TlsOptions { enabled: false, key: "k".into(), cert: "c".into() });
    assert!(!c.wants_tls());
    c.tls = Some(TlsOptions { enabled: true, key: "k".into(), cert: "c".into() });
    assert!(c.wants_tls());
}

#[test]
fn base_urls_have_no_trailing_slash() {
    assert_eq!(general(Some(""), true).base_url(), "https://lu.example.org");
    assert_eq!(general(Some("/"), false).base_url(), "http://lu.example.org");
    assert_eq!(general(Some("explorer/"), true).base_url(), "https://lu.example.org/explorer");
    assert_eq!(general(Some("a/b//"), true).base_url(), "https://lu.example.org/a/b");
    for b in [None, Some(""), Some("x"), Some("x/"), Some("//")] {
        assert!(!general(b, true).base_url().ends_with('/'));
    }
}
