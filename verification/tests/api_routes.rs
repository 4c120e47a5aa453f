use paradox_server::api::rev::routes::{rev_apis, Route};
use paradox_server::api::{
    bytes_eq, dispatch, handle, reply_200, reply_404, reply_405, rev_action, rev_reply_head, Accept,
    Allow, ApiAction, ApiRoute, PercentDecoded, RequestMethod, RevAction,
};
use paradox_server::auth::refusal_reply;
use paradox_server::path::PathSplit;

fn route(s: &str) -> Result<ApiRoute, ()> {
    ApiRoute::from_str(s)
}

fn rev(s: &str) -> Result<Route, ()> {
    Route::from_parts(PathSplit::of_path(s))
}

#[test]
fn api_paths() {
    assert!(matches!(route(""), Ok(ApiRoute::SwaggerUIRedirect)));
    assert!(matches!(route("/"), Ok(ApiRoute::SwaggerUI)));
    assert!(matches!(route("/x"), Err(())));
    assert!(matches!(route("/v0/tables"), Ok(ApiRoute::Tables)));
    assert!(matches!(route("/v0/tables/Objects"), Ok(ApiRoute::TableByName(n)) if n == "Objects"));
    assert!(matches!(route("/v0/tables/Objects/def"), Ok(ApiRoute::TableByName(n)) if n == "Objects"));
    assert!(matches!(route("/v0/tables/Objects/all"), Ok(ApiRoute::AllTableRows(n)) if n == "Objects"));
    assert!(matches!(route("/v0/tables/Objects/12"), Ok(ApiRoute::TableRowsByPK(n, k)) if n == "Objects" && k == "12"));
    assert!(matches!(route("/v0/tables/Objects/12/x"), Err(())));
    assert!(matches!(route("/v0/crc/123"), Ok(ApiRoute::Crc(123))));
    assert!(matches!(route("/v0/crc/-1"), Err(())));
    assert!(matches!(route("/v0/crc"), Err(())));
    assert!(matches!(route("/v0/openapi.json"), Ok(ApiRoute::OpenApiV0)));
    assert!(matches!(route("/v1/tables"), Ok(ApiRoute::Tables)));
    assert!(matches!(route("/v1/tables/x"), Err(())));
    match route("/v1/res/a/b") {
        Ok(ApiRoute::Res(p)) => assert_eq!(p.rest(), vec!["a", "b"]),
        _ => panic!("res"),
    }
    match route("/v0/locale/Missions/1") {
        Ok(ApiRoute::Locale(p)) => assert_eq!(p.rest(), vec!["Missions", "1"]),
        _ => panic!("locale"),
    }
    assert!(matches!(route("/v0/rev/objects/5"), Ok(ApiRoute::Rev(Route::ObjectById(5)))));
}

#[test]
fn reverse_api_paths() {
    assert!(matches!(rev(""), Ok(Route::Base)));
    assert!(matches!(rev("activity"), Ok(Route::Activities)));
    assert!(matches!(rev("activities/"), Ok(Route::Activities)));
    assert!(matches!(rev("activity/7"), Ok(Route::ActivityById(7))));
    assert!(matches!(rev("behaviors/12"), Ok(Route::BehaviorById(12))));
    assert!(matches!(rev("behaviors"), Err(())));
    assert!(matches!(rev("component-types/2/3"), Ok(Route::ComponentTypeByIdAndCid(2, 3))));
    assert!(matches!(rev("component_types/2/"), Ok(Route::ComponentTypeById(2))));
    assert!(matches!(rev("component_types/2//x"), Err(())));
    assert!(matches!(rev("factions/"), Ok(Route::Factions)));
    assert!(matches!(rev("faction/4"), Ok(Route::FactionById(4))));
    assert!(matches!(rev("gate-versions/live%20event"), Ok(Route::GateVersionByName(n)) if n.as_string() == "live event"));
    assert!(matches!(rev("nothing"), Err(())));
}

#[test]
fn reverse_api_names() {
    assert_eq!(
        rev_apis(),
        vec![
            "activity",
            "behaviors",
            "component_types",
            "faction",
            "gate_version",
            "loot_table_index",
            "mission_types",
            "missions",
            "objects",
            "object_types",
            "skill_ids"
        ]
    );
}

#[test]
fn methods_per_request() {
    assert!(matches!(dispatch(RequestMethod::Get, ApiRoute::Tables), ApiAction::Tables));
    assert!(matches!(
        dispatch(RequestMethod::Query, ApiRoute::Tables),
        ApiAction::MethodNotAllowed(Allow::GetHead)
    ));
    assert!(matches!(
        dispatch(RequestMethod::Query, ApiRoute::AllTableRows("A".into())),
        ApiAction::QueryTableRows(n) if n == "A"
    ));
    assert!(matches!(
        dispatch(RequestMethod::Head, ApiRoute::AllTableRows("A".into())),
        ApiAction::MethodNotAllowed(Allow::GetHeadQuery)
    ));
    assert!(matches!(handle(RequestMethod::Get, "/nope"), ApiAction::NotFound));
    assert!(matches!(handle(RequestMethod::Head, "/v0/rev/objects"), ApiAction::Rev(RevAction::HeadOk)));
    assert!(matches!(handle(RequestMethod::Other, "/v0/rev"), ApiAction::Rev(RevAction::MethodNotAllowed)));
    assert!(matches!(rev_action(RequestMethod::Get, Route::Base), RevAction::Get(Route::Base)));
    assert_eq!(Allow::GetHead.header(), "GET,HEAD");
    assert_eq!(Allow::GetHeadQuery.header(), "GET,HEAD,QUERY");
}

#[test]
fn accept_and_decoding() {
    assert_eq!(Accept::of_header(Some(b"application/yaml")), Accept::Yaml);
    assert_eq!(Accept::of_header(Some(b"application/json")), Accept::Json);
    assert_eq!(Accept::of_header(None), Accept::Json);
    assert_eq!(Accept::Yaml.content_type(), "application/yaml; charset=utf-8");
    assert_eq!(Accept::Json.content_type(), "application/json; charset=utf-8");
    assert!(bytes_eq(b"ab", b"ab"));
    assert!(!bytes_eq(b"ab", b"abc"));
    assert_eq!(PercentDecoded::decode("a%2Fb%20c").unwrap().as_string(), "a/b c");
    assert!(PercentDecoded::decode("%FF").is_err());
    assert_eq!(PercentDecoded::decode("%zz").unwrap().as_string(), "%zz");
}

fn hs(v: &[(&str, &str)]) -> Vec<(String, String)> {
    v.iter().map(|(a, b)| (a.to_string(), b.to_string())).collect()
}

#[test]
fn plain_replies() {
    assert_eq!(
        reply_404(),
        (404, hs(&[("content-length", "3"), ("content-type", "application/json; charset=utf-8")]), b"404".to_vec())
    );
    assert_eq!(
        reply_405(Allow::GetHeadQuery),
        (
            405,
            hs(&[("allow", "GET,HEAD,QUERY"), ("content-length", "3"), ("content-type", "application/json; charset=utf-8")]),
            b"405".to_vec()
        )
    );
    assert_eq!(
        rev_reply_head(Accept::Yaml, &RevAction::MethodNotAllowed),
        Some((
            405,
            hs(&[("allow", "GET,HEAD"), ("content-length", "3"), ("content-type", "application/json; charset=utf-8")]),
            b"405".to_vec()
        ))
    );
    assert_eq!(
        rev_reply_head(Accept::Yaml, &RevAction::HeadOk),
        Some((200, hs(&[("content-type", "application/yaml; charset=utf-8")]), Vec::new()))
    );
    assert!(rev_reply_head(Accept::Json, &RevAction::Get(Route::Base)).is_none());
    assert_eq!(
        reply_200(Accept::Json),
        (200, hs(&[("content-type", "application/json; charset=utf-8")]), Vec::new())
    );
    assert_eq!(
        refusal_reply(),
        (401, hs(&[("www-authenticate", "Basic realm=\"LU-Explorer\"")]), Vec::new())
    );
}

fn rev_text(s: &str) -> String {
    format!("{:?}", Route::from_parts(PathSplit::new(&s.chars().collect::<Vec<char>>())))
}

#[test]
fn alias_routes_agree() {
    let pairs = [
        ("activity", "activities"),
        ("component_types", "component-types"),
        ("faction", "factions"),
        ("gate_version", "gate-versions"),
        ("skill_ids", "skills"),
        ("mission_types", "mission-types"),
        ("mission_types", "missions/types"),
        ("loot_table_index", "loot-tables/indices"),
    ];
    for (a, b) in pairs {
        for rest in ["", "/", "/5", "/5/", "/5/7", "/x", "/full", "/a%20b/c"] {
            assert_eq!(rev_text(&format!("{a}{rest}")), rev_text(&format!("{b}{rest}")), "{a} {b} {rest}");
        }
    }
}

#[test]
fn one_trailing_slash_is_ignored() {
    for p in ["behaviors", "component-types", "factions", "gate-versions", "loot_table_index", "mission-types", "objects", "object_types", "skills"] {
        for k in ["5", "x", "full", "search_index"] {
            assert_eq!(rev_text(&format!("{p}/{k}/")), rev_text(&format!("{p}/{k}")), "{p} {k}");
        }
    }
    assert_eq!(rev_text("activities/5"), "Ok(ActivityById(5))");
    assert_eq!(rev_text("activities/5/"), "Err(())");
}
