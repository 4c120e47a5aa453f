//! The JSON API: its route table and the values that its paths carry.

use vstd::prelude::*;
use vstd::string::StringSliceAdditionalSpecFns;
use vstd::utf8::{decode_utf8, encode_utf8, valid_utf8};
use crate::api::rev::routes::{spec_rev_route, Route, RouteView, at};
use crate::path::PathSplit;
use crate::api::graphql::own;
use crate::text::{chars_eq_str, chars_to_string, parse_u32, spec_parse_u32, spec_split, spec_trim_start};

pub mod rev;
pub mod graphql;
pub mod graphql_fold;
pub mod graphql_parse;
pub mod locale;
pub mod locale_keys;
pub mod locale_query;
pub mod tables;

verus! {

/// Declares std's UTF-8 error so that it can stand in signatures.
#[verifier::external_type_specification]
#[verifier::external_body]
pub struct ExUtf8Error(core::str::Utf8Error);

/// The value of an ASCII hexadecimal digit, as `char::to_digit(16)` gives it.
pub open spec fn hex_value(b: u8) -> Option<int> {
    if 0x30 <= b <= 0x39 {
        Some(b - 0x30)
    } else if 0x41 <= b <= 0x46 {
        Some(b - 0x41 + 10)
    } else if 0x61 <= b <= 0x66 {
        Some(b - 0x61 + 10)
    } else {
        None
    }
}

/// Percent-decoding of bytes: every `%` followed by two hexadecimal digits
/// stands for the byte they spell; every other byte stands for itself.
pub open spec fn spec_percent_decode(b: Seq<u8>) -> Seq<u8>
    decreases b.len(),
{
    if b.len() == 0 {
        Seq::empty()
    } else if b[0] == 0x25 && b.len() >= 3 && hex_value(b[1]) is Some && hex_value(b[2]) is Some {
        seq![(16 * hex_value(b[1])->0 + hex_value(b[2])->0) as u8] + spec_percent_decode(b.skip(3))
    } else {
        seq![b[0]] + spec_percent_decode(b.skip(1))
    }
}

/// The text that a path segment stands for: its UTF-8 bytes percent-decoded
/// and read back as UTF-8, or `None` when they are not valid UTF-8.
pub open spec fn spec_percent_decoded(s: Seq<char>) -> Option<Seq<char>> {
    let b = spec_percent_decode(encode_utf8(s));
    if valid_utf8(b) {
        Some(decode_utf8(b))
    } else {
        None
    }
}

/// Percent-decodes `s` and reads the result as UTF-8.
///
/// Trusted: `percent_encoding::percent_decode_str(s).decode_utf8()` decodes
/// each `%` followed by two hex digits into one byte, passes every other byte
/// through, and fails exactly when the result is not valid UTF-8.
#[verifier::external_body]
fn percent_decode_utf8(s: &str) -> (r: Result<String, core::str::Utf8Error>)
    ensures
        r is Ok <==> spec_percent_decoded(s@) is Some,
        r matches Ok(v) ==> spec_percent_decoded(s@) == Some(v@),
{
    percent_encoding::percent_decode_str(s).decode_utf8().map(|c| c.into_owned())
}

/// A path segment after percent-decoding.
#[derive(Clone, Debug)]
pub struct PercentDecoded(pub String);

impl View for PercentDecoded {
    type V = Seq<char>;

    open spec fn view(&self) -> Seq<char> {
        self.0@
    }
}

impl PercentDecoded {
    /// Decodes a path segment; fails when the decoded bytes are not UTF-8.
    pub fn decode(s: &str) -> (r: Result<PercentDecoded, core::str::Utf8Error>)
        ensures
            r is Ok <==> spec_percent_decoded(s@) is Some,
            r matches Ok(v) ==> spec_percent_decoded(s@) == Some(v@),
    {
        match percent_decode_utf8(s) {
            Ok(v) => Ok(PercentDecoded(v)),
            Err(e) => Err(e),
        }
    }

    /// The decoded text.
    pub fn as_string(&self) -> (r: &String)
        ensures
            r@ == self@,
    {
        &self.0
    }
}

impl std::str::FromStr for PercentDecoded {
    type Err = core::str::Utf8Error;

    /// Decodes a path segment, as `decode` does.
    fn from_str(s: &str) -> (r: Result<PercentDecoded, core::str::Utf8Error>)
        ensures
            r is Ok <==> spec_percent_decoded(s@) is Some,
            r matches Ok(v) ==> spec_percent_decoded(s@) == Some(v@),
    {
        PercentDecoded::decode(s)
    }
}


/// A request to the API, as its path names it.
pub enum ApiRoute {
    Tables,
    TableByName(String),
    AllTableRows(String),
    TableRowsByPK(String, String),
    Locale(PathSplit),
    Crc(u32),
    Rev(Route),
    OpenApiV0,
    SwaggerUI,
    SwaggerUIRedirect,
    Res(PathSplit),
}

/// An API request, with its names as character sequences.
pub enum ApiRouteView {
    Tables,
    TableByName(Seq<char>),
    AllTableRows(Seq<char>),
    TableRowsByPK(Seq<char>, Seq<char>),
    Locale(Seq<Seq<char>>),
    Crc(u32),
    Rev(RouteView),
    OpenApiV0,
    SwaggerUI,
    SwaggerUIRedirect,
    Res(Seq<Seq<char>>),
}

impl View for ApiRoute {
    type V = ApiRouteView;

    open spec fn view(&self) -> ApiRouteView {
        match self {
            ApiRoute::Tables => ApiRouteView::Tables,
            ApiRoute::TableByName(n) => ApiRouteView::TableByName(n@),
            ApiRoute::AllTableRows(n) => ApiRouteView::AllTableRows(n@),
            ApiRoute::TableRowsByPK(n, k) => ApiRouteView::TableRowsByPK(n@, k@),
            ApiRoute::Locale(rest) => ApiRouteView::Locale(rest@),
            ApiRoute::Crc(c) => ApiRouteView::Crc(*c),
            ApiRoute::Rev(r) => ApiRouteView::Rev(r@),
            ApiRoute::OpenApiV0 => ApiRouteView::OpenApiV0,
            ApiRoute::SwaggerUI => ApiRouteView::SwaggerUI,
            ApiRoute::SwaggerUIRedirect => ApiRouteView::SwaggerUIRedirect,
            ApiRoute::Res(rest) => ApiRouteView::Res(rest@),
        }
    }
}

/// The `/v0/...` requests, from the segments after `v0`.
pub open spec fn spec_api_v0(p: Seq<Seq<char>>) -> Option<ApiRouteView> {
    if p.len() == 0 {
        None
    } else if p[0] == "tables"@ {
        match at(p, 1) {
            None => Some(ApiRouteView::Tables),
            Some(name) => match at(p, 2) {
                None => Some(ApiRouteView::TableByName(name)),
                Some(sub) => if at(p, 3) is Some {
                    None
                } else if sub == "def"@ {
                    Some(ApiRouteView::TableByName(name))
                } else if sub == "all"@ {
                    Some(ApiRouteView::AllTableRows(name))
                } else {
                    Some(ApiRouteView::TableRowsByPK(name, sub))
                },
            },
        }
    } else if p[0] == "locale"@ {
        Some(ApiRouteView::Locale(p.skip(1)))
    } else if p[0] == "rev"@ {
        match spec_rev_route(p.skip(1)) {
            Some(r) => Some(ApiRouteView::Rev(r)),
            None => None,
        }
    } else if p[0] == "crc"@ {
        match at(p, 1) {
            Some(c) => match spec_parse_u32(c) {
                Some(crc) => Some(ApiRouteView::Crc(crc)),
                None => None,
            },
            None => None,
        }
    } else if p[0] == "openapi.json"@ {
        if p.len() == 1 {
            Some(ApiRouteView::OpenApiV0)
        } else {
            None
        }
    } else {
        None
    }
}

/// The `/v1/...` requests, from the segments after `v1`.
pub open spec fn spec_api_v1(p: Seq<Seq<char>>) -> Option<ApiRouteView> {
    if p.len() == 0 {
        None
    } else if p[0] == "tables"@ {
        if p.len() == 1 {
            Some(ApiRouteView::Tables)
        } else {
            None
        }
    } else if p[0] == "res"@ {
        Some(ApiRouteView::Res(p.skip(1)))
    } else {
        None
    }
}

/// The API request that the path `s` (after `/api`) names, or `None`.
pub open spec fn spec_api_route(s: Seq<char>) -> Option<ApiRouteView> {
    if s.len() == 0 {
        Some(ApiRouteView::SwaggerUIRedirect)
    } else {
        let p = spec_split(spec_trim_start(s, '/'), '/');
        if p.len() == 0 {
            None
        } else if p[0] == "v0"@ {
            spec_api_v0(p.skip(1))
        } else if p[0] == "v1"@ {
            spec_api_v1(p.skip(1))
        } else if p[0].len() == 0 {
            if p.len() == 1 {
                Some(ApiRouteView::SwaggerUI)
            } else {
                None
            }
        } else {
            None
        }
    }
}

impl ApiRoute {
    fn v0(mut parts: PathSplit) -> (r: Result<ApiRoute, ()>)
        ensures
            match r {
                Ok(route) => spec_api_v0(parts@) == Some(route@),
                Err(()) => spec_api_v0(parts@) is None,
            },
    {
        let ghost p = parts@;
        let first = match parts.next() {
            Some(f) => f,
            None => return Err(()),
        };
        let k = first.as_slice();
        if chars_eq_str(k, "tables") {
            match parts.next() {
                None => Ok(ApiRoute::Tables),
                Some(name) => {
                    let name_s = chars_to_string(name.as_slice());
                    match parts.next() {
                        None => Ok(ApiRoute::TableByName(name_s)),
                        Some(sub) => {
                            if parts.next().is_some() {
                                Err(())
                            } else if chars_eq_str(sub.as_slice(), "def") {
                                Ok(ApiRoute::TableByName(name_s))
                            } else if chars_eq_str(sub.as_slice(), "all") {
                                Ok(ApiRoute::AllTableRows(name_s))
                            } else {
                                Ok(ApiRoute::TableRowsByPK(name_s, chars_to_string(sub.as_slice())))
                            }
                        },
                    }
                },
            }
        } else if chars_eq_str(k, "locale") {
            Ok(ApiRoute::Locale(parts))
        } else if chars_eq_str(k, "rev") {
            match Route::from_parts(parts) {
                Ok(r) => Ok(ApiRoute::Rev(r)),
                Err(()) => Err(()),
            }
        } else if chars_eq_str(k, "crc") {
            match parts.next() {
                Some(c) => match parse_u32(c.as_slice()) {
                    Some(crc) => Ok(ApiRoute::Crc(crc)),
                    None => Err(()),
                },
                None => Err(()),
            }
        } else if chars_eq_str(k, "openapi.json") {
            match parts.next() {
                None => Ok(ApiRoute::OpenApiV0),
                Some(_) => Err(()),
            }
        } else {
            Err(())
        }
    }

    fn v1(mut parts: PathSplit) -> (r: Result<ApiRoute, ()>)
        ensures
            match r {
                Ok(route) => spec_api_v1(parts@) == Some(route@),
                Err(()) => spec_api_v1(parts@) is None,
            },
    {
        let first = match parts.next() {
            Some(f) => f,
            None => return Err(()),
        };
        if chars_eq_str(first.as_slice(), "tables") {
            match parts.next() {
                None => Ok(ApiRoute::Tables),
                Some(_) => Err(()),
            }
        } else if chars_eq_str(first.as_slice(), "res") {
            Ok(ApiRoute::Res(parts))
        } else {
            Err(())
        }
    }

    /// The API request that the path `s` (after `/api`) names; `Err` when
    /// it names none.
    pub fn from_str(s: &str) -> (r: Result<ApiRoute, ()>)
        ensures
            match r {
                Ok(route) => spec_api_route(s@) == Some(route@),
                Err(()) => spec_api_route(s@) is None,
            },
    {
        if s.is_empty() {
            return Ok(ApiRoute::SwaggerUIRedirect);
        }
        let mut parts = PathSplit::of_path(s);
        let ghost p = parts@;
        let first = match parts.next() {
            Some(f) => f,
            None => return Err(()),
        };
        if chars_eq_str(first.as_slice(), "v0") {
            ApiRoute::v0(parts)
        } else if chars_eq_str(first.as_slice(), "v1") {
            ApiRoute::v1(parts)
        } else if first.len() == 0 {
            match parts.next() {
                None => Ok(ApiRoute::SwaggerUI),
                Some(_) => Err(()),
            }
        } else {
            Err(())
        }
    }
}


/// The response format that a request asks for.
#[derive(Clone, Copy, Debug, PartialEq, Eq, Structural)]
pub enum Accept {
    Json,
    Yaml,
}

impl Accept {
    /// YAML when the `Accept` header is exactly `application/yaml`, JSON
    /// otherwise (also when there is no such header).
    pub fn of_header(h: Option<&[u8]>) -> (r: Accept)
        ensures
            r == (match h {
                Some(b) => if b@ == "application/yaml".spec_bytes() {
                    Accept::Yaml
                } else {
                    Accept::Json
                },
                None => Accept::Json,
            }),
    {
        match h {
            Some(b) => {
                let pat: &[u8] = "application/yaml".as_bytes();
                if bytes_eq(b, pat) {
                    Accept::Yaml
                } else {
                    Accept::Json
                }
            },
            None => Accept::Json,
        }
    }

    /// The `Content-Type` of a reply in this format.
    pub fn content_type(&self) -> (r: &'static str)
        ensures
            *self == Accept::Json ==> r@ == "application/json; charset=utf-8"@,
            *self == Accept::Yaml ==> r@ == "application/yaml; charset=utf-8"@,
    {
        match self {
            Accept::Json => "application/json; charset=utf-8",
            Accept::Yaml => "application/yaml; charset=utf-8",
        }
    }
}

/// Whether two byte strings are equal.
pub fn bytes_eq(a: &[u8], b: &[u8]) -> (r: bool)
    ensures
        r == (a@ == b@),
{
    if a.len() != b.len() {
        return false;
    }
    for i in 0..a.len()
        invariant
            a@.len() == b@.len(),
            forall|j: int| 0 <= j < i ==> a@[j] == b@[j],
    {
        if a[i] != b[i] {
            return false;
        }
    }
    assert(a@ =~= b@);
    true
}

/// The request methods that the API tells apart.
#[derive(Clone, Copy, Debug, PartialEq, Eq, Structural)]
pub enum RequestMethod {
    Get,
    Head,
    Query,
    Other,
}

/// The methods that a `405` reply lists as allowed.
#[derive(Clone, Copy, Debug, PartialEq, Eq, Structural)]
pub enum Allow {
    GetHead,
    GetHeadQuery,
}

impl Allow {
    /// The value of the `Allow` header.
    pub fn header(&self) -> (r: &'static str)
        ensures
            *self == Allow::GetHead ==> r@ == "GET,HEAD"@,
            *self == Allow::GetHeadQuery ==> r@ == "GET,HEAD,QUERY"@,
    {
        match self {
            Allow::GetHead => "GET,HEAD",
            Allow::GetHeadQuery => "GET,HEAD,QUERY",
        }
    }
}

/// What the reverse API does with a request.
pub enum RevAction {
    /// `405` with `Allow: GET,HEAD`
    MethodNotAllowed,
    /// `200` with no content
    HeadOk,
    /// Look the route up and reply with the data
    Get(Route),
}

/// A reply without data: its status, its headers (name, value), and its
/// body.
pub type PlainReply = (u16, Vec<(String, String)>, Vec<u8>);

/// The headers of a reply, as text.
pub open spec fn headers_view(h: Seq<(String, String)>) -> Seq<(Seq<char>, Seq<char>)> {
    h.map_values(|e: (String, String)| (e.0@, e.1@))
}

/// The content type that an `Accept` asks for.
pub open spec fn accept_type(a: Accept) -> Seq<char> {
    match a {
        Accept::Json => "application/json; charset=utf-8"@,
        Accept::Yaml => "application/yaml; charset=utf-8"@,
    }
}

/// The value of the `Allow` header.
pub open spec fn allow_text(a: Allow) -> Seq<char> {
    match a {
        Allow::GetHead => "GET,HEAD"@,
        Allow::GetHeadQuery => "GET,HEAD,QUERY"@,
    }
}

/// The reply to a request for nothing there: `404`, body `404`, as JSON.
pub fn reply_404() -> (r: PlainReply)
    ensures
        r.0 == 404,
        headers_view(r.1@) == seq![
            ("content-length"@, "3"@),
            ("content-type"@, "application/json; charset=utf-8"@),
        ],
        r.2@ == seq![52u8, 48u8, 52u8],
{
    let headers = vec![
        (own("content-length"), own("3")),
        (own("content-type"), own("application/json; charset=utf-8")),
    ];
    assert(headers_view(headers@) =~= seq![
        ("content-length"@, "3"@),
        ("content-type"@, "application/json; charset=utf-8"@),
    ]);
    (404, headers, vec![52u8, 48u8, 52u8])
}

/// The reply to a method that is not served: `405`, the methods that are
/// in `Allow`, body `405`, as JSON.
pub fn reply_405(allow: Allow) -> (r: PlainReply)
    ensures
        r.0 == 405,
        headers_view(r.1@) == seq![
            ("allow"@, allow_text(allow)),
            ("content-length"@, "3"@),
            ("content-type"@, "application/json; charset=utf-8"@),
        ],
        r.2@ == seq![52u8, 48u8, 53u8],
{
    let headers = vec![
        (own("allow"), own(allow.header())),
        (own("content-length"), own("3")),
        (own("content-type"), own("application/json; charset=utf-8")),
    ];
    assert(headers_view(headers@) =~= seq![
        ("allow"@, allow_text(allow)),
        ("content-length"@, "3"@),
        ("content-type"@, "application/json; charset=utf-8"@),
    ]);
    (405, headers, vec![52u8, 48u8, 53u8])
}

/// The reply `200` without content, in the content type that `Accept`
/// asks for.
pub fn reply_200(a: Accept) -> (r: PlainReply)
    ensures
        r.0 == 200,
        headers_view(r.1@) == seq![("content-type"@, accept_type(a))],
        r.2@ == Seq::<u8>::empty(),
{
    let headers = vec![(own("content-type"), own(a.content_type()))];
    assert(headers_view(headers@) =~= seq![("content-type"@, accept_type(a))]);
    (200, headers, Vec::new())
}

/// The reply of the reverse API where it looks nothing up: `405` with
/// `Allow: GET,HEAD` for a method it does not serve, `200` without content
/// for `HEAD`; `None` where it replies with data.
pub fn rev_reply_head(a: Accept, action: &RevAction) -> (r: Option<PlainReply>)
    ensures
        match action {
            RevAction::MethodNotAllowed => r matches Some(p) && p.0 == 405 && headers_view(p.1@) == seq![
                ("allow"@, "GET,HEAD"@),
                ("content-length"@, "3"@),
                ("content-type"@, "application/json; charset=utf-8"@),
            ] && p.2@ == seq![52u8, 48u8, 53u8],
            RevAction::HeadOk => r matches Some(p) && p.0 == 200 && headers_view(p.1@) == seq![
                ("content-type"@, accept_type(a)),
            ] && p.2@ == Seq::<u8>::empty(),
            RevAction::Get(_) => r is None,
        },
{
    match action {
        RevAction::MethodNotAllowed => Some(reply_405(Allow::GetHead)),
        RevAction::HeadOk => Some(reply_200(a)),
        RevAction::Get(_) => None,
    }
}

/// How the reverse API answers a method: only `GET` and `HEAD` are served.
pub open spec fn spec_rev_action_kind(m: RequestMethod) -> int {
    if m == RequestMethod::Get {
        2
    } else if m == RequestMethod::Head {
        1
    } else {
        0
    }
}

/// The reverse API's answer to a request with method `m` for `route`.
pub fn rev_action(m: RequestMethod, route: Route) -> (r: RevAction)
    ensures
        spec_rev_action_kind(m) == 0 <==> r is MethodNotAllowed,
        spec_rev_action_kind(m) == 1 <==> r is HeadOk,
        spec_rev_action_kind(m) == 2 <==> (r matches RevAction::Get(x) && x@ == route@),
{
    if m != RequestMethod::Get && m != RequestMethod::Head {
        return RevAction::MethodNotAllowed;
    }
    if m == RequestMethod::Head {
        return RevAction::HeadOk;
    }
    RevAction::Get(route)
}

/// What the API does with a request.
pub enum ApiAction {
    Tables,
    TableDef(String),
    AllTableRows(String),
    QueryTableRows(String),
    TableRowsByPK(String, String),
    Locale(PathSplit),
    OpenApi,
    SwaggerUI,
    SwaggerUIRedirect,
    Crc(u32),
    Rev(RevAction),
    Res(PathSplit),
    NotFound,
    MethodNotAllowed(Allow),
}

/// Whether `r` is the API's answer to a request with method `m` for the
/// request `rv`: everything but the table rows and the reverse API is
/// served to `GET` alone; the table rows are also served to `QUERY`.
pub open spec fn dispatched(m: RequestMethod, rv: ApiRouteView, r: ApiAction) -> bool {
    match rv {
        ApiRouteView::AllTableRows(n) => if m == RequestMethod::Get {
            r matches ApiAction::AllTableRows(x) && x@ == n
        } else if m == RequestMethod::Query {
            r matches ApiAction::QueryTableRows(x) && x@ == n
        } else {
            r == ApiAction::MethodNotAllowed(Allow::GetHeadQuery)
        },
        ApiRouteView::Rev(rv) => r matches ApiAction::Rev(a) && match a {
            RevAction::MethodNotAllowed => spec_rev_action_kind(m) == 0,
            RevAction::HeadOk => spec_rev_action_kind(m) == 1,
            RevAction::Get(x) => spec_rev_action_kind(m) == 2 && x@ == rv,
        },
        _ => if m != RequestMethod::Get {
            r == ApiAction::MethodNotAllowed(Allow::GetHead)
        } else {
            match rv {
                ApiRouteView::Tables => r is Tables,
                ApiRouteView::TableByName(n) => r matches ApiAction::TableDef(x) && x@ == n,
                ApiRouteView::TableRowsByPK(n, k) => r matches ApiAction::TableRowsByPK(x, y) && x@ == n && y@ == k,
                ApiRouteView::Locale(rest) => r matches ApiAction::Locale(x) && x@ == rest,
                ApiRouteView::OpenApiV0 => r is OpenApi,
                ApiRouteView::SwaggerUI => r is SwaggerUI,
                ApiRouteView::SwaggerUIRedirect => r is SwaggerUIRedirect,
                ApiRouteView::Crc(c) => r == ApiAction::Crc(c),
                ApiRouteView::Res(rest) => r matches ApiAction::Res(x) && x@ == rest,
                _ => false,
            }
        },
    }
}

/// The API's answer to a request with method `m` for `route`.
pub fn dispatch(m: RequestMethod, route: ApiRoute) -> (r: ApiAction)
    ensures
        dispatched(m, route@, r),
{
    match route {
        ApiRoute::AllTableRows(name) => {
            if m == RequestMethod::Get {
                ApiAction::AllTableRows(name)
            } else if m == RequestMethod::Query {
                ApiAction::QueryTableRows(name)
            } else {
                ApiAction::MethodNotAllowed(Allow::GetHeadQuery)
            }
        },
        ApiRoute::Rev(route) => ApiAction::Rev(rev_action(m, route)),
        route => {
            if m != RequestMethod::Get {
                return ApiAction::MethodNotAllowed(Allow::GetHead);
            }
            match route {
                ApiRoute::Tables => ApiAction::Tables,
                ApiRoute::TableByName(n) => ApiAction::TableDef(n),
                ApiRoute::TableRowsByPK(n, k) => ApiAction::TableRowsByPK(n, k),
                ApiRoute::Locale(rest) => ApiAction::Locale(rest),
                ApiRoute::OpenApiV0 => ApiAction::OpenApi,
                ApiRoute::SwaggerUI => ApiAction::SwaggerUI,
                ApiRoute::SwaggerUIRedirect => ApiAction::SwaggerUIRedirect,
                ApiRoute::Crc(c) => ApiAction::Crc(c),
                ApiRoute::Res(rest) => ApiAction::Res(rest),
                ApiRoute::AllTableRows(n) => ApiAction::AllTableRows(n),
                ApiRoute::Rev(r) => ApiAction::Rev(rev_action(m, r)),
            }
        },
    }
}

/// The API's answer to a request with method `m` for the path `path`
/// (after `/api`): `NotFound` when the path names no request.
pub fn handle(m: RequestMethod, path: &str) -> (r: ApiAction)
    ensures
        match spec_api_route(path@) {
            None => r is NotFound,
            Some(rv) => dispatched(m, rv, r),
        },
{
    match ApiRoute::from_str(path) {
        Ok(route) => dispatch(m, route),
        Err(()) => ApiAction::NotFound,
    }
}

} // verus!
