//! # Authorization
//!
//! Who may use the server: anybody, or, with HTTP basic authentication
//! configured, a request with known credentials, a known API key in its
//! query, or a known user agent.

use vstd::prelude::*;
use crate::api::graphql::own;
use crate::config::AuthConfig;
use crate::strmap::str_same;
use crate::text::{push_str, strip_prefix, str_chars};

verus! {

broadcast use vstd::string::group_string_axioms;

/// The kind of authentication the server asks for.
#[derive(Clone, Copy, Debug, PartialEq, Eq, Structural)]
pub enum AuthKind {
    /// No authentication.
    Off,
    /// HTTP basic authentication.
    Basic,
}

impl AuthKind {
    /// The kind a configuration asks for: basic authentication where it
    /// names users, none otherwise.
    pub fn of(cfg: &Option<AuthConfig>) -> (r: AuthKind)
        ensures
            r == AuthKind::Basic <==> (cfg matches Some(c) && c.basic is Some),
    {
        match cfg {
            Some(c) => match &c.basic {
                Some(_) => AuthKind::Basic,
                None => AuthKind::Off,
            },
            None => AuthKind::Off,
        }
    }
}

/// What HTTP basic authentication lets in.
pub struct BasicCfg {
    /// The base64 of each `user:password`.
    pub allowed_credentials: Vec<String>,
    /// User agents let in as they are.
    pub allowed_bots: Vec<String>,
    /// API keys let in as they are.
    pub allowed_api_keys: Vec<String>,
}

/// How the server authorizes requests.
pub enum AuthImpl {
    /// Every request is let in.
    Off,
    /// HTTP basic authentication.
    Basic(BasicCfg),
}

/// The texts of a list of strings.
pub open spec fn text_set(v: Seq<String>) -> Set<Seq<char>> {
    Set::new(|t: Seq<char>| exists|i: int| 0 <= i < v.len() && #[trigger] v[i]@ == t)
}

/// What base64 (standard alphabet, with padding) makes of the UTF-8 bytes
/// of a text.
pub uninterp spec fn base64_of(text: Seq<char>) -> Seq<char>;

/// Encodes the UTF-8 bytes of `text` in base64.
///
/// Trusted: calls `base64::encode`, whose result is named by `base64_of`;
/// nothing more is claimed of it.
#[verifier::external_body]
fn base64_encode(text: &str) -> (r: String)
    ensures
        r@ == base64_of(text@),
{
    base64::encode(text)
}

/// The credentials that basic authentication accepts for a user and password.
pub open spec fn credential(user: Seq<char>, password: Seq<char>) -> Seq<char> {
    base64_of(user + seq![':'] + password)
}

/// Whether `t` is one of the strings of `v`.
pub fn contains_text(v: &Vec<String>, t: &str) -> (r: bool)
    ensures
        r == text_set(v@).contains(t@),
{
    for i in 0..v.len()
        invariant
            forall|j: int| 0 <= j < i ==> v@[j]@ != t@,
    {
        if str_same(v[i].as_str(), t) {
            assert(v@[i as int]@ == t@);
            return true;
        }
    }
    false
}

/// Copies of the strings.
fn copy_all(v: &Vec<String>) -> (r: Vec<String>)
    ensures
        r@.len() == v@.len(),
        forall|i: int| 0 <= i < v@.len() ==> #[trigger] r@[i]@ == v@[i]@,
{
    let mut r: Vec<String> = Vec::new();
    for i in 0..v.len()
        invariant
            r@.len() == i,
            forall|j: int| 0 <= j < i ==> #[trigger] r@[j]@ == v@[j]@,
    {
        r.push(own(v[i].as_str()));
    }
    r
}

/// Whether `r` is how configuration `cfg` authorizes: basic authentication
/// with the credentials of its users, its user agents and its API keys
/// where it has users, none otherwise.
pub open spec fn auth_impl_for(cfg: Option<AuthConfig>, r: AuthImpl) -> bool {
    match cfg {
        Some(c) => match c.basic {
            Some(users) => (r matches AuthImpl::Basic(b) && text_set(b.allowed_credentials@) == Set::new(
                |t: Seq<char>|
                    exists|i: int|
                        0 <= i < users@.len() && t == #[trigger] credential(users@[i].0@, users@[i].1@),
            ) && text_set(b.allowed_bots@) == text_set(c.user_agents@) && text_set(b.allowed_api_keys@)
                == text_set(c.api_keys@)),
            None => r is Off,
        },
        None => r is Off,
    }
}

impl AuthImpl {
    /// The texts a basic configuration lets in, field by field; empty sets
    /// where authentication is off.
    pub open spec fn credentials(&self) -> Set<Seq<char>> {
        match self {
            AuthImpl::Off => Set::empty(),
            AuthImpl::Basic(c) => text_set(c.allowed_credentials@),
        }
    }

    /// Basic authentication where the configuration has user names and
    /// passwords, no authentication otherwise.
    pub fn new(cfg: Option<&AuthConfig>) -> (r: Self)
        ensures
            auth_impl_for(
                match cfg {
                    Some(c) => Some(*c),
                    None => None,
                },
                r,
            ),
    {
        match cfg {
            Some(auth_cfg) => match &auth_cfg.basic {
                Some(users) => {
                    let mut allowed_credentials: Vec<String> = Vec::new();
                    for i in 0..users.len()
                        invariant
                            allowed_credentials@.len() == i,
                            forall|j: int|
                                0 <= j < i ==> #[trigger] allowed_credentials@[j]@ == credential(
                                    users@[j].0@,
                                    users@[j].1@,
                                ),
                    {
                        let mut text = own(users[i].0.as_str());
                        crate::text::string_push(&mut text, ':');
                        push_str(&mut text, users[i].1.as_str());
                        assert(text@ =~= users@[i as int].0@ + seq![':'] + users@[i as int].1@);
                        allowed_credentials.push(base64_encode(text.as_str()));
                    }
                    let b = BasicCfg {
                        allowed_credentials,
                        allowed_bots: copy_all(&auth_cfg.user_agents),
                        allowed_api_keys: copy_all(&auth_cfg.api_keys),
                    };
                    proof {
                        let want = Set::new(
                            |t: Seq<char>|
                                exists|i: int|
                                    0 <= i < users@.len() && t == #[trigger] credential(
                                        users@[i].0@,
                                        users@[i].1@,
                                    ),
                        );
                        assert forall|t: Seq<char>| #[trigger] text_set(b.allowed_credentials@).contains(t)
                            == want.contains(t) by {
                            if want.contains(t) {
                                let i = choose|i: int|
                                    0 <= i < users@.len() && t == #[trigger] credential(
                                        users@[i].0@,
                                        users@[i].1@,
                                    );
                                assert(b.allowed_credentials@[i]@ == t);
                            }
                            if text_set(b.allowed_credentials@).contains(t) {
                                let i = choose|i: int|
                                    0 <= i < b.allowed_credentials@.len()
                                        && #[trigger] b.allowed_credentials@[i]@ == t;
                                assert(t == credential(users@[i].0@, users@[i].1@));
                            }
                        }
                        assert(text_set(b.allowed_credentials@) =~= want);
                        assert forall|t: Seq<char>| #[trigger] text_set(b.allowed_bots@).contains(t)
                            == text_set(auth_cfg.user_agents@).contains(t) by {
                            if text_set(auth_cfg.user_agents@).contains(t) {
                                let i = choose|i: int|
                                    0 <= i < auth_cfg.user_agents@.len()
                                        && #[trigger] auth_cfg.user_agents@[i]@ == t;
                                assert(b.allowed_bots@[i]@ == t);
                            }
                        }
                        assert(text_set(b.allowed_bots@) =~= text_set(auth_cfg.user_agents@));
                        assert forall|t: Seq<char>| #[trigger] text_set(b.allowed_api_keys@).contains(t)
                            == text_set(auth_cfg.api_keys@).contains(t) by {
                            if text_set(auth_cfg.api_keys@).contains(t) {
                                let i = choose|i: int|
                                    0 <= i < auth_cfg.api_keys@.len()
                                        && #[trigger] auth_cfg.api_keys@[i]@ == t;
                                assert(b.allowed_api_keys@[i]@ == t);
                            }
                        }
                        assert(text_set(b.allowed_api_keys@) =~= text_set(auth_cfg.api_keys@));
                    }
                    AuthImpl::Basic(b)
                },
                None => AuthImpl::Off,
            },
            None => AuthImpl::Off,
        }
    }
}

/// The authorization layer.
pub struct Authorize {
    pub kind: AuthImpl,
}

/// The name and value pairs of a URL query, as `form_urlencoded::parse`
/// decodes them.
pub uninterp spec fn form_pairs_of(query: Seq<char>) -> Seq<(Seq<char>, Seq<char>)>;

/// Decodes the name and value pairs of a URL query.
///
/// Trusted: calls `form_urlencoded::parse`, whose pairs are named by
/// `form_pairs_of`; nothing more is claimed of them.
#[verifier::external_body]
fn form_pairs(query: &str) -> (r: Vec<(String, String)>)
    ensures
        r@.len() == form_pairs_of(query@).len(),
        forall|i: int|
            0 <= i < r@.len() ==> #[trigger] r@[i].0@ == form_pairs_of(query@)[i].0 && r@[i].1@
                == form_pairs_of(query@)[i].1,
{
    form_urlencoded::parse(query.as_bytes()).map(|(k, v)| (k.into_owned(), v.into_owned())).collect()
}

/// What a request shows to be let in: the `Authorization` header, the
/// query and the `User-Agent` header, each where the request has it as
/// text.
pub open spec fn lets_in(
    cfg: BasicCfg,
    authorization: Option<Seq<char>>,
    query: Option<Seq<char>>,
    user_agent: Option<Seq<char>>,
) -> bool {
    ||| (authorization matches Some(a) && a.len() >= 6 && a.take(6) == "Basic "@ && text_set(
        cfg.allowed_credentials@,
    ).contains(a.skip(6)))
    ||| (query matches Some(q) && exists|i: int|
        0 <= i < form_pairs_of(q).len() && (#[trigger] form_pairs_of(q)[i]).0 == "apiKey"@ && text_set(
            cfg.allowed_api_keys@,
        ).contains(form_pairs_of(q)[i].1))
    ||| (user_agent matches Some(u) && text_set(cfg.allowed_bots@).contains(u))
}

impl Authorize {
    /// The layer for a configuration.
    pub fn new(cfg: &Option<AuthConfig>) -> (r: Self)
        ensures
            auth_impl_for(*cfg, r.kind),
    {
        let kind = match cfg {
            Some(c) => AuthImpl::new(Some(c)),
            None => AuthImpl::new(None),
        };
        Authorize { kind }
    }

    /// Whether a request is let in: always without authentication; with
    /// basic authentication, where it has known credentials, a known API key
    /// in its query, or a known user agent.
    pub fn authorize(
        &self,
        authorization: Option<&str>,
        query: Option<&str>,
        user_agent: Option<&str>,
    ) -> (r: bool)
        ensures
            match self.kind {
                AuthImpl::Off => r,
                AuthImpl::Basic(cfg) => r == lets_in(
                    cfg,
                    match authorization {
                        Some(a) => Some(a@),
                        None => None,
                    },
                    match query {
                        Some(q) => Some(q@),
                        None => None,
                    },
                    match user_agent {
                        Some(u) => Some(u@),
                        None => None,
                    },
                ),
            },
    {
        match &self.kind {
            AuthImpl::Off => true,
            AuthImpl::Basic(cfg) => {
                let ghost a_opt = match authorization {
                    Some(a) => Some(a@),
                    None => None,
                };
                let ghost q_opt = match query {
                    Some(q) => Some(q@),
                    None => None,
                };
                let ghost u_opt = match user_agent {
                    Some(u) => Some(u@),
                    None => None,
                };
                let mut ok = false;
                match authorization {
                    Some(a) => {
                        proof {
                            reveal_strlit("Basic ");
                        }
                        let chars = str_chars(a);
                        match strip_prefix(chars.as_slice(), "Basic ") {
                            Some(rest) => {
                                let text = crate::text::chars_to_string(rest.as_slice());
                                if contains_text(&cfg.allowed_credentials, text.as_str()) {
                                    ok = true;
                                }
                            },
                            None => {},
                        }
                    },
                    None => {},
                }
                let ghost by_header = ok;
                assert(by_header == (a_opt matches Some(a) && a.len() >= 6 && a.take(6) == "Basic "@
                    && text_set(cfg.allowed_credentials@).contains(a.skip(6))));
                if !ok {
                    match query {
                        Some(q) => {
                            let pairs = form_pairs(q);
                            let mut i: usize = 0;
                            while i < pairs.len()
                                invariant_except_break
                                    !ok,
                                    forall|j: int|
                                        0 <= j < i ==> !((#[trigger] form_pairs_of(q@)[j]).0 == "apiKey"@
                                            && text_set(cfg.allowed_api_keys@).contains(form_pairs_of(q@)[j].1)),
                                invariant
                                    i <= pairs@.len(),
                                    pairs@.len() == form_pairs_of(q@).len(),
                                    forall|j: int|
                                        0 <= j < pairs@.len() ==> #[trigger] pairs@[j].0@
                                            == form_pairs_of(q@)[j].0 && pairs@[j].1@ == form_pairs_of(q@)[j].1,
                                ensures
                                    ok ==> exists|j: int|
                                        0 <= j < form_pairs_of(q@).len() && (#[trigger] form_pairs_of(q@)[j]).0
                                            == "apiKey"@ && text_set(cfg.allowed_api_keys@).contains(
                                            form_pairs_of(q@)[j].1,
                                        ),
                                    !ok ==> forall|j: int|
                                        0 <= j < form_pairs_of(q@).len() ==> !((#[trigger] form_pairs_of(
                                            q@,
                                        )[j]).0 == "apiKey"@ && text_set(cfg.allowed_api_keys@).contains(
                                            form_pairs_of(q@)[j].1,
                                        )),
                                decreases pairs@.len() - i,
                            {
                                let key_ok = str_same(pairs[i].0.as_str(), "apiKey");
                                if key_ok && contains_text(&cfg.allowed_api_keys, pairs[i].1.as_str()) {
                                    ok = true;
                                    assert(form_pairs_of(q@)[i as int].0 == "apiKey"@);
                                    break;
                                }
                                i = i + 1;
                            }
                        },
                        None => {},
                    }
                }
                let ghost by_query = ok && !by_header;
                if !ok {
                    match user_agent {
                        Some(u) => {
                            if contains_text(&cfg.allowed_bots, u) {
                                ok = true;
                            }
                        },
                        None => {},
                    }
                }
                ok
            },
        }
    }
}

/// The reply that refuses a request the check does not let in: `401`,
/// asking for basic authentication in the `LU-Explorer` realm, with an
/// empty body.
pub fn refusal_reply() -> (r: crate::api::PlainReply)
    ensures
        r.0 == 401,
        crate::api::headers_view(r.1@) == seq![("www-authenticate"@, "Basic realm=\"LU-Explorer\""@)],
        r.2@ == Seq::<u8>::empty(),
{
    let headers = vec![(own("www-authenticate"), own("Basic realm=\"LU-Explorer\""))];
    assert(crate::api::headers_view(headers@) =~= seq![
        ("www-authenticate"@, "Basic realm=\"LU-Explorer\""@),
    ]);
    (401, headers, Vec::new())
}

/// What the authorization check answers.
pub enum CheckOutcome {
    /// The request goes on to the app.
    FallThrough,
    /// The request is refused: status 401, a `WWW-Authenticate` header
    /// with this value, and this HTML body.
    Denied { www_authenticate: &'static str, body: &'static str },
}

/// The answer of an authorization check.
pub struct CheckFuture {
    pub is_allowed: bool,
}

impl CheckFuture {
    /// Lets the request through where it is allowed; refuses it otherwise,
    /// asking for basic authentication in the `LU-Explorer` realm.
    pub fn get(&self) -> (r: CheckOutcome)
        ensures
            self.is_allowed ==> r is FallThrough,
            !self.is_allowed ==> (r matches CheckOutcome::Denied { www_authenticate, body }
                && www_authenticate@ == "Basic realm=\"LU-Explorer\""@ && body@ == "Access denied"@),
    {
        if self.is_allowed {
            CheckOutcome::FallThrough
        } else {
            CheckOutcome::Denied {
                www_authenticate: "Basic realm=\"LU-Explorer\"",
                body: "Access denied",
            }
        }
    }
}

} // verus!
