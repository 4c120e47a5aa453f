//! # Request routing
//!
//! Which part of the server answers a request: the host redirects, the
//! public directory, the API, the resource files, the static fallback
//! files, and the single page app.

use vstd::prelude::*;
use crate::api::graphql::own;
use crate::config::Config;
use crate::strmap::StrMap;
use crate::text::{is_prefix, push_str, str_chars, strip_prefix, chars_to_string};

verus! {

broadcast use vstd::string::group_string_axioms;

/// The path prefix under which the resource files are served.
pub const RES_PREFIX: &'static str = "/lu-res";

/// The path prefix under which the API is served.
pub const API_PREFIX: &'static str = "/api";

/// The prefix that the fallback files are served under.
pub const FALLBACK_PREFIX: &'static str = "/api/v0";

/// The paths that the fallback files answer: maps and scripts.
pub open spec fn requires_fallback_spec(path: Seq<char>) -> bool {
    is_prefix("/api/v0/maps/"@, path) || is_prefix("/api/v0/scripts/"@, path)
}

/// Whether `path` is answered by the fallback files.
pub fn requires_fallback(path: &str) -> (r: bool)
    ensures
        r == requires_fallback_spec(path@),
{
    let chars = str_chars(path);
    strip_prefix(chars.as_slice(), "/api/v0/maps/").is_some() || strip_prefix(
        chars.as_slice(),
        "/api/v0/scripts/",
    ).is_some()
}

/// The part of the server a request goes to.
pub enum Target {
    /// The fallback files.
    Fallback,
    /// The API, with the rest of the path and query after `/api`.
    Api(String),
    /// The resource files, with the rest of the path and query after `/lu-res`.
    Assets(String),
    /// The single page app.
    App,
}

/// Where a request with this path and query goes: the fallback files for
/// maps and scripts, the API under `/api`, the resource files under
/// `/lu-res`, and the app for everything else (also where the request has
/// no path).
pub open spec fn target_of(path_and_query: Option<Seq<char>>, r: Target) -> bool {
    match path_and_query {
        None => r is App,
        Some(p) => if requires_fallback_spec(p) {
            r is Fallback
        } else if is_prefix("/api"@, p) {
            r matches Target::Api(rest) && rest@ == p.skip(4)
        } else if is_prefix("/lu-res"@, p) {
            r matches Target::Assets(rest) && rest@ == p.skip(7)
        } else {
            r is App
        },
    }
}

/// Decides where a request goes.
pub fn route_request(path_and_query: Option<&str>) -> (r: Target)
    ensures
        target_of(
            match path_and_query {
                Some(p) => Some(p@),
                None => None,
            },
            r,
        ),
{
    proof {
        reveal_strlit("/api");
        reveal_strlit("/lu-res");
    }
    match path_and_query {
        None => Target::App,
        Some(p) => {
            if requires_fallback(p) {
                return Target::Fallback;
            }
            let chars = str_chars(p);
            match strip_prefix(chars.as_slice(), API_PREFIX) {
                Some(rest) => {
                    return Target::Api(chars_to_string(rest.as_slice()));
                },
                None => {},
            }
            match strip_prefix(chars.as_slice(), RES_PREFIX) {
                Some(rest) => Target::Assets(chars_to_string(rest.as_slice())),
                None => Target::App,
            }
        },
    }
}

/// The path that the fallback files look up: the request path without
/// `/api/v0`.
pub fn fallback_path(path: &str) -> (r: String)
    requires
        is_prefix("/api/v0"@, path@),
    ensures
        r@ == path@.skip("/api/v0"@.len() as int),
{
    let chars = str_chars(path);
    let rest = strip_prefix(chars.as_slice(), FALLBACK_PREFIX).unwrap();
    chars_to_string(rest.as_slice())
}

/// How requests to one host are handled.
pub struct RedirectPolicy {
    /// Whether they are redirected to the canonical host.
    pub redirect: bool,
    /// The path prefix they must have, which is dropped.
    pub base: Option<String>,
}

/// The redirect settings: per host name its policy, and the canonical
/// domain and base path.
pub struct RedirectCore {
    pub hosts: StrMap<RedirectPolicy>,
    pub canonical_domain: String,
    pub canonical_base: String,
}

impl RedirectCore {
    /// The redirect settings of a configuration: the last entry for a host
    /// name counts.
    pub fn new(cfg: &Config) -> (r: Self)
        ensures
            r.canonical_domain@ == cfg.general.domain@,
            r.canonical_base@ == (match cfg.general.base {
                Some(b) => b@,
                None => Seq::empty(),
            }),
            forall|name: Seq<char>| #[trigger]
                r.hosts.view().contains_key(name) <==> exists|i: int|
                    0 <= i < cfg.host@.len() && cfg.host@[i].name@ == name,
            forall|i: int|
                0 <= i < cfg.host@.len() && (forall|j: int|
                    i < j < cfg.host@.len() ==> cfg.host@[j].name@ != cfg.host@[i].name@) ==> {
                    let p = #[trigger] r.hosts.view()[cfg.host@[i].name@];
                    p.redirect == cfg.host@[i].redirect && crate::api::graphql::opt_str(p.base)
                        == crate::api::graphql::opt_str(cfg.host@[i].base)
                },
    {
        let canonical_domain = own(cfg.general.domain.as_str());
        let canonical_base = match &cfg.general.base {
            Some(b) => own(b.as_str()),
            None => String::new(),
        };
        let mut hosts: StrMap<RedirectPolicy> = StrMap::new();
        assert(hosts.view() =~= Map::<Seq<char>, RedirectPolicy>::empty());
        for k in 0..cfg.host.len()
            invariant
                forall|name: Seq<char>| #[trigger]
                    hosts.view().contains_key(name) <==> exists|i: int|
                        0 <= i < k && cfg.host@[i].name@ == name,
                forall|i: int|
                    0 <= i < k && (forall|j: int| i < j < k ==> cfg.host@[j].name@ != cfg.host@[i].name@)
                        ==> {
                        let p = #[trigger] hosts.view()[cfg.host@[i].name@];
                        p.redirect == cfg.host@[i].redirect && crate::api::graphql::opt_str(p.base)
                            == crate::api::graphql::opt_str(cfg.host@[i].base)
                    },
        {
            let h = &cfg.host[k];
            let base = match &h.base {
                Some(b) => Some(own(b.as_str())),
                None => None,
            };
            hosts.put(own(h.name.as_str()), RedirectPolicy { redirect: h.redirect, base });
            proof {
                assert forall|name: Seq<char>| #[trigger] hosts.view().contains_key(name) <==> exists|i: int|
                    0 <= i < k + 1 && cfg.host@[i].name@ == name by {
                    if name == h.name@ {
                        assert(cfg.host@[k as int].name@ == name);
                    }
                }
            }
        }
        RedirectCore { hosts, canonical_domain, canonical_base }
    }
}

/// The path a redirect leads to: the canonical base, a slash where it
/// does not end in one, then the request path.
pub open spec fn redirect_path(base: Seq<char>, path: Seq<char>) -> Seq<char> {
    let start = seq!['/'] + base;
    if start.last() == '/' {
        start + path
    } else {
        start + seq!['/'] + path
    }
}

/// The `Location` of a redirect: https, the canonical domain, and the
/// redirect path.
pub open spec fn location_of(domain: Seq<char>, base: Seq<char>, path: Seq<char>) -> Seq<char> {
    "https://"@ + domain + redirect_path(base, path)
}

/// The `Location` of a redirect to the canonical domain and base.
pub fn redirect_location(domain: &str, base: &str, path: &str) -> (r: String)
    ensures
        r@ == location_of(domain@, base@, path@),
{
    let mut new_path = String::new();
    crate::text::string_push(&mut new_path, '/');
    push_str(&mut new_path, base);
    let chars = str_chars(new_path.as_str());
    let ghost start = new_path@;
    assert(start =~= seq!['/'] + base@);
    if chars[chars.len() - 1] != '/' {
        crate::text::string_push(&mut new_path, '/');
    }
    push_str(&mut new_path, path);
    let mut r = own("https://");
    push_str(&mut r, domain);
    push_str(&mut r, new_path.as_str());
    assert(new_path@ =~= redirect_path(base@, path@));
    r
}

/// What the host redirects do with a request.
pub enum RedirectAction {
    /// Pass it on unchanged.
    Pass,
    /// Pass it on with this path.
    PassWithPath(String),
    /// Answer 404: the path lacks the host's base.
    NotFound,
    /// Answer 308 with this `Location`.
    Redirect(String),
}

/// What happens to a request to host `host` (if the request names one)
/// with path `path`.
pub open spec fn redirect_action_of(
    core: RedirectCore,
    host: Option<Seq<char>>,
    path: Seq<char>,
    r: RedirectAction,
) -> bool {
    match host {
        None => r is Pass,
        Some(h) => if !core.hosts.view().contains_key(h) {
            r is Pass
        } else {
            let p = core.hosts.view()[h];
            let base_ok = match p.base {
                Some(b) => is_prefix(b@, path),
                None => true,
            };
            let rest = match p.base {
                Some(b) => path.skip(b@.len() as int),
                None => path,
            };
            if !base_ok {
                r is NotFound
            } else if p.redirect {
                r matches RedirectAction::Redirect(l) && l@ == location_of(
                    core.canonical_domain@,
                    core.canonical_base@,
                    rest,
                )
            } else {
                r matches RedirectAction::PassWithPath(np) && np@ == rest
            }
        },
    }
}

/// Decides what the host redirects do with a request.
pub fn redirect_action(core: &RedirectCore, host: Option<&str>, path: &str) -> (r: RedirectAction)
    ensures
        redirect_action_of(
            *core,
            match host {
                Some(h) => Some(h@),
                None => None,
            },
            path@,
            r,
        ),
{
    match host {
        None => RedirectAction::Pass,
        Some(h) => match core.hosts.get(h) {
            None => RedirectAction::Pass,
            Some(policy) => {
                let rest: String = match &policy.base {
                    Some(b) => {
                        let chars = str_chars(path);
                        match strip_prefix(chars.as_slice(), b.as_str()) {
                            Some(inner) => chars_to_string(inner.as_slice()),
                            None => {
                                return RedirectAction::NotFound;
                            },
                        }
                    },
                    None => own(path),
                };
                if policy.redirect {
                    RedirectAction::Redirect(
                        redirect_location(
                            core.canonical_domain.as_str(),
                            core.canonical_base.as_str(),
                            rest.as_str(),
                        ),
                    )
                } else {
                    RedirectAction::PassWithPath(rest)
                }
            },
        },
    }
}

/// The layer that applies the host redirects.
pub struct RedirectLayer {
    pub core: RedirectCore,
}

impl RedirectLayer {
    /// The layer for a configuration.
    pub fn new(cfg: &Config) -> (r: Self)
        ensures
            r.core.canonical_domain@ == cfg.general.domain@,
    {
        RedirectLayer { core: RedirectCore::new(cfg) }
    }
}

/// The layer that answers from the public directory first.
pub struct PublicOrLayer {
    /// The public directory.
    pub path: String,
}

impl PublicOrLayer {
    /// The layer for a public directory.
    pub fn new(path: String) -> (r: Self)
        ensures
            r.path@ == path@,
    {
        PublicOrLayer { path }
    }
}

/// Whether the inner service answers, given the status of the public
/// directory's answer: only where the public directory has no such file.
pub fn public_falls_through(status: u16) -> (r: bool)
    ensures
        r == (status == 404),
{
    status == 404
}

} // verus!
