//! The cross-origin policy of the server.

use vstd::prelude::*;
use crate::api::graphql::own;
use crate::config::CorsOptions;

verus! {

broadcast use vstd::string::group_string_axioms;

/// The origins whose cross-origin requests are allowed.
#[derive(Debug)]
pub enum AllowedOrigins {
    /// Every origin.
    Any,
    /// These origins.
    List(Vec<String>),
}

/// What cross-origin requests may do: the request headers and methods they
/// may use, and the origins they may come from.
#[derive(Debug)]
pub struct CorsPolicy {
    pub allow_headers: Vec<String>,
    pub allow_methods: Vec<String>,
    pub allow_origin: AllowedOrigins,
}

/// Builds a layer from its settings.
pub trait CorsLayerExt<C>: Sized {
    /// The layer for the settings `config`.
    fn configure(config: &C) -> Self;
}

impl CorsLayerExt<CorsOptions> for CorsPolicy {
    /// The `Authorization` header, the methods `OPTIONS`, `GET`, `POST` and
    /// `QUERY`, and every origin or the configured ones.
    fn configure(cfg: &CorsOptions) -> (r: CorsPolicy)
        ensures
            r.allow_headers@.len() == 1,
            r.allow_headers@[0]@ == "authorization"@,
            r.allow_methods@.len() == 4,
            r.allow_methods@[0]@ == "OPTIONS"@,
            r.allow_methods@[1]@ == "GET"@,
            r.allow_methods@[2]@ == "POST"@,
            r.allow_methods@[3]@ == "QUERY"@,
            cfg.all ==> r.allow_origin is Any,
            !cfg.all ==> (r.allow_origin matches AllowedOrigins::List(l) && l@.len()
                == cfg.domains@.len() && forall|i: int|
                0 <= i < l@.len() ==> #[trigger] l@[i]@ == cfg.domains@[i]@),
    {
        let mut allow_headers: Vec<String> = Vec::new();
        allow_headers.push(own("authorization"));
        let mut allow_methods: Vec<String> = Vec::new();
        allow_methods.push(own("OPTIONS"));
        allow_methods.push(own("GET"));
        allow_methods.push(own("POST"));
        allow_methods.push(own("QUERY"));
        let allow_origin = if cfg.all {
            AllowedOrigins::Any
        } else {
            let mut l: Vec<String> = Vec::new();
            for i in 0..cfg.domains.len()
                invariant
                    l@.len() == i,
                    forall|j: int| 0 <= j < i ==> #[trigger] l@[j]@ == cfg.domains@[j]@,
            {
                l.push(own(cfg.domains[i].as_str()));
            }
            AllowedOrigins::List(l)
        };
        CorsPolicy { allow_headers, allow_methods, allow_origin }
    }
}

} // verus!
