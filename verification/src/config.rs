//! # Configuration
//!
//! The settings of the server, as its TOML configuration file gives them.
//! Paths are kept as the text the file holds.

use vstd::prelude::*;
use crate::api::graphql::own;
use crate::text::push_str;

verus! {

broadcast use vstd::string::group_string_axioms;

/// The port the server listens on, unless the configuration names one.
pub fn default_port() -> (r: u16)
    ensures
        r == 3030,
{
    3030
}

/// The lu-res cache directory, unless the configuration names one.
pub fn default_lu_res_cache() -> (r: String)
    ensures
        r@ == "lu-res"@,
{
    own("lu-res")
}

/// The lu-json cache directory, unless the configuration names one.
pub fn default_lu_json_cache() -> (r: String)
    ensures
        r@ == "lu-json"@,
{
    own("lu-json")
}

/// The public directory, unless the configuration names one.
pub fn default_public() -> (r: String)
    ensures
        r@ == "public"@,
{
    own("public")
}

/// The default of a flag that is off unless set.
pub fn no() -> (r: bool)
    ensures
        r == false,
{
    false
}

/// Whether a character may stand in an HTTP header value: its UTF-8 bytes
/// are all visible ASCII, tab, or from 128 up.
pub open spec fn header_char(c: char) -> bool {
    (c as u32 >= 32 && c as u32 != 127) || c as u32 == 9
}

/// Whether a text may be an HTTP header value, as `http::HeaderValue`
/// decides it.
pub open spec fn header_text(s: Seq<char>) -> bool {
    forall|i: int| 0 <= i < s.len() ==> #[trigger] header_char(s[i])
}

/// Whether a text may be an HTTP header value.
pub fn is_header_value(s: &str) -> (r: bool)
    ensures
        r == header_text(s@),
{
    let chars = crate::text::str_chars(s);
    for i in 0..chars.len()
        invariant
            chars@ == s@,
            forall|j: int| 0 <= j < i ==> #[trigger] header_char(chars@[j]),
    {
        let x = chars[i] as u32;
        if !((x >= 32 && x != 127) || x == 9) {
            assert(!header_char(chars@[i as int]));
            return false;
        }
    }
    true
}

/// Checks the allowed cross-origin domains: each must be a valid header
/// value; the error names the first that is not.
pub fn header_values(items: Vec<String>) -> (r: Result<Vec<String>, usize>)
    ensures
        r matches Ok(v) ==> v@ == items@ && forall|i: int|
            0 <= i < items@.len() ==> header_text(#[trigger] items@[i]@),
        r matches Err(k) ==> k < items@.len() && (forall|i: int|
            0 <= i < k ==> header_text(#[trigger] items@[i]@)) && !header_text(items@[k as int]@),
{
    for i in 0..items.len()
        invariant
            forall|q: int| 0 <= q < i ==> header_text(#[trigger] items@[q]@),
    {
        if !is_header_value(items[i].as_str()) {
            return Err(i);
        }
    }
    Ok(items)
}

/// Cross-origin settings.
pub struct CorsOptions {
    /// Whether every origin is allowed.
    pub all: bool,
    /// The origins allowed otherwise.
    pub domains: Vec<String>,
}

impl Default for CorsOptions {
    /// Every origin is allowed.
    fn default() -> (r: Self)
        ensures
            r.all,
            r.domains@.len() == 0,
    {
        CorsOptions { all: true, domains: Vec::new() }
    }
}

/// The general settings.
pub struct GeneralOptions {
    /// The port for the server.
    pub port: u16,
    /// Bind to `0.0.0.0` instead of `127.0.0.1`.
    pub public: bool,
    /// The allowed cross-origin domains.
    pub cors: CorsOptions,
    /// The base of the path.
    pub base: Option<String>,
    /// The canonical domain.
    pub domain: String,
    /// Whether this is served via https.
    pub secure: bool,
}

impl GeneralOptions {
    /// The URL scheme the server is reached by.
    pub fn scheme(&self) -> (r: &'static str)
        ensures
            self.secure ==> r@ == "https"@,
            !self.secure ==> r@ == "http"@,
    {
        if self.secure {
            "https"
        } else {
            "http"
        }
    }

    /// The address to bind to: every interface where the server is public,
    /// the loopback interface otherwise.
    pub fn ip(&self) -> (r: [u8; 4])
        ensures
            self.public ==> r@ == seq![0u8, 0, 0, 0],
            !self.public ==> r@ == seq![127u8, 0, 0, 1],
    {
        if self.public {
            let r = [0u8, 0, 0, 0];
            assert(r@ =~= seq![0u8, 0, 0, 0]);
            r
        } else {
            let r = [127u8, 0, 0, 1];
            assert(r@ =~= seq![127u8, 0, 0, 1]);
            r
        }
    }

    /// The canonical base URL: the scheme, the domain, and the base path
    /// without its trailing slashes (nothing where that leaves it empty);
    /// so no trailing slash follows a domain that ends in none.
    pub fn base_url(&self) -> (r: String)
        ensures
            r@ == (if self.secure {
                "https"@
            } else {
                "http"@
            }) + "://"@ + self.domain@ + base_tail(self.base),
            self.domain@.len() > 0 && self.domain@.last() != '/' ==> r@.last() != '/',
    {
        let mut start = own(self.scheme());
        push_str(&mut start, "://");
        push_str(&mut start, self.domain.as_str());
        let ghost head = start@;
        match &self.base {
            Some(b) => {
                let c = crate::text::str_chars(b.as_str());
                let mut end = c.len();
                assert(c@.take(end as int) =~= c@);
                while end > 0 && c[end - 1] == '/'
                    invariant
                        end <= c@.len(),
                        without_trailing_slashes(c@) == without_trailing_slashes(c@.take(end as int)),
                    decreases end,
                {
                    assert(c@.take(end - 1) =~= c@.take(end as int).drop_last());
                    end = end - 1;
                }
                let ghost t = c@.take(end as int);
                assert(without_trailing_slashes(t) == t);
                if end > 0 {
                    crate::text::string_push(&mut start, '/');
                    let ghost slash = start@;
                    for i in 0..end
                        invariant
                            end <= c@.len(),
                            start@ == slash + c@.take(i as int),
                    {
                        crate::text::string_push(&mut start, c[i]);
                        assert(c@.take(i + 1) =~= c@.take(i as int).push(c@[i as int]));
                    }
                    assert(start@ =~= head + (seq!['/'] + t));
                } else {
                    assert(start@ =~= head + Seq::<char>::empty());
                }
            },
            None => {
                assert(start@ =~= head + Seq::<char>::empty());
            },
        }
        proof {
            reveal_strlit("https");
            reveal_strlit("http");
            reveal_strlit("://");
            if self.domain@.len() > 0 && self.domain@.last() != '/' {
                if self.base is Some {
                    lemma_no_trailing_slash(self.base->0@);
                }
            }
        }
        start
    }
}

/// The text without its trailing slashes.
pub open spec fn without_trailing_slashes(s: Seq<char>) -> Seq<char>
    decreases s.len(),
{
    if s.len() > 0 && s.last() == '/' {
        without_trailing_slashes(s.drop_last())
    } else {
        s
    }
}

/// The path part of the base URL: a slash and the base without its
/// trailing slashes, or nothing where that leaves nothing.
pub open spec fn base_tail(base: Option<String>) -> Seq<char> {
    match base {
        Some(b) => if without_trailing_slashes(b@).len() > 0 {
            seq!['/'] + without_trailing_slashes(b@)
        } else {
            Seq::empty()
        },
        None => Seq::empty(),
    }
}

/// What is left after the trailing slashes ends in none.
pub proof fn lemma_no_trailing_slash(s: Seq<char>)
    ensures
        without_trailing_slashes(s).len() > 0 ==> without_trailing_slashes(s).last() != '/',
    decreases s.len(),
{
    if s.len() > 0 && s.last() == '/' {
        lemma_no_trailing_slash(s.drop_last());
    }
}

/// The TLS settings.
pub struct TlsOptions {
    /// Whether TLS is enabled.
    pub enabled: bool,
    /// The private key file.
    pub key: String,
    /// The certificate file.
    pub cert: String,
}

/// Where the data lives.
pub struct DataOptions {
    /// The public directory.
    pub public: String,
    /// The `client/res` directory.
    pub res: Option<String>,
    /// The `versions` directory.
    pub versions: Option<String>,
    /// The CDClient database FDB file.
    pub cdclient: String,
    /// The lu-explorer static files.
    pub explorer_spa: String,
    /// The lu-res cache path.
    pub lu_res_cache: String,
    /// The lu-json cache path.
    pub lu_json_cache: String,
    /// The LU-Res prefix.
    pub lu_res_prefix: Option<String>,
    /// The locale.xml file.
    pub locale: String,
    /// The sqlite file to serve SQL queries from.
    pub sqlite: String,
}

/// A host name the server answers to.
pub struct HostConfig {
    pub name: String,
    /// Whether requests to this host are redirected to the canonical one.
    pub redirect: bool,
    pub base: Option<String>,
}

/// Who may use the server.
pub struct AuthConfig {
    /// User names with their passwords, for HTTP basic authentication.
    pub basic: Option<Vec<(String, String)>>,
    /// User agents let in without credentials.
    pub user_agents: Vec<String>,
    /// API keys that let a request in.
    pub api_keys: Vec<String>,
}

/// The whole configuration.
pub struct Config {
    pub general: GeneralOptions,
    pub tls: Option<TlsOptions>,
    pub data: DataOptions,
    pub host: Vec<HostConfig>,
    pub auth: Option<AuthConfig>,
}

impl Config {
    /// Whether the settings turn TLS on, which the server does not offer:
    /// it refuses to start then.
    pub fn wants_tls(&self) -> (r: bool)
        ensures
            r == (self.tls matches Some(t) && t.enabled),
    {
        match &self.tls {
            Some(t) => t.enabled,
            None => false,
        }
    }
}

/// The command line options.
pub struct Options {
    /// The configuration file.
    pub cfg: String,
}

} // verus!
