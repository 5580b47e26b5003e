//! From a user's host string to the addresses of the statistics endpoints.
use vstd::prelude::*;
use crate::error::PiholeError;
use crate::text::{begins_with, chars_of, has_prefix_at, trim_bounds, trim_of};

verus! {

broadcast use vstd::string::group_string_axioms;

/// The longest host string, in characters, that the resolvers take.
///
/// The URL parser keeps its offsets in `u32`: `Url::set_path` and
/// `Url::set_query` panic once the serialized address passes 4 GiB. A
/// character serializes to at most 12 bytes (four UTF-8 bytes, each
/// percent-encoded), so a host of this many characters, with a path and a
/// query added, stays below that limit.
pub const MAX_HOST_CHARS: usize = 67108864;

/// Path of the legacy statistics endpoint.
pub open spec fn legacy_path() -> Seq<char> {
    "/admin/api.php"@
}

/// Query of the legacy statistics endpoint.
pub open spec fn legacy_query() -> Seq<char> {
    "summaryRaw"@
}

/// Path of the modern statistics endpoint.
pub open spec fn modern_path() -> Seq<char> {
    "/api/stats/summary"@
}

/// Path of the authentication endpoint.
pub open spec fn auth_path() -> Seq<char> {
    "/api/auth"@
}

/// An address as the URL parser serialized and split it.
#[derive(Clone, Debug)]
pub struct WebAddress {
    /// The whole address, serialized.
    pub href: String,
    /// The scheme, lower case, without `:`.
    pub scheme: String,
    /// The host, as serialized.
    pub host: Option<String>,
    /// The port, when it is not the scheme's default.
    pub port: Option<u16>,
    pub path: String,
    pub query: Option<String>,
}

pub open spec fn opt_view(o: Option<String>) -> Option<Seq<char>> {
    match o {
        Some(s) => Some(s@),
        None => None,
    }
}

pub open spec fn opt_str_view(o: Option<&str>) -> Option<Seq<char>> {
    match o {
        Some(s) => Some(s@),
        None => None,
    }
}

/// Whether the URL parser accepts `s`.
pub uninterp spec fn url_accepts(s: Seq<char>) -> bool;

/// The scheme that the URL parser reads in `s`.
pub uninterp spec fn url_scheme(s: Seq<char>) -> Seq<char>;

/// The host that the URL parser reads in `s`.
pub uninterp spec fn url_host(s: Seq<char>) -> Option<Seq<char>>;

/// The port that the URL parser reads in `s` (none for the scheme's default).
pub uninterp spec fn url_port(s: Seq<char>) -> Option<u16>;

/// The query that the URL parser reads in `s`.
pub uninterp spec fn url_query(s: Seq<char>) -> Option<Seq<char>>;

/// The serialization of `s` parsed, with its path replaced.
pub uninterp spec fn url_href_with_path(s: Seq<char>, path: Seq<char>) -> Seq<char>;

/// The serialization of `s` parsed, with its path and query replaced.
pub uninterp spec fn url_href(s: Seq<char>, path: Seq<char>, query: Option<Seq<char>>) -> Seq<char>;

pub open spec fn is_alnum(c: char) -> bool {
    ('0' <= c && c <= '9') || ('a' <= c && c <= 'z') || ('A' <= c && c <= 'Z')
}

/// A path that the URL parser keeps as written: it starts with `/`, holds
/// only letters, digits, `/`, `_` and `.`, and each `.` stands between two
/// letters or digits (so no segment is `.` or `..`).
pub open spec fn plain_path(p: Seq<char>) -> bool {
    &&& p.len() > 0
    &&& p[0] == '/'
    &&& forall|j: int|
        0 <= j < p.len() ==> {
            ||| is_alnum(#[trigger] p[j])
            ||| p[j] == '/'
            ||| p[j] == '_'
            ||| (p[j] == '.' && 0 < j < p.len() - 1 && is_alnum(p[j - 1]) && is_alnum(p[j + 1]))
        }
}

/// A query that the URL parser keeps as written: letters and digits only.
pub open spec fn plain_query(q: Seq<char>) -> bool {
    forall|j: int| 0 <= j < q.len() ==> is_alnum(#[trigger] q[j])
}

/// Whether `s` names the scheme `http` or `https` explicitly.
pub open spec fn has_web_scheme(s: Seq<char>) -> bool {
    begins_with(s, "http://"@) || begins_with(s, "https://"@)
}

/// The address that `base`, with `path` and `query` in place of its own, denotes.
pub open spec fn locates(a: WebAddress, base: Seq<char>, path: Seq<char>, query: Option<Seq<char>>) -> bool {
    &&& a.href@ == url_href(base, path, query)
    &&& a.scheme@ == url_scheme(base)
    &&& opt_view(a.host) == url_host(base)
    &&& a.port == url_port(base)
    &&& a.path@ == path
    &&& opt_view(a.query) == query
}

/// The address that `base`, with `path` in place of its own, denotes: its
/// query stays.
pub open spec fn locates_keeping_query(a: WebAddress, base: Seq<char>, path: Seq<char>) -> bool {
    &&& a.href@ == url_href_with_path(base, path)
    &&& a.scheme@ == url_scheme(base)
    &&& opt_view(a.host) == url_host(base)
    &&& a.port == url_port(base)
    &&& a.path@ == path
    &&& opt_view(a.query) == url_query(base)
}

/// Relies on url::Url::parse to read `base`, on Url::set_path to replace its
/// path (which keeps the query), and on Url's accessors (as_str, scheme,
/// host_str, port, path, query) to read the result back. For `http` and
/// `https` the scheme reads back lower case as written, and a plain path is
/// kept as given.
#[verifier::external_body]
fn locate_path(base: &str, path: &str) -> (r: Result<WebAddress, url::ParseError>)
    requires
        has_web_scheme(base@),
        base@.len() <= MAX_HOST_CHARS + 8,
        plain_path(path@),
    ensures
        r is Ok <==> url_accepts(base@),
        r matches Ok(a) ==> a.href@ == url_href_with_path(base@, path@),
        r matches Ok(a) ==> a.scheme@ == url_scheme(base@),
        r matches Ok(a) ==> opt_view(a.host) == url_host(base@),
        r matches Ok(a) ==> a.port == url_port(base@),
        r matches Ok(a) ==> a.path@ == path@ && opt_view(a.query) == url_query(base@),
        r is Ok && begins_with(base@, "http://"@) ==> url_scheme(base@) == "http"@,
        r is Ok && begins_with(base@, "https://"@) ==> url_scheme(base@) == "https"@,
{
    let mut u = url::Url::parse(base)?;
    u.set_path(path);
    Ok(WebAddress {
        href: u.as_str().to_string(),
        scheme: u.scheme().to_string(),
        host: u.host_str().map(|h| h.to_string()),
        port: u.port(),
        path: u.path().to_string(),
        query: u.query().map(|q| q.to_string()),
    })
}

/// Relies on url::Url::parse to read `base`, on Url::set_path and
/// Url::set_query to replace its path and query, and on Url's accessors
/// (as_str, scheme, host_str, port, path, query) to read the result back.
/// For `http` and `https` the scheme reads back lower case as written, and a
/// plain path or query is kept as given.
#[verifier::external_body]
fn locate(base: &str, path: &str, query: Option<&str>) -> (r: Result<WebAddress, url::ParseError>)
    requires
        has_web_scheme(base@),
        base@.len() <= MAX_HOST_CHARS + 8,
        plain_path(path@),
        query matches Some(q) ==> plain_query(q@),
    ensures
        r is Ok <==> url_accepts(base@),
        r matches Ok(a) ==> a.href@ == url_href(base@, path@, opt_str_view(query)),
        r matches Ok(a) ==> a.scheme@ == url_scheme(base@),
        r matches Ok(a) ==> opt_view(a.host) == url_host(base@),
        r matches Ok(a) ==> a.port == url_port(base@),
        r matches Ok(a) ==> a.path@ == path@ && opt_view(a.query) == opt_str_view(query),
        r is Ok && begins_with(base@, "http://"@) ==> url_scheme(base@) == "http"@,
        r is Ok && begins_with(base@, "https://"@) ==> url_scheme(base@) == "https"@,
{
    let mut u = url::Url::parse(base)?;
    u.set_path(path);
    u.set_query(query);
    Ok(WebAddress {
        href: u.as_str().to_string(),
        scheme: u.scheme().to_string(),
        host: u.host_str().map(|h| h.to_string()),
        port: u.port(),
        path: u.path().to_string(),
        query: u.query().map(|q| q.to_string()),
    })
}

/// The text handed to the URL parser for a host string: the host trimmed,
/// with `http://` in front unless it names `http://` or `https://` itself.
pub open spec fn base_text(host: Seq<char>) -> Seq<char> {
    let t = trim_of(host);
    if has_web_scheme(t) {
        t
    } else {
        "http://"@ + t
    }
}

/// Whether a host string is unusable: empty once trimmed.
pub open spec fn host_unusable(host: Seq<char>) -> bool {
    trim_of(host).len() == 0
}

/// The scheme that the candidates of `host` carry: `https` where the trimmed
/// host names it, else `http`.
pub open spec fn resolved_scheme(host: Seq<char>) -> Seq<char> {
    if begins_with(trim_of(host), "https://"@) {
        "https"@
    } else {
        "http"@
    }
}

/// What resolving `host` gives: the legacy and modern candidates, or the error.
pub open spec fn resolution(host: Seq<char>, r: Result<(WebAddress, WebAddress), PiholeError>) -> bool {
    if host_unusable(host) {
        r matches Err(PiholeError::InvalidHost(_))
    } else if !url_accepts(base_text(host)) {
        r matches Err(PiholeError::InvalidUrl(_))
    } else {
        &&& r matches Ok((legacy, modern))
        &&& locates(legacy, base_text(host), legacy_path(), Some(legacy_query()))
        &&& locates_keeping_query(modern, base_text(host), modern_path())
        &&& legacy.scheme@ == resolved_scheme(host)
    }
}

proof fn lemma_paths_plain()
    ensures
        plain_path(legacy_path()),
        plain_path(modern_path()),
        plain_path(auth_path()),
        plain_query(legacy_query()),
{
    reveal_strlit("/admin/api.php");
    reveal_strlit("/api/stats/summary");
    reveal_strlit("/api/auth");
    reveal_strlit("summaryRaw");
}

/// The text handed to the URL parser for `host`, once it is known to be usable.
fn base_of(host: &str) -> (r: Result<String, PiholeError>)
    requires
        host@.len() <= MAX_HOST_CHARS,
    ensures
        host_unusable(host@) ==> r matches Err(PiholeError::InvalidHost(_)),
        !host_unusable(host@) ==> (r matches Ok(b) && b@ == base_text(host@) && has_web_scheme(b@)
            && b@.len() <= MAX_HOST_CHARS + 8),
        r matches Ok(b) ==> (begins_with(trim_of(host@), "https://"@) ==> begins_with(
            b@,
            "https://"@,
        )),
        r matches Ok(b) ==> (!begins_with(trim_of(host@), "https://"@) ==> begins_with(
            b@,
            "http://"@,
        )),
{
    let t = chars_of(host);
    let (lo, hi) = trim_bounds(&t);
    if lo == hi {
        return Err(PiholeError::InvalidHost("Host cannot be empty".to_string()));
    }
    let trimmed = host.substring_char(lo, hi);
    let tc = chars_of(trimmed);
    proof {
        reveal_strlit("http://");
        reveal_strlit("https://");
    }
    assert(tc@.subrange(0, tc@.len() as int) =~= tc@);
    if has_prefix_at(&tc, 0, "http://") || has_prefix_at(&tc, 0, "https://") {
        Ok(trimmed.to_string())
    } else {
        let b = "http://".to_string().concat(trimmed);
        assert(begins_with(b@, "http://"@)) by {
            assert(b@.subrange(0, 7) =~= "http://"@);
        }
        Ok(b)
    }
}

impl WebAddress {
    /// The whole address, serialized.
    pub fn as_str(&self) -> (r: &str)
        ensures
            r@ == self.href@,
    {
        self.href.as_str()
    }

    pub fn scheme(&self) -> (r: &str)
        ensures
            r@ == self.scheme@,
    {
        self.scheme.as_str()
    }

    pub fn host_str(&self) -> (r: Option<&str>)
        ensures
            opt_str_view(r) == opt_view(self.host),
    {
        match &self.host {
            Some(h) => Some(h.as_str()),
            None => None,
        }
    }

    pub fn port(&self) -> (r: Option<u16>)
        ensures
            r == self.port,
    {
        self.port
    }

    pub fn path(&self) -> (r: &str)
        ensures
            r@ == self.path@,
    {
        self.path.as_str()
    }

    pub fn query(&self) -> (r: Option<&str>)
        ensures
            opt_str_view(r) == opt_view(self.query),
    {
        match &self.query {
            Some(q) => Some(q.as_str()),
            None => None,
        }
    }
}

/// The parser's text for `host`, with the (legacy, modern) statistics endpoints on it.
pub fn resolve(host: &str) -> (r: Result<(String, WebAddress, WebAddress), PiholeError>)
    requires
        host@.len() <= MAX_HOST_CHARS,
    ensures
        host_unusable(host@) ==> r matches Err(PiholeError::InvalidHost(_)),
        !host_unusable(host@) && !url_accepts(base_text(host@)) ==> r matches Err(
            PiholeError::InvalidUrl(_),
        ),
        !host_unusable(host@) && url_accepts(base_text(host@)) ==> r is Ok,
        r matches Ok(t) ==> {
            &&& t.0@ == base_text(host@)
            &&& has_web_scheme(t.0@)
            &&& t.0@.len() <= MAX_HOST_CHARS + 8
            &&& url_accepts(t.0@)
            &&& locates(t.1, t.0@, legacy_path(), Some(legacy_query()))
            &&& locates_keeping_query(t.2, t.0@, modern_path())
            &&& t.1.scheme@ == resolved_scheme(host@)
        },
{
    let base = base_of(host)?;
    proof {
        lemma_paths_plain();
    }
    let legacy = match locate(base.as_str(), "/admin/api.php", Some("summaryRaw")) {
        Ok(a) => a,
        Err(e) => return Err(PiholeError::InvalidUrl(e)),
    };
    let modern = match locate_path(base.as_str(), "/api/stats/summary") {
        Ok(a) => a,
        Err(e) => return Err(PiholeError::InvalidUrl(e)),
    };
    Ok((base, legacy, modern))
}

/// The address of the authentication endpoint on a base that the parser accepts.
pub fn auth_address(base: &String) -> (r: WebAddress)
    requires
        has_web_scheme(base@),
        base@.len() <= MAX_HOST_CHARS + 8,
        url_accepts(base@),
    ensures
        locates_keeping_query(r, base@, auth_path()),
{
    proof {
        lemma_paths_plain();
    }
    match locate_path(base.as_str(), "/api/auth") {
        Ok(a) => a,
        Err(_) => unreached(),
    }
}

/// Resolves a host string into the (legacy, modern) statistics endpoints.
pub fn parse_pihole_urls(host: &str) -> (r: Result<(WebAddress, WebAddress), PiholeError>)
    requires
        host@.len() <= MAX_HOST_CHARS,
    ensures
        resolution(host@, r),
{
    match resolve(host) {
        Ok((_, legacy, modern)) => Ok((legacy, modern)),
        Err(e) => Err(e),
    }
}

/// The endpoint resolution, under the name that callers outside the crate use.
pub fn parse_pihole_urls_internal(host: &str) -> (r: Result<(WebAddress, WebAddress), PiholeError>)
    requires
        host@.len() <= MAX_HOST_CHARS,
    ensures
        resolution(host@, r),
{
    parse_pihole_urls(host)
}

/// The legacy statistics endpoint for a host string.
pub fn parse_host_internal(host: &str) -> (r: Result<WebAddress, PiholeError>)
    requires
        host@.len() <= MAX_HOST_CHARS,
    ensures
        host_unusable(host@) ==> r matches Err(PiholeError::InvalidHost(_)),
        !host_unusable(host@) && !url_accepts(base_text(host@)) ==> r matches Err(
            PiholeError::InvalidUrl(_),
        ),
        !host_unusable(host@) && url_accepts(base_text(host@)) ==> (r matches Ok(a) && locates(
            a,
            base_text(host@),
            legacy_path(),
            Some(legacy_query()),
        ) && a.scheme@ == resolved_scheme(host@)),
{
    match parse_pihole_urls(host) {
        Ok((legacy, _)) => Ok(legacy),
        Err(e) => Err(e),
    }
}

/// A host without an explicit scheme is read with `http://` in front; one
/// that names `https://` keeps it, and its candidates carry `https`.
pub proof fn lemma_scheme_default(host: Seq<char>, r: Result<(WebAddress, WebAddress), PiholeError>)
    requires
        resolution(host, r),
        !host_unusable(host),
    ensures
        !has_web_scheme(trim_of(host)) ==> base_text(host) == "http://"@ + trim_of(host),
        begins_with(trim_of(host), "https://"@) ==> base_text(host) == trim_of(host),
        r matches Ok((legacy, modern)) ==> {
            &&& !begins_with(trim_of(host), "https://"@) ==> legacy.scheme@ == "http"@
            &&& begins_with(trim_of(host), "https://"@) ==> legacy.scheme@ == "https"@
            &&& modern.scheme@ == legacy.scheme@
            &&& opt_view(modern.host) == opt_view(legacy.host)
            &&& modern.port == legacy.port
        },
{
}

} // verus!
