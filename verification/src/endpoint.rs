//! Validated, normalized base network addresses.
//!
//! An [`Endpoint`] is a URI reduced to a canonical base address: a scheme
//! (defaulted to `https` when the input has none), a mandatory authority, and
//! an optional path. A query component is never allowed. Request targets are
//! built from the base by a join that normalizes duplicate and trailing
//! slashes.

use vstd::prelude::*;
use vstd::string::*;

verus! {

// What http's URI parser decides about a string is a pure function of that
// string; these names stand for its outcome so that contracts can speak of
// it exactly without restating the grammar.
pub uninterp spec fn uri_parse_ok(s: Seq<char>) -> bool;

pub uninterp spec fn uri_scheme_of(s: Seq<char>) -> Option<Seq<char>>;

pub uninterp spec fn uri_authority_of(s: Seq<char>) -> Option<Seq<char>>;

pub uninterp spec fn uri_host_of(s: Seq<char>) -> Option<Seq<char>>;

pub uninterp spec fn uri_port_of(s: Seq<char>) -> Option<u16>;

pub uninterp spec fn uri_path_of(s: Seq<char>) -> Seq<char>;

pub uninterp spec fn uri_query_of(s: Seq<char>) -> Option<Seq<char>>;

#[verifier::external_type_specification]
#[verifier::external_body]
pub struct ExUri(http::Uri);

/// The components of a parsed URI, each as a plain value.
#[derive(Debug, Clone)]
pub struct UriParts {
    pub scheme: Option<String>,
    pub authority: Option<String>,
    pub host: Option<String>,
    pub port: Option<u16>,
    pub path: String,
    pub query: Option<String>,
}

pub open spec fn opt_str_view(o: Option<String>) -> Option<Seq<char>> {
    match o {
        Some(s) => Some(s@),
        None => None,
    }
}

/// Relies on `str::parse::<http::Uri>` and the accessors `Uri::scheme_str`,
/// `Uri::authority`, `Uri::host`, `Uri::port_u16`, `Uri::path` and
/// `Uri::query`: parsing is a pure function of the input string, a host is
/// reported exactly when an authority is, and each accessor hands back the
/// corresponding component of the parsed value.
#[verifier::external_body]
pub(crate) fn parse_uri(s: &str) -> (r: Option<(UriParts, http::Uri)>)
    ensures
        r is Some <==> uri_parse_ok(s@),
        r matches Some(p) ==> opt_str_view(p.0.scheme) == uri_scheme_of(s@),
        r matches Some(p) ==> opt_str_view(p.0.authority) == uri_authority_of(s@),
        r matches Some(p) ==> opt_str_view(p.0.host) == uri_host_of(s@),
        r matches Some(p) ==> p.0.port == uri_port_of(s@),
        r matches Some(p) ==> p.0.path@ == uri_path_of(s@),
        r matches Some(p) ==> opt_str_view(p.0.query) == uri_query_of(s@),
        r matches Some(p) ==> (p.0.host is Some <==> p.0.authority is Some),
{
    match s.parse::<http::Uri>() {
        Ok(u) => Some((
            UriParts {
                scheme: u.scheme_str().map(|x| x.to_owned()),
                authority: u.authority().map(|a| a.as_str().to_owned()),
                host: u.host().map(|h| h.to_owned()),
                port: u.port_u16(),
                path: u.path().to_owned(),
                query: u.query().map(|q| q.to_owned()),
            },
            u,
        )),
        Err(_) => None,
    }
}

/// Why an input could not become an endpoint.
#[derive(Debug, Clone, PartialEq, Eq)]
pub enum EndpointError {
    /// The input has no host to deliver to.
    MissingAuthority,
    /// The input carries a query string; endpoints must be base addresses.
    HasQuery,
    /// The input is not a URI at all, or a joined target is not one.
    Invalid,
}

/// `scheme://authority/path` with the authority mandatory, `https` the
/// default scheme, and the path optional. A parse can report an empty
/// component — the authority `:80` has an empty host — and the constructor
/// treats an empty scheme, authority or host as absent.
#[derive(Debug, Clone, PartialEq, Eq)]
pub struct Endpoint {
    pub scheme: String,
    pub authority: String,
    pub host: String,
    pub path: String,
}

/// An authority (and with it a host) was found and is non-empty.
pub open spec fn authority_present_v(auth: Option<Seq<char>>, host: Option<Seq<char>>) -> bool {
    match (auth, host) {
        (Some(a), Some(h)) => a.len() > 0 && h.len() > 0,
        _ => false,
    }
}

pub open spec fn authority_present(p: UriParts) -> bool {
    authority_present_v(opt_str_view(p.authority), opt_str_view(p.host))
}

/// The scheme an endpoint ends up with: the parsed one, or `https`.
pub open spec fn norm_scheme_v(scheme: Option<Seq<char>>) -> Seq<char> {
    match scheme {
        Some(s) => if s.len() > 0 {
            s
        } else {
            "https"@
        },
        None => "https"@,
    }
}

/// The endpoint `e` is the normal form of the parts `p`.
pub open spec fn is_normalized(e: Endpoint, p: UriParts) -> bool {
    &&& e.scheme@ == norm_scheme_v(opt_str_view(p.scheme))
    &&& opt_str_view(p.authority) == Some(e.authority@)
    &&& opt_str_view(p.host) == Some(e.host@)
    &&& e.path@ == p.path@
}

impl Endpoint {
    /// Normalizes parsed URI parts into an endpoint.
    ///
    /// Fails with `MissingAuthority` when no (non-empty) authority was
    /// found, and with `HasQuery` when the input carried a query string.
    /// When no scheme is present, `https` is substituted silently.
    pub fn new(uri: UriParts) -> (r: Result<Endpoint, EndpointError>)
        ensures
            !authority_present(uri) <==> r == Err::<Endpoint, _>(EndpointError::MissingAuthority),
            authority_present(uri) ==> (uri.query is Some <==> r == Err::<Endpoint, _>(
                EndpointError::HasQuery,
            )),
            authority_present(uri) && uri.query is None ==> (r matches Ok(e) && is_normalized(
                e,
                uri,
            )),
    {
        let (authority, host) = match (uri.authority, uri.host) {
            (Some(a), Some(h)) => if !a.as_str().is_empty() && !h.as_str().is_empty() {
                (a, h)
            } else {
                return Err(EndpointError::MissingAuthority);
            },
            _ => { return Err(EndpointError::MissingAuthority) },
        };
        if uri.query.is_some() {
            return Err(EndpointError::HasQuery);
        }
        let scheme = match uri.scheme {
            Some(s) => if !s.as_str().is_empty() {
                s
            } else {
                String::from_str("https")
            },
            None => String::from_str("https"),
        };
        Ok(Endpoint { scheme, authority, host, path: uri.path })
    }

    /// Parses a string and normalizes it as [`Endpoint::new`] does; a string
    /// the parser refuses fails with `Invalid`.
    pub fn from_str(uri: &str) -> (r: Result<Endpoint, EndpointError>)
        ensures
            !uri_parse_ok(uri@) <==> r == Err::<Endpoint, _>(EndpointError::Invalid),
            uri_parse_ok(uri@) ==> (!authority_present_v(
                uri_authority_of(uri@),
                uri_host_of(uri@),
            ) <==> r == Err::<Endpoint, _>(EndpointError::MissingAuthority)),
            uri_parse_ok(uri@) && authority_present_v(uri_authority_of(uri@), uri_host_of(uri@))
                ==> (uri_query_of(uri@) is Some <==> r == Err::<Endpoint, _>(
                EndpointError::HasQuery,
            )),
            uri_parse_ok(uri@) && authority_present_v(uri_authority_of(uri@), uri_host_of(uri@))
                && uri_query_of(uri@) is None ==> (r matches Ok(e) && {
                &&& e.scheme@ == norm_scheme_v(uri_scheme_of(uri@))
                &&& Some(e.authority@) == uri_authority_of(uri@)
                &&& Some(e.host@) == uri_host_of(uri@)
                &&& e.path@ == uri_path_of(uri@)
            }),
    {
        match parse_uri(uri) {
            Some(p) => Self::new(p.0),
            None => Err(EndpointError::Invalid),
        }
    }

    /// [`Endpoint::from_str`] for an address written into the program; the
    /// caller treats an error as fatal at startup.
    pub fn from_static(endpoint: &'static str) -> (r: Result<Endpoint, EndpointError>)
        ensures
            !uri_parse_ok(endpoint@) <==> r == Err::<Endpoint, _>(EndpointError::Invalid),
            uri_parse_ok(endpoint@) ==> (!authority_present_v(
                uri_authority_of(endpoint@),
                uri_host_of(endpoint@),
            ) <==> r == Err::<Endpoint, _>(EndpointError::MissingAuthority)),
            uri_parse_ok(endpoint@) && authority_present_v(
                uri_authority_of(endpoint@),
                uri_host_of(endpoint@),
            ) ==> (uri_query_of(endpoint@) is Some <==> r == Err::<Endpoint, _>(
                EndpointError::HasQuery,
            )),
            uri_parse_ok(endpoint@) && authority_present_v(
                uri_authority_of(endpoint@),
                uri_host_of(endpoint@),
            ) && uri_query_of(endpoint@) is None ==> (r matches Ok(e) && {
                &&& e.scheme@ == norm_scheme_v(uri_scheme_of(endpoint@))
                &&& Some(e.authority@) == uri_authority_of(endpoint@)
                &&& Some(e.host@) == uri_host_of(endpoint@)
                &&& e.path@ == uri_path_of(endpoint@)
            }),
    {
        Self::from_str(endpoint)
    }

    /// The host of the endpoint's authority.
    pub fn host(&self) -> (r: &str)
        ensures
            r@ == self.host@,
    {
        self.host.as_str()
    }

    /// The endpoint written back out as `scheme://authority<path>`.
    pub fn to_uri_string(&self) -> (r: String)
        ensures
            r@ == self.scheme@ + "://"@ + self.authority@ + self.path@,
    {
        let mut s = self.scheme.clone();
        s.append("://");
        s.append(self.authority.as_str());
        s.append(self.path.as_str());
        proof {
            assert(s@ =~= self.scheme@ + "://"@ + self.authority@ + self.path@);
        }
        s
    }

    /// Builds the full URI string `scheme://authority<pq>` and asks the
    /// parser to validate it.
    fn build(&self, path_and_query: &str) -> (r: Result<http::Uri, EndpointError>)
        ensures
            r is Ok <==> uri_parse_ok(full_uri_view(self, join_spec(self.path@, path_and_query@))),
            r is Err ==> r == Err::<http::Uri, _>(EndpointError::Invalid),
    {
        let joined = join_paths(self.path.as_str(), path_and_query);
        let mut full = self.scheme.clone();
        full.append("://");
        full.append(self.authority.as_str());
        full.append(joined.as_str());
        proof {
            assert(full@ =~= full_uri_view(self, join_spec(self.path@, path_and_query@)));
        }
        match parse_uri(full.as_str()) {
            Some(p) => Ok(p.1),
            None => Err(EndpointError::Invalid),
        }
    }

    /// Joins the endpoint's base path with a caller-supplied relative path
    /// and query, so that exactly one slash separates the base path from the
    /// relative one. An empty query is omitted entirely. Fails with
    /// `Invalid` when the joined string is not a legal URI.
    pub fn build_uri(&self, path: &str, query: &str) -> (r: Result<http::Uri, EndpointError>)
        ensures
            r is Ok <==> uri_parse_ok(
                full_uri_view(self, join_spec(self.path@, path_query_view(path@, query@))),
            ),
            r is Err ==> r == Err::<http::Uri, _>(EndpointError::Invalid),
    {
        if query.is_empty() {
            self.build(path)
        } else {
            let mut pq = String::from_str(path);
            pq.append("?");
            pq.append(query);
            self.build(pq.as_str())
        }
    }

    /// [`Endpoint::build_uri`] for a path written into the program, which
    /// may already carry a query; the caller treats an error as fatal.
    pub fn build_uri_static(&self, path_and_query: &'static str) -> (r: Result<
        http::Uri,
        EndpointError,
    >)
        ensures
            r is Ok <==> uri_parse_ok(
                full_uri_view(self, join_spec(self.path@, path_and_query@)),
            ),
            r is Err ==> r == Err::<http::Uri, _>(EndpointError::Invalid),
    {
        self.build(path_and_query)
    }
}

/// The relative target handed to the join: the path, with `?query` attached
/// only when the query is non-empty.
pub open spec fn path_query_view(path: Seq<char>, query: Seq<char>) -> Seq<char> {
    if query.len() == 0 {
        path
    } else {
        path + "?"@ + query
    }
}

/// The full URI string an endpoint builds for a joined target.
pub open spec fn full_uri_view(e: &Endpoint, pq: Seq<char>) -> Seq<char> {
    e.scheme@ + "://"@ + e.authority@ + pq
}

pub open spec fn trim_leading_slashes(s: Seq<char>) -> Seq<char>
    decreases s.len(),
{
    if s.len() > 0 && s[0] == '/' {
        trim_leading_slashes(s.drop_first())
    } else {
        s
    }
}

pub open spec fn trim_trailing_slashes(s: Seq<char>) -> Seq<char>
    decreases s.len(),
{
    if s.len() > 0 && s.last() == '/' {
        trim_trailing_slashes(s.drop_last())
    } else {
        s
    }
}

/// The joined path: the base path stripped of outer slashes, then the
/// relative path stripped of leading slashes, with exactly one slash before
/// each part. A base path that is empty once stripped contributes nothing,
/// so the separator is never doubled.
pub open spec fn join_spec(base: Seq<char>, rel: Seq<char>) -> Seq<char> {
    let b = trim_leading_slashes(trim_trailing_slashes(base));
    if b.len() == 0 {
        "/"@ + trim_leading_slashes(rel)
    } else {
        "/"@ + b + "/"@ + trim_leading_slashes(rel)
    }
}

proof fn lemma_trim_leading_range(s: Seq<char>, i: int)
    requires
        0 <= i <= s.len(),
        forall|k: int| 0 <= k < i ==> s[k] == '/',
        i == s.len() || s[i] != '/',
    ensures
        trim_leading_slashes(s) == s.subrange(i, s.len() as int),
    decreases i,
{
    if i == 0 {
        assert(s.subrange(0, s.len() as int) =~= s);
    } else {
        assert(s[0] == '/');
        lemma_trim_leading_range(s.drop_first(), i - 1);
        assert(s.drop_first().subrange(i - 1, s.drop_first().len() as int) =~= s.subrange(
            i,
            s.len() as int,
        ));
    }
}

proof fn lemma_trim_trailing_range(s: Seq<char>, j: int)
    requires
        0 <= j <= s.len(),
        forall|k: int| j <= k < s.len() ==> s[k] == '/',
        j == 0 || s[j - 1] != '/',
    ensures
        trim_trailing_slashes(s) == s.subrange(0, j),
    decreases s.len(),
{
    if s.len() > 0 && s.last() == '/' {
        assert(j < s.len());
        lemma_trim_trailing_range(s.drop_last(), j);
        assert(s.drop_last().subrange(0, j) =~= s.subrange(0, j));
    } else {
        assert(j == s.len());
        assert(s.subrange(0, j) =~= s);
    }
}

/// The base path stripped of slashes at both ends.
fn trim_slashes_both(s: &str) -> (r: &str)
    ensures
        r@ == trim_leading_slashes(trim_trailing_slashes(s@)),
{
    let n = s.unicode_len();
    let mut i: usize = 0;
    while i < n && s.get_char(i) == '/'
        invariant
            0 <= i <= n,
            n == s@.len(),
            forall|k: int| 0 <= k < i ==> s@[k] == '/',
        decreases n - i,
    {
        i = i + 1;
    }
    if i == n {
        proof {
            lemma_trim_trailing_range(s@, 0);
            lemma_trim_leading_range(s@.subrange(0, 0), 0);
            assert(s@.subrange(0, 0) =~= s@.subrange(n as int, n as int));
        }
        return s.substring_char(n, n);
    }
    let mut j: usize = n;
    while j > i && s.get_char(j - 1) == '/'
        invariant
            i < j <= n,
            n == s@.len(),
            i < n && s@[i as int] != '/',
            forall|k: int| j <= k < n ==> s@[k] == '/',
        decreases j,
    {
        j = j - 1;
    }
    proof {
        lemma_trim_trailing_range(s@, j as int);
        lemma_trim_leading_range(s@.subrange(0, j as int), i as int);
        assert(s@.subrange(0, j as int).subrange(i as int, j as int) =~= s@.subrange(
            i as int,
            j as int,
        ));
    }
    s.substring_char(i, j)
}

/// The relative path stripped of leading slashes.
fn trim_front_slashes(s: &str) -> (r: &str)
    ensures
        r@ == trim_leading_slashes(s@),
{
    let n = s.unicode_len();
    let mut i: usize = 0;
    while i < n && s.get_char(i) == '/'
        invariant
            0 <= i <= n,
            n == s@.len(),
            forall|k: int| 0 <= k < i ==> s@[k] == '/',
        decreases n - i,
    {
        i = i + 1;
    }
    proof {
        lemma_trim_leading_range(s@, i as int);
    }
    s.substring_char(i, n)
}

/// Joins a base path and a relative path with exactly one slash between
/// them, no doubling and no loss of either side.
pub fn join_paths(base: &str, rel: &str) -> (r: String)
    ensures
        r@ == join_spec(base@, rel@),
{
    let trimmed = trim_slashes_both(base);
    let mut out = String::from_str("/");
    if !trimmed.is_empty() {
        out.append(trimmed);
        out.append("/");
    }
    out.append(trim_front_slashes(rel));
    proof {
        assert(out@ =~= join_spec(base@, rel@));
    }
    out
}

/// Joining is insensitive to how slashes sit at the seam: a base path with a
/// trailing slash joined with a slash-prefixed relative path yields exactly
/// what the bare base joined with the bare relative path yields.
pub proof fn lemma_join_slash_normalization(base: Seq<char>, rel: Seq<char>)
    ensures
        join_spec(base.push('/'), "/"@ + rel) == join_spec(base, rel),
{
    reveal_strlit("/");
    assert(base.push('/').last() == '/');
    assert(base.push('/').drop_last() =~= base);
    assert(("/"@ + rel).len() == 1 + rel.len());
    assert(("/"@ + rel)[0] == '/');
    assert(("/"@ + rel).drop_first() =~= rel);
}

} // verus!
