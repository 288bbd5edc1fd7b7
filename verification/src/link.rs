//! URL normalization and same-origin scope filtering: parsing a URL into
//! scheme and host, resolving a possibly relative href against the page it
//! was found on, and deciding whether an absolute URL stays inside the
//! seed's origin. All of it is pure string work; a malformed href degrades
//! to a literal result rather than an error, so one bad link never stops a
//! page's extraction.

use vstd::prelude::*;
use vstd::string::*;

verus! {

/// Scheme and host of the crawl's seed URL: the origin that bounds the
/// crawl's scope.
#[derive(Debug, PartialEq)]
pub struct UrlParts {
    pub scheme: String,
    pub host: String,
}

/// The one fatal parse failure: a seed URL without a recognizable
/// scheme-and-host shape.
#[derive(Debug, PartialEq)]
pub enum Error {
    MalformedUrl,
}

/// The characters `://` stand at position `i`.
pub open spec fn scheme_sep_at(s: Seq<char>, i: int) -> bool {
    &&& 0 <= i
    &&& i + 3 <= s.len()
    &&& s[i] == ':'
    &&& s[i + 1] == '/'
    &&& s[i + 2] == '/'
}

/// Position of the first `://` at or after `i`, if any.
pub open spec fn find_sep_from(s: Seq<char>, i: int) -> Option<int>
    decreases s.len() - i,
{
    if i + 3 > s.len() {
        None
    } else if scheme_sep_at(s, i) {
        Some(i)
    } else {
        find_sep_from(s, i + 1)
    }
}

/// Position of the first `://` in `s`, if any.
pub open spec fn find_scheme_sep(s: Seq<char>) -> Option<int> {
    find_sep_from(s, 0)
}

/// Position of the first `/` at or after `i`, or the end of `s`.
pub open spec fn find_slash_from(s: Seq<char>, i: int) -> int
    decreases s.len() - i,
{
    if i >= s.len() {
        s.len() as int
    } else if s[i] == '/' {
        i
    } else {
        find_slash_from(s, i + 1)
    }
}

/// Scheme and host of a URL: the part before the first `://` and the part
/// after it up to the next `/` (or the end). A URL without `://`, with an
/// empty scheme or with an empty host has no parts.
pub open spec fn url_parts_spec(s: Seq<char>) -> Option<(Seq<char>, Seq<char>)> {
    match find_scheme_sep(s) {
        None => None,
        Some(i) => {
            let host_end = find_slash_from(s, i + 3);
            if i > 0 && host_end > i + 3 {
                Some((s.subrange(0, i), s.subrange(i + 3, host_end)))
            } else {
                None
            }
        },
    }
}

/// Resolution of a raw href found on `page`: an href holding `://` is kept
/// as it is; a protocol-relative `//…` href takes the page's scheme; a
/// path-relative `/…` href takes the page's scheme and host; anything else
/// — including any href on a page whose own URL has no parts — degrades to
/// the literal href.
pub open spec fn resolve_spec(raw: Seq<char>, page: Seq<char>) -> Seq<char> {
    if find_scheme_sep(raw) is Some {
        raw
    } else if raw.len() >= 2 && raw[0] == '/' && raw[1] == '/' {
        match url_parts_spec(page) {
            Some(p) => p.0 + seq![':'] + raw,
            None => raw,
        }
    } else if raw.len() >= 1 && raw[0] == '/' {
        match url_parts_spec(page) {
            Some(p) => p.0 + seq![':', '/', '/'] + p.1 + raw,
            None => raw,
        }
    } else {
        raw
    }
}

/// A URL is in scope exactly when it parses and its host equals the seed's
/// host.
pub open spec fn in_scope_spec(url: Seq<char>, host: Seq<char>) -> bool {
    match url_parts_spec(url) {
        Some(p) => p.1 == host,
        None => false,
    }
}

/// First `://` of `s`, by a left-to-right scan.
fn find_scheme_sep_exec(s: &str) -> (r: Option<usize>)
    ensures
        match r {
            Some(i) => find_scheme_sep(s@) == Some(i as int) && scheme_sep_at(s@, i as int),
            None => find_scheme_sep(s@) is None,
        },
{
    let n = s.unicode_len();
    if n < 3 {
        return None;
    }
    let mut i: usize = 0;
    while i <= n - 3
        invariant
            n == s@.len(),
            3 <= n,
            i <= n - 2,
            find_sep_from(s@, 0) == find_sep_from(s@, i as int),
        decreases n - i,
    {
        let c0 = s.get_char(i);
        let c1 = s.get_char(i + 1);
        let c2 = s.get_char(i + 2);
        if c0 == ':' && c1 == '/' && c2 == '/' {
            return Some(i);
        }
        proof {
            assert(!scheme_sep_at(s@, i as int));
            assert(find_sep_from(s@, i as int) == find_sep_from(s@, i as int + 1));
        }
        i += 1;
    }
    None
}

/// First `/` of `s` at or after `from`, or the length of `s`.
fn find_slash_from_exec(s: &str, from: usize) -> (r: usize)
    requires
        from <= s@.len(),
    ensures
        r as int == find_slash_from(s@, from as int),
        from <= r <= s@.len(),
{
    let n = s.unicode_len();
    let mut i: usize = from;
    while i < n
        invariant
            from <= i <= n,
            n == s@.len(),
            find_slash_from(s@, from as int) == find_slash_from(s@, i as int),
        decreases n - i,
    {
        if s.get_char(i) == '/' {
            return i;
        }
        proof {
            assert(find_slash_from(s@, i as int) == find_slash_from(s@, i as int + 1));
        }
        i += 1;
    }
    i
}

/// Parses a URL into its scheme and host, the origin the crawl is bounded
/// by. Called once per crawl, on the seed.
pub fn url_parts(url: &str) -> (r: Result<UrlParts, Error>)
    ensures
        match r {
            Ok(p) => url_parts_spec(url@) == Some((p.scheme@, p.host@)),
            Err(e) => url_parts_spec(url@) is None && e == Error::MalformedUrl,
        },
{
    match find_scheme_sep_exec(url) {
        None => Err(Error::MalformedUrl),
        Some(i) => {
            let n = url.unicode_len();
            let host_end = find_slash_from_exec(url, i + 3);
            if i == 0 || host_end == i + 3 {
                return Err(Error::MalformedUrl);
            }
            let scheme = url.substring_char(0, i).to_owned();
            let host = url.substring_char(i + 3, host_end).to_owned();
            Ok(UrlParts { scheme, host })
        },
    }
}

/// Resolves a raw href found on `page_url` into an absolute URL, as
/// `resolve_spec` describes. Never fails: a malformed href comes back as
/// the literal string.
pub fn process_url(url: String, page_url: &str) -> (r: String)
    ensures
        r@ == resolve_spec(url@, page_url@),
{
    if find_scheme_sep_exec(url.as_str()).is_some() {
        return url;
    }
    let n = url.as_str().unicode_len();
    let protocol_relative = n >= 2 && url.as_str().get_char(0) == '/' && url.as_str().get_char(1)
        == '/';
    let path_relative = !protocol_relative && n >= 1 && url.as_str().get_char(0) == '/';
    if !protocol_relative && !path_relative {
        return url;
    }
    match url_parts(page_url) {
        Err(_) => url,
        Ok(p) => {
            if protocol_relative {
                let mut out = p.scheme;
                out.append(":");
                out.append(url.as_str());
                proof {
                    reveal_strlit(":");
                    assert((":")@ =~= seq![':']);
                    assert(out@ =~= resolve_spec(url@, page_url@));
                }
                out
            } else {
                let mut out = p.scheme;
                out.append("://");
                out.append(p.host.as_str());
                out.append(url.as_str());
                proof {
                    reveal_strlit("://");
                    assert(("://")@ =~= seq![':', '/', '/']);
                    assert(out@ =~= resolve_spec(url@, page_url@));
                }
                out
            }
        },
    }
}

/// Same-origin scope filter: keeps a URL exactly when its host matches the
/// seed's host; everything else — other hosts, and URLs that do not parse
/// — is dropped and never enqueued.
pub fn filter_url(url: String, seed_parts: &UrlParts) -> (r: Option<String>)
    ensures
        r == (if in_scope_spec(url@, seed_parts.host@) {
            Some(url)
        } else {
            None::<String>
        }),
{
    match url_parts(url.as_str()) {
        Err(_) => None,
        Ok(p) => {
            if p.host == seed_parts.host {
                Some(url)
            } else {
                None
            }
        },
    }
}

} // verus!
