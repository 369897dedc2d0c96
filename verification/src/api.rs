//! The requests the widget makes to the usage site: which cookies they
//! need, and the url and headers they carry. The site is a parameter
//! (its host name, such as `example.com`).

use vstd::prelude::*;

use crate::cookies::jar::CookiePair;
use crate::cookies::CookieJar;

verus! {

/// The `Cookie` header text for `pairs`: `name=value` items joined by `; `.
pub open spec fn cookie_header_text(pairs: Seq<CookiePair>) -> Seq<char>
    decreases pairs.len(),
{
    if pairs.len() == 0 {
        seq![]
    } else if pairs.len() == 1 {
        pairs[0].0 + "="@ + pairs[0].1
    } else {
        cookie_header_text(pairs.drop_last()) + "; "@ + pairs.last().0 + "="@ + pairs.last().1
    }
}

/// One cookie makes `name=value`, with no separator.
pub proof fn law_cookie_header_single(p: CookiePair)
    ensures
        cookie_header_text(seq![p]) == p.0 + "="@ + p.1,
{
}

/// The header of the cookies `a` followed by the cookies `b` is the header
/// of `a`, `; `, then the header of `b`: every two neighbouring cookies are
/// separated by exactly `; `.
pub proof fn law_cookie_header_joins(a: Seq<CookiePair>, b: Seq<CookiePair>)
    requires
        a.len() > 0,
        b.len() > 0,
    ensures
        cookie_header_text(a + b) == cookie_header_text(a) + "; "@ + cookie_header_text(b),
    decreases b.len(),
{
    let ab = a + b;
    assert(ab.drop_last() =~= a + b.drop_last());
    assert(ab.last() == b.last());
    if b.len() == 1 {
        assert(a + b.drop_last() =~= a);
        assert(b.drop_last().len() == 0);
        assert(cookie_header_text(b) == b[0].0 + "="@ + b[0].1);
        assert(cookie_header_text(ab) =~= cookie_header_text(a) + "; "@ + cookie_header_text(b));
    } else {
        law_cookie_header_joins(a, b.drop_last());
        assert(cookie_header_text(ab) =~= cookie_header_text(a) + "; "@ + cookie_header_text(b));
    }
}

/// The `Cookie` header carrying every cookie of the jar.
pub fn cookie_header(cookies: &CookieJar) -> (r: String)
    ensures
        r@ == cookie_header_text(cookies.pairs()),
{
    let mut r = String::new();
    let n = cookies.len();
    let mut i: usize = 0;
    while i < n
        invariant
            n == cookies.pairs().len(),
            0 <= i <= n,
            r@ == cookie_header_text(cookies.pairs().take(i as int)),
        decreases n - i,
    {
        let (k, v) = cookies.entry(i);
        let ghost before = cookies.pairs().take(i as int);
        assert(cookies.pairs().take(i + 1).drop_last() =~= before);
        if i > 0 {
            r.append("; ");
        }
        r.append(k.as_str());
        r.append("=");
        r.append(v.as_str());
        proof {
            if i == 0 {
                assert(r@ =~= cookie_header_text(cookies.pairs().take(1)));
            } else {
                assert(r@ =~= cookie_header_text(cookies.pairs().take(i + 1)));
            }
        }
        i = i + 1;
    }
    assert(cookies.pairs().take(n as int) =~= cookies.pairs());
    r
}

/// The browser the requests present themselves as.
pub open spec fn user_agent_text() -> Seq<char> {
    "Mozilla/5.0 (X11; Linux x86_64; rv:147.0) Gecko/20100101 Firefox/147.0"@
}

/// A GET request: its url and its headers, in order.
pub struct Request {
    pub url: String,
    pub headers: Vec<(String, String)>,
}

/// The headers every request carries: the cookies, the user agent, any
/// content type, and the settings page it comes from.
pub open spec fn request_headers(cookie: Seq<char>, referer: Seq<char>) -> Seq<(Seq<char>, Seq<char>)> {
    seq![
        ("Cookie"@, cookie),
        ("User-Agent"@, user_agent_text()),
        ("Accept"@, "*/*"@),
        ("Referer"@, referer),
    ]
}

/// The plain view of a request's headers.
pub open spec fn headers_view(headers: Seq<(String, String)>) -> Seq<(Seq<char>, Seq<char>)> {
    headers.map_values(|h: (String, String)| (h.0@, h.1@))
}

fn build_request(url: String, cookies: &CookieJar, referer: &str) -> (r: Request)
    ensures
        r.url@ == url@,
        headers_view(r.headers@) == request_headers(cookie_header_text(cookies.pairs()), referer@),
{
    let mut headers: Vec<(String, String)> = Vec::new();
    headers.push((String::from_str("Cookie"), cookie_header(cookies)));
    headers.push(
        (
            String::from_str("User-Agent"),
            String::from_str("Mozilla/5.0 (X11; Linux x86_64; rv:147.0) Gecko/20100101 Firefox/147.0"),
        ),
    );
    headers.push((String::from_str("Accept"), String::from_str("*/*")));
    headers.push((String::from_str("Referer"), referer.to_owned()));
    let r = Request { url, headers };
    assert(headers_view(r.headers@) =~= request_headers(
        cookie_header_text(cookies.pairs()),
        referer@,
    ));
    r
}

/// `https://<site><path>`.
pub open spec fn site_url(site: Seq<char>, path: Seq<char>) -> Seq<char> {
    "https://"@ + site + path
}

fn make_url(site: &str, path: &str) -> (r: String)
    ensures
        r@ == site_url(site@, path@),
{
    let mut r = String::from_str("https://");
    r.append(site);
    r.append(path);
    r
}

/// The usage request to `site`: it needs a session (`sessionKey`) and
/// names the organization from the `lastActiveOrg` cookie.
pub fn usage_request(cookies: &CookieJar, site: &str) -> (r: Result<Request, String>)
    ensures
        !cookies@.contains_key("sessionKey"@) ==> (r matches Err(e) && e@ == "No "@ + site@
            + " session found"@),
        cookies@.contains_key("sessionKey"@) && !cookies@.contains_key("lastActiveOrg"@) ==> (
        r matches Err(e) && e@ == "No organization ID in cookies"@),
        cookies@.contains_key("sessionKey"@) && cookies@.contains_key("lastActiveOrg"@) ==> (
        r matches Ok(req) && req.url@ == site_url(
            site@,
            "/api/organizations/"@ + cookies@["lastActiveOrg"@] + "/usage"@,
        ) && headers_view(req.headers@) == request_headers(
            cookie_header_text(cookies.pairs()),
            site_url(site@, "/settings/usage"@),
        )),
{
    if !cookies.contains_key("sessionKey") {
        let mut e = String::from_str("No ");
        e.append(site);
        e.append(" session found");
        return Err(e);
    }
    let org_id = match cookies.get("lastActiveOrg") {
        Some(o) => o,
        None => {
            return Err(String::from_str("No organization ID in cookies"));
        },
    };
    let mut path = String::from_str("/api/organizations/");
    path.append(org_id.as_str());
    path.append("/usage");
    let url = make_url(site, path.as_str());
    let referer = make_url(site, "/settings/usage");
    Ok(build_request(url, cookies, referer.as_str()))
}

/// The account request to `site`, which gives the user's names.
pub fn account_request(cookies: &CookieJar, site: &str) -> (r: Request)
    ensures
        r.url@ == site_url(site@, "/api/account"@),
        headers_view(r.headers@) == request_headers(
            cookie_header_text(cookies.pairs()),
            site_url(site@, "/settings/general"@),
        ),
{
    let url = make_url(site, "/api/account");
    let referer = make_url(site, "/settings/general");
    build_request(url, cookies, referer.as_str())
}

/// A name that is present and not empty.
pub open spec fn is_given(name: Option<String>) -> bool {
    name is Some && (name->0)@.len() > 0
}

/// The name to show for the account: the display name, else the full
/// name, skipping empty ones.
pub fn account_name(display_name: Option<String>, full_name: Option<String>) -> (r: Result<
    String,
    String,
>)
    ensures
        is_given(display_name) ==> r == Ok::<String, String>(display_name->0),
        !is_given(display_name) && is_given(full_name) ==> r == Ok::<String, String>(full_name->0),
        !is_given(display_name) && !is_given(full_name) ==> (r matches Err(e) && e@
            == "No name in account response"@),
{
    if let Some(d) = display_name {
        if !d.as_str().is_empty() {
            return Ok(d);
        }
    }
    if let Some(f) = full_name {
        if !f.as_str().is_empty() {
            return Ok(f);
        }
    }
    Err(String::from_str("No name in account response"))
}


/// The entries that hold a value, in order.
pub open spec fn with_values<T>(s: Seq<(String, Option<T>)>) -> Seq<(String, T)>
    decreases s.len(),
{
    if s.len() == 0 {
        seq![]
    } else {
        let rest = with_values(s.drop_first());
        match s[0].1 {
            Some(v) => seq![(s[0].0, v)] + rest,
            None => rest,
        }
    }
}

/// Drops the usage limits reported as null (limits the plan does not
/// have), keeping the others in order.
pub fn present_limits<T>(entries: Vec<(String, Option<T>)>) -> (r: Vec<(String, T)>)
    ensures
        r@ == with_values(entries@),
{
    let ghost all = entries@;
    let mut rest = entries;
    let mut r: Vec<(String, T)> = Vec::new();
    assert(r@ + with_values(rest@) =~= with_values(all));
    while rest.len() > 0
        invariant
            r@ + with_values(rest@) == with_values(all),
        decreases rest.len(),
    {
        let ghost before = rest@;
        let (name, value) = rest.remove(0);
        assert(rest@ =~= before.drop_first());
        match value {
            Some(v) => {
                let ghost prev = r@;
                r.push((name, v));
                assert(r@ + with_values(rest@) =~= prev + (seq![(name, v)] + with_values(rest@)));
            },
            None => {},
        }
    }
    assert(r@ + seq![] =~= r@);
    r
}

} // verus!
