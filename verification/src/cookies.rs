//! The Set-Cookie strings of the three credentials. Their attributes are
//! part of the contract: the access token rides on a lax, HTTP-only cookie
//! for fifteen minutes on `/`; the refresh secret on a strict, HTTP-only
//! cookie for fourteen days on `/auth`; the CSRF double-submit token on a
//! strict cookie for one hour on `/`, readable by scripts. Logout reissues
//! all three empty with zero lifetime.

use vstd::prelude::*;

verus! {

use vstd::string::StringExecFns;

/// Cookie issuance settings: an optional domain, and the secure flag, set
/// exactly when a domain is configured.
pub struct CookieConfig {
    pub domain: Option<String>,
    pub secure: bool,
}

impl CookieConfig {
    pub fn from_domain(domain: Option<String>) -> (r: CookieConfig)
        ensures
            r.secure == domain is Some,
            crate::flow::opt_view(r.domain) == crate::flow::opt_view(domain),
    {
        let secure = domain.is_some();
        CookieConfig { domain, secure }
    }
}

/// The trailing attributes: the domain when configured, then the secure
/// flag when set.
pub open spec fn cookie_tail(domain: Option<Seq<char>>, secure: bool) -> Seq<char> {
    (match domain {
        Some(d) => "; Domain="@ + d,
        None => Seq::<char>::empty(),
    }) + (if secure {
        "; Secure"@
    } else {
        Seq::<char>::empty()
    })
}

/// `at`: the signed access token, HTTP-only, lax, on `/`, for 15 minutes.
pub open spec fn access_cookie_str(
    token: Seq<char>,
    domain: Option<Seq<char>>,
    secure: bool,
) -> Seq<char> {
    "at="@ + token + "; HttpOnly; SameSite=Lax; Path=/; Max-Age=900"@ + cookie_tail(
        domain,
        secure,
    )
}

/// `rt`: the raw refresh secret, HTTP-only, strict, on `/auth`, for 14 days.
pub open spec fn refresh_cookie_str(
    token: Seq<char>,
    domain: Option<Seq<char>>,
    secure: bool,
) -> Seq<char> {
    "rt="@ + token + "; HttpOnly; SameSite=Strict; Path=/auth; Max-Age=1209600"@ + cookie_tail(
        domain,
        secure,
    )
}

/// `csrf`: the double-submit token, strict, on `/`, for 1 hour, and not
/// HTTP-only: scripts must be able to read it.
pub open spec fn csrf_cookie_str(
    token: Seq<char>,
    domain: Option<Seq<char>>,
    secure: bool,
) -> Seq<char> {
    "csrf="@ + token + "; SameSite=Strict; Path=/; Max-Age=3600"@ + cookie_tail(domain, secure)
}

fn push_tail(out: &mut String, config: &CookieConfig)
    ensures
        final(out)@ == old(out)@ + cookie_tail(crate::flow::opt_view(config.domain),
            config.secure),
{
    match &config.domain {
        Some(d) => {
            out.append("; Domain=");
            out.append(d.as_str());
        },
        None => {},
    }
    if config.secure {
        out.append("; Secure");
    }
    proof {
        assert(final(out)@ =~= old(out)@ + cookie_tail(
            crate::flow::opt_view(config.domain),
            config.secure,
        ));
    }
}

/// Builds the access-token cookie.
pub fn create_access_token_cookie(token: &str, config: &CookieConfig) -> (r: String)
    ensures
        r@ == access_cookie_str(token@, crate::flow::opt_view(config.domain), config.secure),
{
    let mut out = String::new();
    out.append("at=");
    out.append(token);
    out.append("; HttpOnly; SameSite=Lax; Path=/; Max-Age=900");
    push_tail(&mut out, config);
    proof {
        assert(out@ =~= access_cookie_str(token@, crate::flow::opt_view(config.domain),
            config.secure));
    }
    out
}

/// Builds the refresh-secret cookie.
pub fn create_refresh_token_cookie(token: &str, config: &CookieConfig) -> (r: String)
    ensures
        r@ == refresh_cookie_str(token@, crate::flow::opt_view(config.domain), config.secure),
{
    let mut out = String::new();
    out.append("rt=");
    out.append(token);
    out.append("; HttpOnly; SameSite=Strict; Path=/auth; Max-Age=1209600");
    push_tail(&mut out, config);
    proof {
        assert(out@ =~= refresh_cookie_str(token@, crate::flow::opt_view(config.domain),
            config.secure));
    }
    out
}

/// Builds the CSRF cookie.
pub fn create_csrf_cookie(token: &str, config: &CookieConfig) -> (r: String)
    ensures
        r@ == csrf_cookie_str(token@, crate::flow::opt_view(config.domain), config.secure),
{
    let mut out = String::new();
    out.append("csrf=");
    out.append(token);
    out.append("; SameSite=Strict; Path=/; Max-Age=3600");
    push_tail(&mut out, config);
    proof {
        assert(out@ =~= csrf_cookie_str(token@, crate::flow::opt_view(config.domain),
            config.secure));
    }
    out
}

/// Reissues all three cookies with empty value and zero lifetime, same
/// names, paths and flags, which clears them on the client.
pub fn clear_auth_cookies(_config: &CookieConfig) -> (r: Vec<String>)
    ensures
        r.deep_view().len() == 3,
        r.deep_view()[0] == "at=; HttpOnly; SameSite=Lax; Path=/; Max-Age=0"@,
        r.deep_view()[1] == "rt=; HttpOnly; SameSite=Strict; Path=/auth; Max-Age=0"@,
        r.deep_view()[2] == "csrf=; SameSite=Strict; Path=/; Max-Age=0"@,
{
    let mut out: Vec<String> = Vec::new();
    out.push(String::from_str("at=; HttpOnly; SameSite=Lax; Path=/; Max-Age=0"));
    out.push(String::from_str("rt=; HttpOnly; SameSite=Strict; Path=/auth; Max-Age=0"));
    out.push(String::from_str("csrf=; SameSite=Strict; Path=/; Max-Age=0"));
    proof {
        assert(out.deep_view().len() == 3);
    }
    out
}

} // verus!
