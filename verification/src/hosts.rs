//! The hosts of eBay's services, in production and in the sandbox.

use vstd::prelude::*;
use vstd::string::*;

use crate::text::{same_text, starts_with};

verus! {

/// Whether `env` names the real marketplace; every other name means the sandbox.
pub open spec fn is_production(env: Seq<char>) -> bool {
    env == "production"@
}

/// The host of most of the API.
pub open spec fn api_host(env: Seq<char>) -> Seq<char> {
    if is_production(env) {
        "https://api.ebay.com"@
    } else {
        "https://api.sandbox.ebay.com"@
    }
}

/// The host of the Finances API.
pub open spec fn finances_host(env: Seq<char>) -> Seq<char> {
    if is_production(env) {
        "https://apiz.ebay.com"@
    } else {
        "https://apiz.sandbox.ebay.com"@
    }
}

/// The host of the consent screen.
pub open spec fn consent_host(env: Seq<char>) -> Seq<char> {
    if is_production(env) {
        "https://auth.ebay.com"@
    } else {
        "https://auth.sandbox.ebay.com"@
    }
}

/// The host that serves `path`.
pub open spec fn host_of(env: Seq<char>, path: Seq<char>) -> Seq<char> {
    if "/sell/finances"@.is_prefix_of(path) {
        finances_host(env)
    } else {
        api_host(env)
    }
}

/// Where access tokens are issued.
pub open spec fn token_endpoint(env: Seq<char>) -> Seq<char> {
    api_host(env) + "/identity/v1/oauth2/token"@
}

/// Where the Trading API is called.
pub open spec fn trading_endpoint(env: Seq<char>) -> Seq<char> {
    if is_production(env) {
        "https://api.ebay.com/ws/api.dll"@
    } else {
        "https://api.sandbox.ebay.com/ws/api.dll"@
    }
}

/// The host of most of the API.
pub fn base_url(env: &str) -> (r: &'static str)
    ensures
        r@ == api_host(env@),
{
    if same_text(env, "production") {
        "https://api.ebay.com"
    } else {
        "https://api.sandbox.ebay.com"
    }
}

/// The host that serves `path`. The Finances API does not live with the rest: a finances call to
/// the usual host is answered with 404.
pub fn host_for(env: &str, path: &str) -> (r: String)
    ensures
        r@ == host_of(env@, path@),
{
    if starts_with(path, "/sell/finances") {
        if same_text(env, "production") {
            "https://apiz.ebay.com".to_string()
        } else {
            "https://apiz.sandbox.ebay.com".to_string()
        }
    } else {
        base_url(env).to_string()
    }
}

/// The host of the "Sign in with eBay" consent screen.
pub fn auth_base(env: &str) -> (r: &'static str)
    ensures
        r@ == consent_host(env@),
{
    if same_text(env, "production") {
        "https://auth.ebay.com"
    } else {
        "https://auth.sandbox.ebay.com"
    }
}

/// Where access tokens are issued.
pub fn token_url(env: &str) -> (r: String)
    ensures
        r@ == token_endpoint(env@),
{
    base_url(env).to_string().concat("/identity/v1/oauth2/token")
}

/// Where the Trading API is called.
pub fn trading_url(env: &str) -> (r: &'static str)
    ensures
        r@ == trading_endpoint(env@),
{
    if same_text(env, "production") {
        "https://api.ebay.com/ws/api.dll"
    } else {
        "https://api.sandbox.ebay.com/ws/api.dll"
    }
}

// ---------------------------------------------------------------------------------------------
// Laws
// ---------------------------------------------------------------------------------------------

/// Whether an address is one of the sandbox, where nothing is real.
pub open spec fn in_sandbox(url: Seq<char>) -> bool {
    ||| "https://api.sandbox.ebay.com"@.is_prefix_of(url)
    ||| "https://apiz.sandbox.ebay.com"@.is_prefix_of(url)
    ||| "https://auth.sandbox.ebay.com"@.is_prefix_of(url)
}

/// The hosts of the sandbox are those of every environment but production, and no path behind a
/// host changes that.
pub proof fn law_sandbox_hosts(env: Seq<char>, path: Seq<char>, more: Seq<char>)
    ensures
        in_sandbox(host_of(env, path) + more) <==> !is_production(env),
        in_sandbox(api_host(env) + more) <==> !is_production(env),
        in_sandbox(consent_host(env) + more) <==> !is_production(env),
        in_sandbox(token_endpoint(env)) <==> !is_production(env),
        in_sandbox(trading_endpoint(env)) <==> !is_production(env),
{
    lemma_sandbox(api_host(env), more, is_production(env));
    lemma_sandbox(finances_host(env), more, is_production(env));
    lemma_sandbox(consent_host(env), more, is_production(env));
    lemma_sandbox(api_host(env), "/identity/v1/oauth2/token"@, is_production(env));
    reveal_strlit("https://api.ebay.com");
    reveal_strlit("https://api.sandbox.ebay.com");
    reveal_strlit("https://api.ebay.com/ws/api.dll");
    reveal_strlit("https://api.sandbox.ebay.com/ws/api.dll");
    reveal_strlit("/ws/api.dll");
    lemma_sandbox(api_host(env), "/ws/api.dll"@, is_production(env));
    assert(trading_endpoint(env) =~= api_host(env) + "/ws/api.dll"@);
}

/// A host of production, and a host of the sandbox, with something behind it.
proof fn lemma_sandbox(host: Seq<char>, more: Seq<char>, production: bool)
    requires
        if production {
            ||| host == "https://api.ebay.com"@
            ||| host == "https://apiz.ebay.com"@
            ||| host == "https://auth.ebay.com"@
        } else {
            ||| host == "https://api.sandbox.ebay.com"@
            ||| host == "https://apiz.sandbox.ebay.com"@
            ||| host == "https://auth.sandbox.ebay.com"@
        },
    ensures
        in_sandbox(host + more) <==> !production,
{
    let url = host + more;
    if production {
        reveal_strlit("https://api.ebay.com");
        reveal_strlit("https://apiz.ebay.com");
        reveal_strlit("https://auth.ebay.com");
        reveal_strlit("https://api.sandbox.ebay.com");
        reveal_strlit("https://apiz.sandbox.ebay.com");
        reveal_strlit("https://auth.sandbox.ebay.com");
        let a = "https://api.sandbox.ebay.com"@;
        let b = "https://apiz.sandbox.ebay.com"@;
        let c = "https://auth.sandbox.ebay.com"@;
        // The letters at which the hosts part.
        assert(url[11] == host[11] && url[12] == host[12] && url[13] == host[13] && url[10]
            == host[10]);
        if a.is_prefix_of(url) {
            assert(url[12] == a[12] && url[11] == a[11] && url[10] == a[10]);
        }
        if b.is_prefix_of(url) {
            assert(url[13] == b[13] && url[11] == b[11] && url[10] == b[10]);
        }
        if c.is_prefix_of(url) {
            assert(url[13] == c[13] && url[11] == c[11] && url[10] == c[10]);
        }
    } else {
        assert(url.take(host.len() as int) =~= host);
    }
}

} // verus!
