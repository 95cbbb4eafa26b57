//! Laws of eBay's hosts.

use vstd::prelude::*;

use crate::hosts::{auth_base, base_url, host_for, token_url, trading_url};

verus! {

/// The environment named `production` has the real hosts and every other one the sandbox's; the
/// Finances API, and nothing else, lives on a host of its own, whatever follows in its path.
pub proof fn law_hosts(
    env: &str,
    path: &str,
    api: &'static str,
    host: String,
    consent: &'static str,
    token: String,
    trading: &'static str,
)
    requires
        call_ensures(base_url, (env,), api),
        call_ensures(host_for, (env, path), host),
        call_ensures(auth_base, (env,), consent),
        call_ensures(token_url, (env,), token),
        call_ensures(trading_url, (env,), trading),
    ensures
        env@ == "production"@ ==> api@ == "https://api.ebay.com"@ && consent@
            == "https://auth.ebay.com"@ && trading@ == "https://api.ebay.com/ws/api.dll"@,
        env@ != "production"@ ==> api@ == "https://api.sandbox.ebay.com"@ && consent@
            == "https://auth.sandbox.ebay.com"@ && trading@
            == "https://api.sandbox.ebay.com/ws/api.dll"@,
        token@ == api@ + "/identity/v1/oauth2/token"@,
        !"/sell/finances"@.is_prefix_of(path@) ==> host@ == api@,
        "/sell/finances"@.is_prefix_of(path@) && env@ == "production"@ ==> host@
            == "https://apiz.ebay.com"@,
        "/sell/finances"@.is_prefix_of(path@) && env@ != "production"@ ==> host@
            == "https://apiz.sandbox.ebay.com"@,
{
}

} // verus!
