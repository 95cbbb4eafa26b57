use wim::hosts::{auth_base, base_url, host_for, token_url, trading_url};

#[test]
fn production_hosts() {
    assert_eq!(base_url("production"), "https://api.ebay.com");
    assert_eq!(auth_base("production"), "https://auth.ebay.com");
    assert_eq!(token_url("production"), "https://api.ebay.com/identity/v1/oauth2/token");
    assert_eq!(trading_url("production"), "https://api.ebay.com/ws/api.dll");
}

#[test]
fn every_other_environment_is_the_sandbox() {
    for env in ["sandbox", "", "Production", "production "] {
        assert_eq!(base_url(env), "https://api.sandbox.ebay.com");
        assert_eq!(auth_base(env), "https://auth.sandbox.ebay.com");
        assert_eq!(token_url(env), "https://api.sandbox.ebay.com/identity/v1/oauth2/token");
        assert_eq!(trading_url(env), "https://api.sandbox.ebay.com/ws/api.dll");
        assert_eq!(host_for(env, "/sell/finances/v1/x"), "https://apiz.sandbox.ebay.com");
        assert_eq!(host_for(env, "/x"), "https://api.sandbox.ebay.com");
    }
}

#[test]
fn finances_live_elsewhere() {
    assert_eq!(host_for("production", "/sell/finances/v1/x"), "https://apiz.ebay.com");
    assert_eq!(host_for("production", "/sell/finance"), "https://api.ebay.com");
    assert_eq!(host_for("production", "x/sell/finances"), "https://api.ebay.com");
}
