//! Settings that depend on the deployment environment: secure cookies, rate
//! limits and the security headers that the server sends.

use vstd::prelude::*;

use crate::text::same_text;

verus! {

/// The deployment environment, from `LEPTOS_ENV`.
#[derive(Clone, Copy, Debug, PartialEq, Eq, Structural)]
pub enum AppEnv {
    Dev,
    Test,
    Prod,
}

/// The environment that a value of `LEPTOS_ENV` names (`None` when unset):
/// exactly "prod" or "production" is production, exactly "test" is test, and
/// anything else is development.
pub open spec fn env_for(raw: Option<Seq<char>>) -> AppEnv {
    match raw {
        Some(v) => if v == "prod"@ || v == "production"@ {
            AppEnv::Prod
        } else if v == "test"@ {
            AppEnv::Test
        } else {
            AppEnv::Dev
        },
        None => AppEnv::Dev,
    }
}

/// The environment that a value of `LEPTOS_ENV` names (`None` when unset).
pub fn app_env(raw: Option<&str>) -> (r: AppEnv)
    ensures
        r == env_for(
            match raw {
                Some(v) => Some(v@),
                None => None,
            },
        ),
{
    match raw {
        Some(v) => {
            if same_text(v, "prod") || same_text(v, "production") {
                AppEnv::Prod
            } else if same_text(v, "test") {
                AppEnv::Test
            } else {
                AppEnv::Dev
            }
        },
        None => AppEnv::Dev,
    }
}

/// Session cookies are marked `Secure` in production only.
pub fn secure_cookies(env: AppEnv) -> (r: bool)
    ensures
        r == (env == AppEnv::Prod),
{
    env == AppEnv::Prod
}

/// The rate limit per client: requests replenished per second and the burst
/// size. Production allows 5 and 10; the other environments 50 and 100.
pub fn rate_limits(env: AppEnv) -> (r: (u64, u32))
    ensures
        r == if env == AppEnv::Prod {
            (5u64, 10u32)
        } else {
            (50u64, 100u32)
        },
{
    match env {
        AppEnv::Prod => (5u64, 10u32),
        _ => (50u64, 100u32),
    }
}

/// The Content-Security-Policy in production: same-origin only, no plugins, no
/// framing, inline styles and scripts allowed.
pub open spec fn prod_csp_text() -> Seq<char> {
    "default-src 'self'; base-uri 'self'; object-src 'none'; frame-ancestors 'none'; img-src 'self' data:; style-src 'self' 'unsafe-inline'; script-src 'self' 'unsafe-inline'; connect-src 'self';"@
}

/// The Content-Security-Policy in development and test: also `eval`, data and
/// blob sources, and web sockets for live reload.
pub open spec fn dev_csp_text() -> Seq<char> {
    "default-src 'self' 'unsafe-inline' 'unsafe-eval' data: blob:; img-src 'self' data: blob:; style-src 'self' 'unsafe-inline'; script-src 'self' 'unsafe-inline' 'unsafe-eval'; connect-src 'self' ws: wss:;"@
}

/// The Content-Security-Policy header value for the environment.
pub fn csp_value(env: AppEnv) -> (r: &'static str)
    ensures
        r@ == if env == AppEnv::Prod {
            prod_csp_text()
        } else {
            dev_csp_text()
        },
{
    match env {
        AppEnv::Prod => "default-src 'self'; base-uri 'self'; object-src 'none'; frame-ancestors 'none'; img-src 'self' data:; style-src 'self' 'unsafe-inline'; script-src 'self' 'unsafe-inline'; connect-src 'self';",
        _ => "default-src 'self' 'unsafe-inline' 'unsafe-eval' data: blob:; img-src 'self' data: blob:; style-src 'self' 'unsafe-inline'; script-src 'self' 'unsafe-inline' 'unsafe-eval'; connect-src 'self' ws: wss:;",
    }
}

/// The Strict-Transport-Security header value: a year, with subdomains, in
/// production; zero (which tells browsers to forget it) elsewhere.
pub fn hsts_value(env: AppEnv) -> (r: &'static str)
    ensures
        r@ == if env == AppEnv::Prod {
            "max-age=31536000; includeSubDomains"@
        } else {
            "max-age=0"@
        },
{
    match env {
        AppEnv::Prod => "max-age=31536000; includeSubDomains",
        _ => "max-age=0",
    }
}

} // verus!
