//! Where the server listens and what it calls itself.

use vstd::prelude::*;

use crate::text;

verus! {

/// The configuration of a server: the same program works on `localhost` and behind a real HTTPS
/// domain.
pub struct Config {
    /// The origin as the browser sees it.
    pub origin: String,
    /// The socket to listen on.
    pub bind: String,
    /// The path of the certificate, in PEM.
    pub tls_cert: String,
    /// The path of the key, in PEM.
    pub tls_key: String,
    /// The name of the device-bound cookie.
    pub cookie_name: String,
}

/// What a configuration holds.
#[verifier::ext_equal]
pub struct ConfigView {
    pub origin: Seq<char>,
    pub bind: Seq<char>,
    pub tls_cert: Seq<char>,
    pub tls_key: Seq<char>,
    pub cookie_name: Seq<char>,
}

impl View for Config {
    type V = ConfigView;

    open spec fn view(&self) -> ConfigView {
        ConfigView {
            origin: self.origin@,
            bind: self.bind@,
            tls_cert: self.tls_cert@,
            tls_key: self.tls_key@,
            cookie_name: self.cookie_name@,
        }
    }
}

/// The text that is set, or else the default.
pub open spec fn set_or(setting: Option<Seq<char>>, default: Seq<char>) -> Seq<char> {
    match setting {
        Some(text) => text,
        None => default,
    }
}

/// The setting, or else the default.
fn or_default(setting: Option<String>, default: &str) -> (r: String)
    ensures
        r@ == set_or(text::opt_text(setting), default@),
{
    match setting {
        Some(text) => text,
        None => default.to_owned(),
    }
}

impl Config {
    /// The configuration from the settings that are given. The defaults are a local setup.
    pub fn from_settings(
        origin: Option<String>,
        bind: Option<String>,
        tls_cert: Option<String>,
        tls_key: Option<String>,
        cookie_name: Option<String>,
    ) -> (r: Config)
        ensures
            r.origin@ == set_or(text::opt_text(origin), "https://localhost:3000"@),
            r.bind@ == set_or(text::opt_text(bind), "127.0.0.1:3000"@),
            r.tls_cert@ == set_or(text::opt_text(tls_cert), "localhost+2.pem"@),
            r.tls_key@ == set_or(text::opt_text(tls_key), "localhost+2-key.pem"@),
            r.cookie_name@ == set_or(text::opt_text(cookie_name), "__Host-auth_cookie"@),
    {
        Config {
            origin: or_default(origin, "https://localhost:3000"),
            bind: or_default(bind, "127.0.0.1:3000"),
            tls_cert: or_default(tls_cert, "localhost+2.pem"),
            tls_key: or_default(tls_key, "localhost+2-key.pem"),
            cookie_name: or_default(cookie_name, "__Host-auth_cookie"),
        }
    }
}

/// A setting that is given is taken, even an empty one, and only a missing one has the default.
pub proof fn law_given_setting_is_taken(given: Seq<char>, default: Seq<char>)
    ensures
        set_or(Some(given), default) == given,
        set_or(None, default) == default,
{
}

/// What is said of a configuration is said of its values.
pub proof fn law_config_is_what_it_holds(c: Config)
    ensures
        c@.origin == c.origin@,
        c@.bind == c.bind@,
        c@.tls_cert == c.tls_cert@,
        c@.tls_key == c.tls_key@,
        c@.cookie_name == c.cookie_name@,
{
}

} // verus!
