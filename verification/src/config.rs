//! Process-level configuration. Loading it from the environment is I/O and
//! happens outside this library; the defaulting and URL assembly here is
//! verified.

use vstd::prelude::*;

use crate::text::{spec_dec, u64_to_string};

verus! {

/// The configuration read at startup.
#[derive(Debug)]
pub struct Config {
    pub discord_api_token: String,
    pub guild_id: u64,
    pub http_port: Option<u16>,
    pub http_ext_host: String,
    pub http_ext_port: Option<u16>,
    pub http_ext_secure: Option<bool>,
    pub db_uri: String,
    pub module_config_dir: Option<String>,
}

/// The externally reachable base URL: scheme, host, and the explicit port
/// if one is configured.
pub open spec fn spec_http_ext_url(c: Config) -> Seq<char> {
    "http"@ + (if c.http_ext_secure == Some(true) {
        "s"@
    } else {
        Seq::<char>::empty()
    }) + "://"@ + c.http_ext_host@ + (match spec_ext_port(c) {
        Some(p) => ":"@ + spec_dec(p as nat),
        None => Seq::<char>::empty(),
    })
}

/// The port named in the external URL: the external port if set, else the
/// listening port if set.
pub open spec fn spec_ext_port(c: Config) -> Option<u16> {
    match c.http_ext_port {
        Some(p) => Some(p),
        None => c.http_port,
    }
}

impl Config {
    /// The port the HTTP server listens on, 80 unless configured.
    pub fn http_port(&self) -> (r: u16)
        ensures
            self.http_port matches Some(p) ==> r == p,
            self.http_port is None ==> r == 80,
    {
        self.http_port.unwrap_or(80)
    }

    /// Whether the externally reachable URL uses TLS.
    fn http_ext_secure(&self) -> (r: bool)
        ensures
            r == (self.http_ext_secure == Some(true)),
    {
        self.http_ext_secure.unwrap_or(false)
    }

    /// The externally reachable base URL of this service.
    pub fn http_ext_url(&self) -> (r: String)
        ensures
            r@ == spec_http_ext_url(*self),
    {
        let mut url = "http".to_owned();
        if self.http_ext_secure() {
            url.append("s");
        }
        url.append("://");
        url.append(self.http_ext_host.as_str());
        let port: Option<u16> = match self.http_ext_port {
            Some(p) => Some(p),
            None => self.http_port,
        };
        if let Some(p) = port {
            url.append(":");
            let digits = u64_to_string(p as u64);
            url.append(digits.as_str());
        }
        proof {
            assert(url@ =~= spec_http_ext_url(*self));
        }
        url
    }

    /// The configured module-configuration directory, kept only when the
    /// caller found it on disk (`is_dir` is the caller's I/O).
    pub fn module_config_dir(&self, is_dir: bool) -> (r: Option<&String>)
        ensures
            (r is Some) == (self.module_config_dir is Some && is_dir),
            r matches Some(d) ==> self.module_config_dir matches Some(c) && d == c,
    {
        if is_dir {
            self.module_config_dir.as_ref()
        } else {
            None
        }
    }
}

} // verus!
