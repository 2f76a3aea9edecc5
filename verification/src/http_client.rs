//! Configuration for the application's shared HTTP clients. Building the
//! clients themselves is network plumbing and lives with the application;
//! the configuration record and its builder are pure.

use vstd::prelude::*;

verus! {

/// How an HTTP client is to be built.
#[derive(Debug)]
pub struct ClientConfig {
    /// Timeout in seconds.
    pub timeout_secs: u64,
    /// Whether invalid certificates are accepted (development only).
    pub accept_invalid_certs: bool,
    /// Whether the system proxy is used.
    pub use_proxy: bool,
    /// The User-Agent header, if any.
    pub user_agent: Option<String>,
}

impl Clone for ClientConfig {
    fn clone(&self) -> (r: Self)
        ensures
            r == *self,
    {
        ClientConfig {
            timeout_secs: self.timeout_secs,
            accept_invalid_certs: self.accept_invalid_certs,
            use_proxy: self.use_proxy,
            user_agent: match &self.user_agent {
                None => None,
                Some(s) => Some(s.clone()),
            },
        }
    }
}

impl Default for ClientConfig {
    /// Ten seconds, strict certificates, system proxy, a fixed agent.
    fn default() -> (r: Self)
        ensures
            r.timeout_secs == 10,
            r.accept_invalid_certs == false,
            r.use_proxy == true,
            r.user_agent matches Some(ua) && ua@ == "Claudia/1.0"@,
    {
        ClientConfig {
            timeout_secs: 10,
            accept_invalid_certs: false,
            use_proxy: true,
            user_agent: Some("Claudia/1.0".to_owned()),
        }
    }
}

impl ClientConfig {
    /// The default configuration.
    pub fn new() -> (r: Self)
        ensures
            r.timeout_secs == 10,
            r.accept_invalid_certs == false,
            r.use_proxy == true,
            r.user_agent matches Some(ua) && ua@ == "Claudia/1.0"@,
    {
        ClientConfig {
            timeout_secs: 10,
            accept_invalid_certs: false,
            use_proxy: true,
            user_agent: Some("Claudia/1.0".to_owned()),
        }
    }

    /// The same configuration with this timeout.
    pub fn timeout(self, secs: u64) -> (r: Self)
        ensures
            r == (ClientConfig { timeout_secs: secs, ..self }),
    {
        ClientConfig { timeout_secs: secs, ..self }
    }

    /// The same configuration with this certificate policy.
    pub fn accept_invalid_certs(self, accept: bool) -> (r: Self)
        ensures
            r == (ClientConfig { accept_invalid_certs: accept, ..self }),
    {
        ClientConfig { accept_invalid_certs: accept, ..self }
    }

    /// The same configuration with this proxy policy.
    pub fn use_proxy(self, use_proxy: bool) -> (r: Self)
        ensures
            r == (ClientConfig { use_proxy, ..self }),
    {
        ClientConfig { use_proxy, ..self }
    }

    /// The same configuration with this User-Agent.
    pub fn user_agent(self, user_agent: &str) -> (r: Self)
        ensures
            r.timeout_secs == self.timeout_secs,
            r.accept_invalid_certs == self.accept_invalid_certs,
            r.use_proxy == self.use_proxy,
            r.user_agent matches Some(ua) && ua@ == user_agent@,
    {
        ClientConfig { user_agent: Some(user_agent.to_owned()), ..self }
    }
}

} // verus!
