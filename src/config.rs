//! Runtime configuration values and the deployment label.
use vstd::prelude::*;
use vstd::string::*;
use crate::text::{decimal, decimal_spec, lower_of, lowercase, same_text};

verus! {

#[derive(PartialEq, Eq, Structural, Clone, Copy, Debug)]
pub enum Deployment {
    Local,
    Dev,
    Stage,
    Prod,
}

pub open spec fn deployment_spec(s: Seq<char>) -> Deployment {
    let l = lower_of(s);
    if l == "dev"@ || l == "development"@ {
        Deployment::Dev
    } else if l == "stage"@ || l == "staging"@ {
        Deployment::Stage
    } else if l == "prod"@ || l == "production"@ {
        Deployment::Prod
    } else {
        Deployment::Local
    }
}

impl Deployment {
    /// Reads a deployment label without regard to case; anything unknown
    /// is a local deployment.
    pub fn from_str(s: &str) -> (r: Deployment)
        ensures
            r == deployment_spec(s@),
    {
        let l = lowercase(s);
        let t = l.as_str();
        if same_text(t, "dev") || same_text(t, "development") {
            Deployment::Dev
        } else if same_text(t, "stage") || same_text(t, "staging") {
            Deployment::Stage
        } else if same_text(t, "prod") || same_text(t, "production") {
            Deployment::Prod
        } else {
            Deployment::Local
        }
    }
}

/// Settings of the service.
pub struct Config {
    pub database_url: String,
    pub vaisala_base_url: String,
    pub vaisala_bearer_token: String,
    pub vaisala_skip_tls_verify: bool,
    pub vaisala_max_history_days: i64,
    pub sync_readings_interval_seconds: u64,
    pub sync_device_status_interval_seconds: u64,
    pub sync_retry_max: u32,
    pub sync_retry_delay_seconds: u64,
    pub api_host: String,
    pub api_port: u16,
    pub disable_rate_limiting: bool,
    pub rate_limit_metadata_per_second: u64,
    pub rate_limit_metadata_burst: u32,
    pub rate_limit_data_per_second: u64,
    pub rate_limit_data_burst: u32,
    pub bulk_concurrent_limit: usize,
    pub cache_ttl_seconds: u64,
    pub cache_max_bytes: u64,
    pub deployment: Deployment,
}

impl Config {
    /// `host:port`, the address the API listens on.
    pub fn bind_address(&self) -> (r: String)
        ensures
            r@ == self.api_host@ + seq![':'] + decimal_spec(self.api_port as int),
    {
        let mut out = self.api_host.clone();
        out.append(":");
        let port = decimal(self.api_port as i64);
        out.append(port.as_str());
        proof {
            reveal_strlit(":");
        }
        out
    }
}

/// A required setting is missing; it names the variable.
#[derive(Debug)]
pub enum ConfigError {
    Missing(String),
}

impl ConfigError {
    /// The message shown for the error.
    pub fn message(&self) -> (r: String)
        ensures
            self matches ConfigError::Missing(v) ==> r@ == "Missing required environment variable: "@
                + v@,
    {
        match self {
            ConfigError::Missing(v) => {
                let mut m = String::from_str("Missing required environment variable: ");
                m.append(v.as_str());
                m
            },
        }
    }
}

} // verus!
