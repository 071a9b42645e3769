//! Process-wide gateway configuration, constructed once at startup.
//!
//! The surrounding process looks the variables up (an I/O concern it owns) and
//! hands the optional results here; this module fills the documented defaults,
//! so configuration is one explicit value passed by reference, never an
//! ambient lookup scattered through request handling.

use vstd::prelude::*;
use vstd::string::*;
use crate::scope::opt_seg;

verus! {

/// The supplied value, or the default where none was supplied.
pub open spec fn or_default(v: Option<Seq<char>>, d: Seq<char>) -> Seq<char> {
    match v {
        Option::Some(s) => s,
        Option::None => d,
    }
}

/// The gateway's process-wide settings.
pub struct GatewayConfig {
    /// The TCP port the gateway listens on.
    pub port: String,
    /// The one origin requests may come from.
    pub allowed_origin: String,
    /// The version string the system-information route reports.
    pub version: String,
}

impl GatewayConfig {
    /// Builds the configuration from what the environment supplied, filling
    /// the documented default wherever a variable was absent: port `7878`,
    /// any origin, version `1.0.0-dev`.
    pub fn from_lookups(
        port: Option<String>,
        allowed_origin: Option<String>,
        version: Option<String>,
    ) -> (c: GatewayConfig)
        ensures
            c.port@ == or_default(opt_seg(port), "7878"@),
            c.allowed_origin@ == or_default(opt_seg(allowed_origin), "*"@),
            c.version@ == or_default(opt_seg(version), "1.0.0-dev"@),
    {
        let chosen_port = match port {
            Option::Some(v) => v,
            Option::None => String::from_str("7878"),
        };
        let chosen_origin = match allowed_origin {
            Option::Some(v) => v,
            Option::None => String::from_str("*"),
        };
        let chosen_version = match version {
            Option::Some(v) => v,
            Option::None => String::from_str("1.0.0-dev"),
        };
        GatewayConfig { port: chosen_port, allowed_origin: chosen_origin, version: chosen_version }
    }

    /// The socket address the listener binds: every interface, at the
    /// configured port.
    pub fn bind_address(&self) -> (a: String)
        ensures
            a@ == "0.0.0.0:"@ + self.port@,
    {
        let mut a = String::from_str("0.0.0.0:");
        a.append(self.port.as_str());
        a
    }
}

} // verus!
