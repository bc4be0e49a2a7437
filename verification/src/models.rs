//! Services that strategies are tested against, and their test definitions.
use vstd::prelude::*;

verus! {

/// One check run against a service.
pub enum TestDefinition {
    /// An HTTPS GET that must answer with one of the expected statuses.
    HttpsGet { url: String, timeout_ms: u32, expected_status: Vec<u16>, min_body_size: Option<usize> },
    /// An HTTPS HEAD request.
    HttpsHead { url: String, timeout_ms: u32 },
    /// A TCP connection to a host and port.
    TcpConnect { host: String, port: u16, timeout_ms: u32 },
    /// A WebSocket upgrade check.
    WebSocket { url: String, timeout_ms: u32 },
    /// A DNS resolution.
    Dns { domain: String, timeout_ms: u32 },
}

/// A service whose reachability shows whether a strategy works.
pub struct Service {
    /// Identifier.
    pub id: String,
    /// Display name.
    pub name: String,
    /// Whether the service is checked unless the user turns it off.
    pub enabled_by_default: bool,
    /// Whether the service must be reachable for a strategy to be viable.
    pub critical: bool,
    /// Checks run against the service.
    pub tests: Vec<TestDefinition>,
    /// A URL to probe, when one is given explicitly.
    pub test_url: Option<String>,
}

/// The URL of the first HTTPS GET check among `tests`.
pub open spec fn first_get_url(tests: Seq<TestDefinition>) -> Option<Seq<char>>
    decreases tests.len(),
{
    if tests.len() == 0 {
        None
    } else {
        match tests[0] {
            TestDefinition::HttpsGet { url, .. } => Some(url@),
            _ => first_get_url(tests.drop_first()),
        }
    }
}

/// The URL to probe a service with: its explicit test URL, else the URL of
/// its first HTTPS GET check.
pub open spec fn test_url_of(s: Service) -> Option<Seq<char>> {
    match s.test_url {
        Some(u) => Some(u@),
        None => first_get_url(s.tests@),
    }
}

impl Service {
    /// The URL to probe this service with (see [`test_url_of`]).
    pub fn get_test_url(&self) -> (r: Option<String>)
        ensures
            match r {
                Some(u) => test_url_of(*self) == Some(u@),
                None => test_url_of(*self) is None,
            },
    {
        if let Some(u) = &self.test_url {
            return Some(u.clone());
        }
        let mut i: usize = 0;
        proof {
            assert(self.tests@.skip(0) =~= self.tests@);
        }
        while i < self.tests.len()
            invariant
                self.test_url is None,
                i <= self.tests@.len(),
                first_get_url(self.tests@) == first_get_url(self.tests@.skip(i as int)),
            decreases self.tests@.len() - i,
        {
            proof {
                assert(self.tests@.skip(i as int)[0] == self.tests@[i as int]);
                assert(self.tests@.skip(i as int).drop_first() =~= self.tests@.skip(i as int + 1));
            }
            if let TestDefinition::HttpsGet { url, .. } = &self.tests[i] {
                return Some(url.clone());
            }
            i = i + 1;
        }
        None
    }
}

/// Family a strategy belongs to.
#[derive(PartialEq, Eq, Structural, Clone, Copy, Debug)]
pub enum StrategyFamily {
    DnsBypass,
}

/// Program that runs a strategy.
#[derive(PartialEq, Eq, Structural, Clone, Copy, Debug)]
pub enum StrategyEngine {
    Zapret,
    SingBox,
}

/// Packet interception mode of WinDivert.
#[derive(PartialEq, Eq, Structural, Clone, Copy, Debug)]
pub enum WinDivertMode {
    Normal,
    AutoTTL,
    AutoHostlist,
}

/// The launch modes a strategy supports.
pub struct ModeCapabilities {
    /// Runs as a local SOCKS proxy.
    pub supports_socks: bool,
    /// Intercepts all traffic.
    pub supports_global: bool,
}

/// How to start a strategy's process.
pub struct LaunchTemplate {
    /// Executable.
    pub binary: String,
    /// Arguments; `{{port}}` stands for the allocated port.
    pub args: Vec<String>,
    /// Environment variables.
    pub env: std::collections::HashMap<String, String>,
    /// Log file.
    pub log_file: Option<String>,
    /// Whether administrator privileges are needed.
    pub requires_admin: bool,
}

/// Requirements a strategy places on the system.
pub struct StrategyRequirements {}

impl Default for StrategyRequirements {
    fn default() -> (r: Self) {
        StrategyRequirements {}
    }
}

/// A DPI-bypass strategy.
pub struct Strategy {
    /// Identifier.
    pub id: String,
    /// Display name.
    pub name: String,
    /// Description.
    pub description: String,
    /// Family.
    pub family: StrategyFamily,
    /// Program that runs it.
    pub engine: StrategyEngine,
    /// Supported launch modes.
    pub mode_capabilities: ModeCapabilities,
    /// Template for the SOCKS mode.
    pub socks_template: Option<LaunchTemplate>,
    /// Template for the global mode.
    pub global_template: Option<LaunchTemplate>,
    /// System requirements.
    pub requirements: StrategyRequirements,
    /// Ordering hint.
    pub weight_hint: u32,
    /// Services it is meant for.
    pub services: Vec<String>,
}

} // verus!
