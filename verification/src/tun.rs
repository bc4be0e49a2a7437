//! TUN interface settings and state, and how starting and stopping change
//! the state. Writing the configuration and running sing-box are left to
//! the application.
use vstd::prelude::*;
use crate::error::{ErrorKind, IsolateError};
use crate::text::owned;

verus! {

/// Settings of the TUN interface.
pub struct TunConfig {
    /// Interface name.
    pub interface_name: String,
    /// MTU.
    pub mtu: u32,
    /// IPv4 address of the interface.
    pub address_v4: String,
    /// IPv6 address of the interface, if any.
    pub address_v6: Option<String>,
    /// Whether all traffic is captured.
    pub strict_route: bool,
    /// Whether system routes are configured automatically.
    pub auto_route: bool,
    /// Network stack: `system`, `gvisor` or `mixed`.
    pub stack: String,
}

impl Default for TunConfig {
    fn default() -> (r: Self)
        ensures
            r.interface_name@ == "isolate-tun"@,
            r.mtu == 9000,
            r.address_v4@ == "172.19.0.1/24"@,
            r.address_v6 is None,
            !r.strict_route,
            r.auto_route,
            r.stack@ == "system"@,
    {
        TunConfig {
            interface_name: owned("isolate-tun"),
            mtu: 9000,
            address_v4: owned("172.19.0.1/24"),
            address_v6: None,
            strict_route: false,
            auto_route: true,
            stack: owned("system"),
        }
    }
}

impl TunConfig {
    /// The interface's addresses: the IPv4 one, then the IPv6 one if set.
    pub fn addresses(&self) -> (r: Vec<String>)
        ensures
            r@.len() == if self.address_v6 is Some { 2int } else { 1int },
            r@[0] == self.address_v4,
            self.address_v6 matches Some(v6) ==> r@[1] == v6,
    {
        let mut r: Vec<String> = Vec::new();
        r.push(self.address_v4.clone());
        if let Some(v6) = &self.address_v6 {
            r.push(v6.clone());
        }
        r
    }
}

/// State of the TUN interface.
#[derive(PartialEq, Eq, Structural, Clone, Copy, Debug)]
pub enum TunStatus {
    Stopped,
    Starting,
    Running,
    Stopping,
    Failed,
}

/// A TUN interface run by the application.
pub struct TunInstance {
    pub status: TunStatus,
    pub socks_port: u16,
    pub pid: Option<u32>,
    pub started_at: Option<u64>,
    pub config: TunConfig,
}

impl TunInstance {
    /// A stopped interface with the given settings and the default SOCKS
    /// port 1080.
    pub fn stopped(config: TunConfig) -> (r: Self)
        ensures
            r.status == TunStatus::Stopped,
            r.socks_port == 1080,
            r.pid is None,
            r.started_at is None,
            r.config == config,
    {
        TunInstance { status: TunStatus::Stopped, socks_port: 1080, pid: None, started_at: None, config }
    }

    /// Whether the interface runs.
    pub fn is_running(&self) -> (r: bool)
        ensures
            r == (self.status == TunStatus::Running),
    {
        self.status == TunStatus::Running
    }

    /// Replaces the settings; they take effect at the next start.
    pub fn set_config(&mut self, config: TunConfig)
        ensures
            *final(self) == (TunInstance { config, ..*old(self) }),
    {
        self.config = config;
    }

    /// Begins a start through the given SOCKS port: refused when the
    /// interface already runs, and without administrator privileges;
    /// otherwise it is starting.
    pub fn begin_start(&mut self, socks_port: u16, is_admin: bool) -> (r: Result<(), IsolateError>)
        ensures
            old(self).status == TunStatus::Running ==> (r matches Err(e) && e@ == (
                ErrorKind::Process,
                "TUN is already running"@,
            ) && *final(self) == *old(self)),
            old(self).status != TunStatus::Running && !is_admin ==> (r matches Err(e) && e is RequiresAdmin
                && *final(self) == *old(self)),
            old(self).status != TunStatus::Running && is_admin ==> (r is Ok && *final(self) == (TunInstance {
                status: TunStatus::Starting,
                socks_port,
                ..*old(self)
            })),
    {
        if self.status == TunStatus::Running {
            return Err(IsolateError::Process(owned("TUN is already running")));
        }
        if !is_admin {
            return Err(IsolateError::RequiresAdmin);
        }
        self.status = TunStatus::Starting;
        self.socks_port = socks_port;
        Ok(())
    }

    /// Records that sing-box could not be started.
    pub fn launch_failed(&mut self)
        ensures
            *final(self) == (TunInstance { status: TunStatus::Failed, ..*old(self) }),
    {
        self.status = TunStatus::Failed;
    }

    /// Records that sing-box runs with the given process id since
    /// `started_at` (seconds since the epoch).
    pub fn launched(&mut self, pid: Option<u32>, started_at: u64)
        ensures
            *final(self) == (TunInstance {
                status: TunStatus::Running,
                pid,
                started_at: Some(started_at),
                ..*old(self)
            }),
    {
        self.pid = pid;
        self.started_at = Some(started_at);
        self.status = TunStatus::Running;
    }

    /// Begins a stop: nothing is done when the interface is already stopped
    /// (`false`); otherwise it is stopping (`true`).
    pub fn begin_stop(&mut self) -> (r: bool)
        ensures
            r == (old(self).status != TunStatus::Stopped),
            !r ==> *final(self) == *old(self),
            r ==> *final(self) == (TunInstance { status: TunStatus::Stopping, ..*old(self) }),
    {
        if self.status == TunStatus::Stopped {
            return false;
        }
        self.status = TunStatus::Stopping;
        true
    }

    /// Records that sing-box has stopped.
    pub fn finish_stop(&mut self)
        ensures
            *final(self) == (TunInstance {
                status: TunStatus::Stopped,
                pid: None,
                started_at: None,
                ..*old(self)
            }),
    {
        self.pid = None;
        self.started_at = None;
        self.status = TunStatus::Stopped;
    }
}

} // verus!
