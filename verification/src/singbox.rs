//! State of sing-box instances: the instances that run, by configuration,
//! and the local ports they hold; how a health check changes an instance;
//! which local port a new instance gets. Running sing-box and probing its
//! port are left to the application.
use vstd::prelude::*;
use crate::decimal::{decimal, u64_to_chars};
use crate::error::{ErrorKind, IsolateError};
use crate::keyed::{
    find_by, keys_distinct, lemma_find_after_write, lemma_find_at, lemma_remove_push, lemma_upsert_at,
    lemma_writes_keep_keys_distinct, remove_by, upsert_by,
};
use crate::text::{chars_of, extend_chars, owned, str_eq, string_of};

verus! {

/// State of a sing-box instance.
#[derive(PartialEq, Eq, Structural, Clone, Copy, Debug)]
pub enum SingboxStatus {
    Starting,
    Running,
    Stopping,
    Stopped,
    Failed,
    HealthCheckFailed,
}

/// A sing-box instance run by the application.
#[derive(Debug)]
pub struct SingboxInstance {
    pub config_id: String,
    pub config_name: String,
    pub socks_port: u16,
    pub status: SingboxStatus,
    pub pid: Option<u32>,
    pub started_at: Option<u64>,
    pub last_health_check: Option<u64>,
    pub health_check_failures: u32,
}

/// Failed health checks in a row after which an instance is marked failed.
pub const MAX_HEALTH_FAILURES: u32 = 3;

/// The status and failure count after a health check: a passed check
/// resets the count and marks the instance running; a failed one adds to
/// the count and marks it failed once the count reaches
/// [`MAX_HEALTH_FAILURES`].
pub open spec fn health_step(status: SingboxStatus, failures: int, healthy: bool) -> (SingboxStatus, int) {
    if healthy {
        (SingboxStatus::Running, 0)
    } else if failures + 1 >= MAX_HEALTH_FAILURES {
        (SingboxStatus::HealthCheckFailed, failures + 1)
    } else {
        (status, failures + 1)
    }
}

/// The status and failure count after a run of health checks, in order.
pub open spec fn health_run(status: SingboxStatus, failures: int, checks: Seq<bool>) -> (SingboxStatus, int)
    decreases checks.len(),
{
    if checks.len() == 0 {
        (status, failures)
    } else {
        let (s, f) = health_run(status, failures, checks.drop_last());
        health_step(s, f, checks.last())
    }
}

impl SingboxInstance {
    /// Records a health check made at `now_secs` (seconds since the epoch).
    pub fn record_health_check(&mut self, now_secs: u64, healthy: bool)
        requires
            healthy || old(self).health_check_failures < u32::MAX,
        ensures
            final(self).last_health_check == Some(now_secs),
            (final(self).status, final(self).health_check_failures as int) == health_step(
                old(self).status,
                old(self).health_check_failures as int,
                healthy,
            ),
            final(self).config_id == old(self).config_id,
            final(self).config_name == old(self).config_name,
            final(self).socks_port == old(self).socks_port,
            final(self).pid == old(self).pid,
            final(self).started_at == old(self).started_at,
    {
        self.last_health_check = Some(now_secs);
        if healthy {
            self.health_check_failures = 0;
            self.status = SingboxStatus::Running;
        } else {
            self.health_check_failures = self.health_check_failures + 1;
            if self.health_check_failures >= MAX_HEALTH_FAILURES {
                self.status = SingboxStatus::HealthCheckFailed;
            }
        }
    }
}

/// After [`MAX_HEALTH_FAILURES`] failed checks in a row an instance is
/// marked failed, whatever came before; after a passed check it is running
/// with no failure counted.
pub proof fn lemma_health_run(status: SingboxStatus, failures: int, checks: Seq<bool>)
    requires
        failures >= 0,
    ensures
        checks.len() > 0 && checks.last() ==> health_run(status, failures, checks) == (
            SingboxStatus::Running,
            0int,
        ),
        checks.len() >= 3 && !checks[checks.len() - 1] && !checks[checks.len() - 2]
            && !checks[checks.len() - 3] ==> health_run(status, failures, checks).0
            == SingboxStatus::HealthCheckFailed,
        health_run(status, failures, checks).1 >= 0,
    decreases checks.len(),
{
    if checks.len() > 0 {
        let t = checks.drop_last();
        lemma_health_run(status, failures, t);
        if t.len() > 0 {
            lemma_health_run(status, failures, t.drop_last());
            if t.drop_last().len() > 0 {
                lemma_health_run(status, failures, t.drop_last().drop_last());
            }
        }
    }
}

/// The first port from `base` up that is not in use; when every port up to
/// 65535 is in use, `base` itself.
pub open spec fn free_port_from(base: u16, used: Seq<u16>, p: int) -> u16
    decreases 65536 - p,
{
    if p < base || p > 65535 {
        base
    } else if !used.contains(p as u16) {
        p as u16
    } else if p == 65535 {
        base
    } else {
        free_port_from(base, used, p + 1)
    }
}

/// The port handed out is free and every port between `base` and it is in
/// use; only when all ports from `base` up are in use is `base` handed out
/// although it is in use.
pub proof fn lemma_free_port(base: u16, used: Seq<u16>, p: int)
    requires
        base <= p <= 65535,
    ensures
        ({
            let r = free_port_from(base, used, p);
            (!used.contains(r) && p <= r && (forall|q: int|
                p <= q < r ==> #[trigger] used.contains(q as u16))) || (r == base && (forall|q: int|
                p <= q <= 65535 ==> #[trigger] used.contains(q as u16)))
        }),
    decreases 65536 - p,
{
    if used.contains(p as u16) && p < 65535 {
        lemma_free_port(base, used, p + 1);
    }
}

fn in_use(used: &[u16], p: u16) -> (r: bool)
    ensures
        r == used@.contains(p),
{
    let mut i: usize = 0;
    while i < used.len()
        invariant
            i <= used@.len(),
            forall|k: int| 0 <= k < i ==> used@[k] != p,
        decreases used@.len() - i,
    {
        if used[i] == p {
            proof {
                assert(used@[i as int] == p);
            }
            return true;
        }
        i = i + 1;
    }
    false
}

/// The port a new instance gets: the first free one from `base` up (see
/// [`free_port_from`]).
pub fn allocate_port(base: u16, used: &[u16]) -> (r: u16)
    ensures
        r == free_port_from(base, used@, base as int),
{
    let mut port = base;
    while in_use(used, port)
        invariant
            base <= port,
            free_port_from(base, used@, base as int) == free_port_from(base, used@, port as int),
        decreases 65535 - port,
    {
        if port == 65535 {
            return base;
        }
        port = port + 1;
    }
    port
}


impl Clone for SingboxInstance {
    fn clone(&self) -> (r: Self)
        ensures
            r == *self,
    {
        SingboxInstance {
            config_id: self.config_id.clone(),
            config_name: self.config_name.clone(),
            socks_port: self.socks_port,
            status: self.status,
            pid: self.pid,
            started_at: self.started_at,
            last_health_check: self.last_health_check,
            health_check_failures: self.health_check_failures,
        }
    }
}

// ===========================================================================
// The instances
// ===========================================================================

/// The key of an instance: its configuration id.
pub open spec fn instance_key() -> spec_fn(SingboxInstance) -> Seq<char> {
    |i: SingboxInstance| i.config_id@
}

/// The key of a port reservation: the port.
pub open spec fn port_key() -> spec_fn((u16, Seq<char>)) -> u16 {
    |e: (u16, Seq<char>)| e.0
}

/// The manager's state as values.
pub struct SingboxView {
    /// The instances, one per configuration.
    pub instances: Seq<SingboxInstance>,
    /// Reserved ports with the configuration holding each.
    pub ports: Seq<(u16, Seq<char>)>,
}

/// At most one instance per configuration and one reservation per port.
pub open spec fn well_keyed(v: SingboxView) -> bool {
    keys_distinct(v.instances, instance_key()) && keys_distinct(v.ports, port_key())
}

/// The instance of a configuration.
pub open spec fn instance_for(v: SingboxView, id: Seq<char>) -> Option<SingboxInstance> {
    find_by(v.instances, instance_key(), id)
}

/// The reservation of a port.
pub open spec fn reservation(v: SingboxView, port: u16) -> Option<(u16, Seq<char>)> {
    find_by(v.ports, port_key(), port)
}

/// The message refusing a port that another configuration holds.
pub open spec fn port_in_use_message(port: u16, holder: Seq<char>) -> Seq<char> {
    "Port "@ + decimal(port as nat) + " is already in use by config '"@ + holder + "'"@
}

/// The message for a configuration that has no instance.
pub open spec fn no_instance_message(id: Seq<char>) -> Seq<char> {
    "No running instance for config '"@ + id + "'"@
}

/// What starting a configuration on a port comes to: an instance that
/// already runs is reused; a port that another configuration holds is
/// refused; otherwise sing-box is to be started (`None`).
pub open spec fn start_decision(v: SingboxView, id: Seq<char>, port: u16) -> Result<
    Option<SingboxInstance>,
    (ErrorKind, Seq<char>),
> {
    match instance_for(v, id) {
        Some(i) if i.status == SingboxStatus::Running => Ok(Some(i)),
        _ => match reservation(v, port) {
            Some(e) if e.1 != id => Err((ErrorKind::Process, port_in_use_message(port, e.1))),
            _ => Ok(None),
        },
    }
}

/// The instance after a health check made at `now`.
pub open spec fn health_checked(i: SingboxInstance, now: u64, healthy: bool) -> SingboxInstance {
    let (status, failures) = health_step(i.status, i.health_check_failures as int, healthy);
    SingboxInstance { status, health_check_failures: failures as u32, last_health_check: Some(now), ..i }
}

/// The configuration id of a proxy's TUN instance: `<id>-tun`.
pub open spec fn tun_id(proxy_id: Seq<char>) -> Seq<char> {
    proxy_id + "-tun"@
}

/// The name of a proxy's TUN instance: `<name> (TUN)`.
pub open spec fn tun_name(proxy_name: Seq<char>) -> Seq<char> {
    proxy_name + " (TUN)"@
}

/// The configuration id of a proxy's TUN instance (see [`tun_id`]).
pub fn tun_config_id(proxy_id: &str) -> (r: String)
    ensures
        r@ == tun_id(proxy_id@),
{
    let mut v = chars_of(proxy_id);
    extend_chars(&mut v, &chars_of("-tun"));
    string_of(&v)
}

/// The name of a proxy's TUN instance (see [`tun_name`]).
pub fn tun_config_name(proxy_name: &str) -> (r: String)
    ensures
        r@ == tun_name(proxy_name@),
{
    let mut v = chars_of(proxy_name);
    extend_chars(&mut v, &chars_of(" (TUN)"));
    string_of(&v)
}

/// Tracks the sing-box instances that run and the ports they hold.
pub struct SingboxManager {
    instances: Vec<SingboxInstance>,
    used_ports: Vec<(u16, String)>,
}

impl View for SingboxManager {
    type V = SingboxView;

    closed spec fn view(&self) -> SingboxView {
        SingboxView {
            instances: self.instances@,
            ports: self.used_ports@.map_values(|e: (u16, String)| (e.0, e.1@)),
        }
    }
}

impl Default for SingboxManager {
    fn default() -> (r: Self)
        ensures
            r@.instances.len() == 0,
            r@.ports.len() == 0,
    {
        SingboxManager::new()
    }
}

impl SingboxManager {
    /// A manager with no instance.
    pub fn new() -> (r: Self)
        ensures
            r@.instances.len() == 0,
            r@.ports.len() == 0,
    {
        SingboxManager { instances: Vec::new(), used_ports: Vec::new() }
    }

    fn instance_index(&self, config_id: &str) -> (r: Option<usize>)
        ensures
            match r {
                Some(k) => k < self@.instances.len() && instance_for(self@, config_id@) == Some(
                    self@.instances[k as int],
                ) && self@.instances[k as int].config_id@ == config_id@ && forall|j: int|
                    0 <= j < k ==> (instance_key())(#[trigger] self@.instances[j]) != config_id@,
                None => instance_for(self@, config_id@) is None && forall|j: int|
                    0 <= j < self@.instances.len() ==> (instance_key())(#[trigger] self@.instances[j])
                        != config_id@,
            },
    {
        let ghost s = self@.instances;
        let mut i: usize = 0;
        while i < self.instances.len()
            invariant
                s == self@.instances,
                i <= s.len(),
                forall|j: int| 0 <= j < i ==> (instance_key())(#[trigger] s[j]) != config_id@,
            decreases s.len() - i,
        {
            if str_eq(self.instances[i].config_id.as_str(), config_id) {
                proof {
                    lemma_find_at(s, instance_key(), config_id@, i as int);
                }
                return Some(i);
            }
            i = i + 1;
        }
        proof {
            lemma_find_at(s, instance_key(), config_id@, i as int);
        }
        None
    }

    fn port_index(&self, port: u16) -> (r: Option<usize>)
        ensures
            match r {
                Some(k) => k < self@.ports.len() && reservation(self@, port) == Some(self@.ports[k as int])
                    && self.used_ports@[k as int].0 == port && forall|j: int|
                    0 <= j < k ==> (port_key())(#[trigger] self@.ports[j]) != port,
                None => reservation(self@, port) is None && forall|j: int|
                    0 <= j < self@.ports.len() ==> (port_key())(#[trigger] self@.ports[j]) != port,
            },
    {
        let ghost s = self@.ports;
        let mut i: usize = 0;
        while i < self.used_ports.len()
            invariant
                s == self@.ports,
                s.len() == self.used_ports@.len(),
                i <= s.len(),
                forall|j: int| 0 <= j < i ==> (port_key())(#[trigger] s[j]) != port,
            decreases s.len() - i,
        {
            proof {
                assert(s[i as int].0 == self.used_ports@[i as int].0);
            }
            if self.used_ports[i].0 == port {
                proof {
                    lemma_find_at(s, port_key(), port, i as int);
                }
                return Some(i);
            }
            i = i + 1;
        }
        proof {
            lemma_find_at(s, port_key(), port, i as int);
        }
        None
    }

    /// Decides a start of a configuration on a port (see
    /// [`start_decision`]); when sing-box is to be started the application
    /// starts it and calls [`SingboxManager::record_started`].
    pub fn begin_start(&self, config_id: &str, socks_port: u16) -> (r: Result<
        Option<SingboxInstance>,
        IsolateError,
    >)
        ensures
            match (r, start_decision(self@, config_id@, socks_port)) {
                (Ok(a), Ok(b)) => a == b,
                (Err(e), Err(f)) => e@ == f,
                _ => false,
            },
    {
        if let Some(k) = self.instance_index(config_id) {
            if self.instances[k].status == SingboxStatus::Running {
                return Ok(Some(self.instances[k].clone()));
            }
        }
        if let Some(k) = self.port_index(socks_port) {
            let holder = self.used_ports[k].1.as_str();
            if !str_eq(holder, config_id) {
                let mut v = chars_of("Port ");
                extend_chars(&mut v, &u64_to_chars(socks_port as u64));
                extend_chars(&mut v, &chars_of(" is already in use by config '"));
                extend_chars(&mut v, &chars_of(holder));
                extend_chars(&mut v, &chars_of("'"));
                proof {
                    assert(self@.ports[k as int].1 == holder@);
                }
                return Err(IsolateError::Process(string_of(&v)));
            }
        }
        Ok(None)
    }

    /// Decides a TUN start for a proxy: its TUN instance is reused when it
    /// runs; otherwise sing-box is to be started (`None`). No port is
    /// involved.
    pub fn begin_tun_start(&self, proxy_id: &str) -> (r: Option<SingboxInstance>)
        ensures
            r == match instance_for(self@, tun_id(proxy_id@)) {
                Some(i) => if i.status == SingboxStatus::Running {
                    Some(i)
                } else {
                    None
                },
                None => None,
            },
    {
        let id = tun_config_id(proxy_id);
        match self.instance_index(id.as_str()) {
            Some(k) => {
                if self.instances[k].status == SingboxStatus::Running {
                    Some(self.instances[k].clone())
                } else {
                    None
                }
            },
            None => None,
        }
    }

    /// Records the TUN instance that sing-box now runs for a proxy: id
    /// `<id>-tun`, name `<name> (TUN)`, no SOCKS port (0) and no port
    /// reserved.
    pub fn record_tun_started(&mut self, proxy_id: &str, proxy_name: &str, pid: Option<u32>, started_at: u64) -> (r:
        SingboxInstance)
        ensures
            r.config_id@ == tun_id(proxy_id@),
            r.config_name@ == tun_name(proxy_name@),
            r.socks_port == 0,
            r.status == SingboxStatus::Running,
            r.pid == pid,
            r.started_at == Some(started_at),
            r.last_health_check is None,
            r.health_check_failures == 0,
            final(self)@.instances == upsert_by(old(self)@.instances, instance_key(), r),
            final(self)@.ports == old(self)@.ports,
            well_keyed(old(self)@) ==> well_keyed(final(self)@),
    {
        let id = tun_config_id(proxy_id);
        let name = tun_config_name(proxy_name);
        self.record_started(id.as_str(), name.as_str(), 0, pid, started_at, false)
    }

    /// Records an instance that sing-box now runs for a configuration,
    /// started at `started_at` (seconds since the epoch), in place of any
    /// instance it had; with `reserve_port` its port is reserved for it.
    pub fn record_started(
        &mut self,
        config_id: &str,
        config_name: &str,
        socks_port: u16,
        pid: Option<u32>,
        started_at: u64,
        reserve_port: bool,
    ) -> (r: SingboxInstance)
        ensures
            r.config_id@ == config_id@,
            r.config_name@ == config_name@,
            r.socks_port == socks_port,
            r.status == SingboxStatus::Running,
            r.pid == pid,
            r.started_at == Some(started_at),
            r.last_health_check is None,
            r.health_check_failures == 0,
            final(self)@.instances == upsert_by(old(self)@.instances, instance_key(), r),
            final(self)@.ports == if reserve_port {
                upsert_by(old(self)@.ports, port_key(), (socks_port, config_id@))
            } else {
                old(self)@.ports
            },
            well_keyed(old(self)@) ==> well_keyed(final(self)@),
    {
        proof {
            if well_keyed(self@) {
                lemma_writes_keep_keys_distinct(self@.ports, port_key(), (socks_port, config_id@), socks_port);
            }
        }
        let inst = SingboxInstance {
            config_id: owned(config_id),
            config_name: owned(config_name),
            socks_port,
            status: SingboxStatus::Running,
            pid,
            started_at: Some(started_at),
            last_health_check: None,
            health_check_failures: 0,
        };
        let ghost old_instances = self@.instances;
        let ghost e = inst;
        proof {
            if keys_distinct(old_instances, instance_key()) {
                lemma_writes_keep_keys_distinct(old_instances, instance_key(), e, config_id@);
            }
        }
        match self.instance_index(config_id) {
            Some(k) => {
                self.instances.set(k, inst.clone());
                proof {
                    lemma_upsert_at(old_instances, instance_key(), e, k as int);
                }
            },
            None => {
                self.instances.push(inst.clone());
                proof {
                    lemma_upsert_at(old_instances, instance_key(), e, old_instances.len() as int);
                }
            },
        }
        if reserve_port {
            let ghost old_ports = self@.ports;
            let ghost entry = (socks_port, config_id@);
            match self.port_index(socks_port) {
                Some(k) => {
                    self.used_ports.set(k, (socks_port, owned(config_id)));
                    proof {
                        assert(self@.ports =~= old_ports.update(k as int, entry));
                        lemma_upsert_at(old_ports, port_key(), entry, k as int);
                    }
                },
                None => {
                    self.used_ports.push((socks_port, owned(config_id)));
                    proof {
                        assert(self@.ports =~= old_ports.push(entry));
                        lemma_upsert_at(old_ports, port_key(), entry, old_ports.len() as int);
                    }
                },
            }
        }
        inst
    }

    fn remove_instances(&mut self, config_id: &str)
        ensures
            final(self)@.instances == remove_by(old(self)@.instances, instance_key(), config_id@),
            final(self)@.ports == old(self)@.ports,
    {
        let ghost s = self@.instances;
        let before = self.instances.len();
        let mut rest: Vec<SingboxInstance> = Vec::new();
        std::mem::swap(&mut rest, &mut self.instances);
        let mut kept: Vec<SingboxInstance> = Vec::new();
        let mut i: usize = 0;
        proof {
            assert(s.take(0) =~= Seq::<SingboxInstance>::empty());
        }
        while rest.len() > 0
            invariant
                s.len() == before,
                i + rest@.len() == s.len(),
                rest@ == s.skip(i as int),
                kept@ == remove_by(s.take(i as int), instance_key(), config_id@),
            decreases rest@.len(),
        {
            let e = rest.remove(0);
            proof {
                assert(e == s[i as int]);
                assert(rest@ =~= s.skip(i as int + 1));
                assert(s.take(i as int + 1) =~= s.take(i as int).push(e));
                lemma_remove_push(s.take(i as int), instance_key(), e, config_id@);
            }
            if !str_eq(e.config_id.as_str(), config_id) {
                kept.push(e);
            }
            i = i + 1;
        }
        proof {
            assert(s.take(i as int) =~= s);
        }
        self.instances = kept;
    }

    fn release_port(&mut self, port: u16)
        ensures
            final(self)@.ports == remove_by(old(self)@.ports, port_key(), port),
            final(self)@.instances == old(self)@.instances,
    {
        let ghost s = self@.ports;
        let before = self.used_ports.len();
        let mut rest: Vec<(u16, String)> = Vec::new();
        std::mem::swap(&mut rest, &mut self.used_ports);
        let mut kept: Vec<(u16, String)> = Vec::new();
        let mut i: usize = 0;
        proof {
            assert(s.take(0) =~= Seq::<(u16, Seq<char>)>::empty());
            assert(kept@.map_values(|e: (u16, String)| (e.0, e.1@)) =~= Seq::<(u16, Seq<char>)>::empty());
        }
        while rest.len() > 0
            invariant
                s.len() == before,
                i + rest@.len() == s.len(),
                rest@.map_values(|e: (u16, String)| (e.0, e.1@)) == s.skip(i as int),
                kept@.map_values(|e: (u16, String)| (e.0, e.1@)) == remove_by(s.take(i as int), port_key(), port),
            decreases rest@.len(),
        {
            let ghost r0 = rest@;
            let e = rest.remove(0);
            let ghost ev = (e.0, e.1@);
            proof {
                assert(r0.map_values(|e: (u16, String)| (e.0, e.1@))[0] == ev);
                assert(ev == s[i as int]);
                assert forall|j: int| 0 <= j < rest@.len() implies rest@.map_values(
                    |e: (u16, String)| (e.0, e.1@),
                )[j] == #[trigger] s.skip(i as int + 1)[j] by {
                    assert(rest@[j] == r0[j + 1]);
                    assert(r0.map_values(|e: (u16, String)| (e.0, e.1@))[j + 1] == s.skip(i as int)[j + 1]);
                }
                assert(rest@.map_values(|e: (u16, String)| (e.0, e.1@)) =~= s.skip(i as int + 1));
                assert(s.take(i as int + 1) =~= s.take(i as int).push(ev));
                lemma_remove_push(s.take(i as int), port_key(), ev, port);
            }
            if e.0 != port {
                let ghost k0 = kept@;
                kept.push(e);
                proof {
                    assert(kept@.map_values(|e: (u16, String)| (e.0, e.1@)) =~= k0.map_values(
                        |e: (u16, String)| (e.0, e.1@),
                    ).push(ev));
                }
            }
            i = i + 1;
        }
        proof {
            assert(s.take(i as int) =~= s);
        }
        self.used_ports = kept;
    }

    /// Stops tracking the instance of a configuration and frees its port;
    /// the stopped instance is returned, marked stopping, for the
    /// application to stop its process. Refused when there is none.
    pub fn stop(&mut self, config_id: &str) -> (r: Result<SingboxInstance, IsolateError>)
        ensures
            match instance_for(old(self)@, config_id@) {
                None => r matches Err(e) && e@ == (ErrorKind::Process, no_instance_message(config_id@))
                    && final(self)@ == old(self)@,
                Some(i) => r matches Ok(x) && x == (SingboxInstance { status: SingboxStatus::Stopping, ..i })
                    && final(self)@.instances == remove_by(old(self)@.instances, instance_key(), config_id@)
                    && final(self)@.ports == remove_by(old(self)@.ports, port_key(), i.socks_port),
            },
            well_keyed(old(self)@) ==> well_keyed(final(self)@),
    {
        match self.instance_index(config_id) {
            None => {
                let mut v = chars_of("No running instance for config '");
                extend_chars(&mut v, &chars_of(config_id));
                extend_chars(&mut v, &chars_of("'"));
                Err(IsolateError::Process(string_of(&v)))
            },
            Some(k) => {
                let mut inst = self.instances[k].clone();
                inst.status = SingboxStatus::Stopping;
                proof {
                    if well_keyed(self@) {
                        lemma_writes_keep_keys_distinct(self@.instances, instance_key(), inst, config_id@);
                        lemma_writes_keep_keys_distinct(self@.ports, port_key(), self@.ports[0], inst.socks_port);
                    }
                }
                self.remove_instances(config_id);
                self.release_port(inst.socks_port);
                Ok(inst)
            },
        }
    }

    /// The configurations that have an instance, in order; stopping all
    /// stops each of them.
    pub fn instance_ids(&self) -> (r: Vec<String>)
        ensures
            r@.len() == self@.instances.len(),
            forall|k: int| 0 <= k < r@.len() ==> #[trigger] r@[k]@ == self@.instances[k].config_id@,
    {
        let mut out: Vec<String> = Vec::new();
        let mut i: usize = 0;
        while i < self.instances.len()
            invariant
                i <= self@.instances.len(),
                out@.len() == i,
                forall|k: int| 0 <= k < i ==> #[trigger] out@[k]@ == self@.instances[k].config_id@,
            decreases self@.instances.len() - i,
        {
            out.push(self.instances[i].config_id.clone());
            i = i + 1;
        }
        out
    }

    /// The instances, in order.
    pub fn list_instances(&self) -> (r: Vec<SingboxInstance>)
        ensures
            r@ == self@.instances,
    {
        let mut out: Vec<SingboxInstance> = Vec::new();
        let mut i: usize = 0;
        while i < self.instances.len()
            invariant
                i <= self@.instances.len(),
                out@ == self@.instances.take(i as int),
            decreases self@.instances.len() - i,
        {
            out.push(self.instances[i].clone());
            proof {
                assert(self@.instances.take(i as int + 1) =~= self@.instances.take(i as int).push(
                    self@.instances[i as int],
                ));
            }
            i = i + 1;
        }
        proof {
            assert(self@.instances.take(i as int) =~= self@.instances);
        }
        out
    }

    /// The instance of a configuration.
    pub fn get_status(&self, config_id: &str) -> (r: Option<SingboxInstance>)
        ensures
            r == instance_for(self@, config_id@),
    {
        match self.instance_index(config_id) {
            Some(k) => Some(self.instances[k].clone()),
            None => None,
        }
    }

    /// Whether the configuration has an instance that runs.
    pub fn is_running(&self, config_id: &str) -> (r: bool)
        ensures
            r == (instance_for(self@, config_id@) matches Some(i) && i.status == SingboxStatus::Running),
    {
        match self.instance_index(config_id) {
            Some(k) => self.instances[k].status == SingboxStatus::Running,
            None => false,
        }
    }

    /// The local port of the configuration's instance.
    pub fn get_socks_port(&self, config_id: &str) -> (r: Option<u16>)
        ensures
            r == match instance_for(self@, config_id@) {
                Some(i) => Some(i.socks_port),
                None => None,
            },
    {
        match self.instance_index(config_id) {
            Some(k) => Some(self.instances[k].socks_port),
            None => None,
        }
    }

    /// The port a health check of the configuration probes; refused when
    /// it has no instance.
    pub fn health_port(&self, config_id: &str) -> (r: Result<u16, IsolateError>)
        ensures
            match instance_for(self@, config_id@) {
                Some(i) => r == Ok::<u16, IsolateError>(i.socks_port),
                None => r matches Err(e) && e@ == (ErrorKind::Process, no_instance_message(config_id@)),
            },
    {
        match self.instance_index(config_id) {
            Some(k) => Ok(self.instances[k].socks_port),
            None => {
                let mut v = chars_of("No running instance for config '");
                extend_chars(&mut v, &chars_of(config_id));
                extend_chars(&mut v, &chars_of("'"));
                Err(IsolateError::Process(string_of(&v)))
            },
        }
    }

    /// Records a health check of the configuration's instance made at
    /// `now_secs` (see [`health_checked`]); nothing happens when it has
    /// none.
    pub fn record_health(&mut self, config_id: &str, now_secs: u64, healthy: bool)
        requires
            healthy || (instance_for(old(self)@, config_id@) matches Some(i) ==> i.health_check_failures
                < u32::MAX),
        ensures
            final(self)@.ports == old(self)@.ports,
            final(self)@.instances == match instance_for(old(self)@, config_id@) {
                Some(i) => upsert_by(old(self)@.instances, instance_key(), health_checked(i, now_secs, healthy)),
                None => old(self)@.instances,
            },
            well_keyed(old(self)@) ==> well_keyed(final(self)@),
    {
        if let Some(k) = self.instance_index(config_id) {
            let ghost old_instances = self@.instances;
            let mut inst = self.instances[k].clone();
            inst.record_health_check(now_secs, healthy);
            let ghost e = inst;
            proof {
                assert(e == health_checked(old_instances[k as int], now_secs, healthy));
                lemma_upsert_at(old_instances, instance_key(), e, k as int);
                if well_keyed(self@) {
                    lemma_writes_keep_keys_distinct(old_instances, instance_key(), e, config_id@);
                }
            }
            self.instances.set(k, inst);
        }
    }

    /// The port a new instance gets: the first port from `base` up that no
    /// configuration holds (see [`free_port_from`]).
    pub fn allocate_port(&self, base_port: u16) -> (r: u16)
        ensures
            r == free_port_from(base_port, self@.ports.map_values(|e: (u16, Seq<char>)| e.0), base_port as int),
    {
        let mut used: Vec<u16> = Vec::new();
        let mut i: usize = 0;
        while i < self.used_ports.len()
            invariant
                i <= self.used_ports@.len(),
                used@ == self@.ports.map_values(|e: (u16, Seq<char>)| e.0).take(i as int),
            decreases self.used_ports@.len() - i,
        {
            used.push(self.used_ports[i].0);
            proof {
                assert(self@.ports.map_values(|e: (u16, Seq<char>)| e.0).take(i as int + 1) =~= used@);
            }
            i = i + 1;
        }
        proof {
            assert(self@.ports.map_values(|e: (u16, Seq<char>)| e.0).take(i as int) =~= self@.ports.map_values(
                |e: (u16, Seq<char>)| e.0,
            ));
        }
        allocate_port(base_port, &used)
    }

    /// The port a restart uses: the instance's port, else 1080.
    pub fn restart_port(&self, config_id: &str) -> (r: u16)
        ensures
            r == match instance_for(self@, config_id@) {
                Some(i) => i.socks_port,
                None => 1080,
            },
    {
        match self.get_socks_port(config_id) {
            Some(p) => p,
            None => 1080,
        }
    }
}

/// Stopping undoes starting: after an instance is recorded for a
/// configuration with its port reserved, the configuration has that
/// instance and the port is held by it; after the stop, the configuration
/// has no instance, the port is free, and every other configuration and
/// port is as it was before the start.
pub proof fn lemma_stop_undoes_start(v: SingboxView, inst: SingboxInstance, x: Seq<char>, q: u16)
    ensures
        ({
            let id = inst.config_id@;
            let p = inst.socks_port;
            let started = SingboxView {
                instances: upsert_by(v.instances, instance_key(), inst),
                ports: upsert_by(v.ports, port_key(), (p, id)),
            };
            let stopped = SingboxView {
                instances: remove_by(started.instances, instance_key(), id),
                ports: remove_by(started.ports, port_key(), p),
            };
            &&& instance_for(started, id) == Some(inst)
            &&& reservation(started, p) == Some((p, id))
            &&& instance_for(stopped, id) is None
            &&& reservation(stopped, p) is None
            &&& x != id ==> instance_for(stopped, x) == instance_for(v, x)
            &&& q != p ==> reservation(stopped, q) == reservation(v, q)
        }),
{
    let id = inst.config_id@;
    let p = inst.socks_port;
    let si = upsert_by(v.instances, instance_key(), inst);
    let sp = upsert_by(v.ports, port_key(), (p, id));
    lemma_find_after_write(v.instances, instance_key(), inst, id, id);
    lemma_find_after_write(v.instances, instance_key(), inst, id, x);
    lemma_find_after_write(si, instance_key(), inst, id, id);
    lemma_find_after_write(si, instance_key(), inst, id, x);
    lemma_find_after_write(v.ports, port_key(), (p, id), p, p);
    lemma_find_after_write(v.ports, port_key(), (p, id), p, q);
    lemma_find_after_write(sp, port_key(), (p, id), p, p);
    lemma_find_after_write(sp, port_key(), (p, id), p, q);
}

} // verus!

