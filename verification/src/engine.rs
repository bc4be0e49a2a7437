//! Decisions of the strategy engine: the engine and launch modes, the
//! allocation of local SOCKS ports to strategies, the checks made before a
//! launch, and the substitution of the allocated port into arguments.
//! Starting and stopping processes is left to the application.
use vstd::prelude::*;
use crate::decimal::{decimal, u64_to_chars};
use crate::error::{ErrorKind, IsolateError};
use crate::models::{LaunchTemplate, Strategy};
use crate::text::{chars_of, matches_at, owned, str_eq, string_of, strings_view};

verus! {

/// First port handed out to SOCKS proxies.
pub const SOCKS_PORT_START: u16 = 10800;

/// Number of ports handed out to SOCKS proxies.
pub const MAX_SOCKS_PORTS: u16 = 100;

// ===========================================================================
// Modes
// ===========================================================================

/// How the engine runs strategies.
#[derive(PartialEq, Eq, Structural, Clone, Copy, Debug)]
pub enum EngineMode {
    /// Starts real processes.
    Real,
    /// Simulates launches, for interface work.
    Mock,
    /// Waits for the DPI simulator.
    DpiTest,
}

impl Default for EngineMode {
    fn default() -> (r: Self)
        ensures
            r == EngineMode::Real,
    {
        EngineMode::Real
    }
}

/// Display name of an engine mode.
pub open spec fn engine_mode_name(m: EngineMode) -> Seq<char> {
    match m {
        EngineMode::Real => "Real"@,
        EngineMode::Mock => "Mock"@,
        EngineMode::DpiTest => "DpiTest"@,
    }
}

impl EngineMode {
    /// The display name, such as `"Real"`.
    pub fn to_string(&self) -> (r: String)
        ensures
            r@ == engine_mode_name(*self),
    {
        match self {
            EngineMode::Real => owned("Real"),
            EngineMode::Mock => owned("Mock"),
            EngineMode::DpiTest => owned("DpiTest"),
        }
    }
}

/// How a strategy is launched.
#[derive(PartialEq, Eq, Structural, Clone, Copy, Debug)]
pub enum LaunchMode {
    /// As a local SOCKS proxy.
    Socks,
    /// Intercepting all traffic.
    Global,
}

// ===========================================================================
// Port allocation
// ===========================================================================

/// No port occurs twice.
pub open spec fn distinct_ports(s: Seq<(u16, Seq<char>)>) -> bool {
    forall|i: int, j: int| 0 <= i < j < s.len() ==> #[trigger] s[i].0 != #[trigger] s[j].0
}

/// Whether a port is allocated.
pub open spec fn port_taken(s: Seq<(u16, Seq<char>)>, p: u16) -> bool {
    exists|i: int| 0 <= i < s.len() && #[trigger] s[i].0 == p
}

/// The first port, from index `i` on, allocated to the strategy.
pub open spec fn port_of_from(s: Seq<(u16, Seq<char>)>, id: Seq<char>, i: int) -> Option<u16>
    decreases s.len() - i,
{
    if i < 0 || i >= s.len() {
        None
    } else if s[i].1 == id {
        Some(s[i].0)
    } else {
        port_of_from(s, id, i + 1)
    }
}

/// The first port, in allocation order, allocated to the strategy.
pub open spec fn port_of(s: Seq<(u16, Seq<char>)>, id: Seq<char>) -> Option<u16> {
    port_of_from(s, id, 0)
}

/// The strategy a port is allocated to, from index `i` on.
pub open spec fn owner_from(s: Seq<(u16, Seq<char>)>, p: u16, i: int) -> Option<Seq<char>>
    decreases s.len() - i,
{
    if i < 0 || i >= s.len() {
        None
    } else if s[i].0 == p {
        Some(s[i].1)
    } else {
        owner_from(s, p, i + 1)
    }
}

/// The lowest free SOCKS port at or above `p`.
pub open spec fn first_free_from(s: Seq<(u16, Seq<char>)>, p: int) -> Option<u16>
    decreases SOCKS_PORT_START + MAX_SOCKS_PORTS - p,
{
    if p < SOCKS_PORT_START || p >= SOCKS_PORT_START + MAX_SOCKS_PORTS {
        None
    } else if port_taken(s, p as u16) {
        first_free_from(s, p + 1)
    } else {
        Some(p as u16)
    }
}

/// The outcome of allocating a port to a strategy: the port it already has,
/// else the lowest free SOCKS port, recorded for it; `None` when every SOCKS
/// port is taken.
pub open spec fn allocation(s: Seq<(u16, Seq<char>)>, id: Seq<char>) -> Option<(u16, Seq<(u16, Seq<char>)>)> {
    match port_of(s, id) {
        Some(p) => Some((p, s)),
        None => match first_free_from(s, SOCKS_PORT_START as int) {
            Some(p) => Some((p, s.push((p, id)))),
            None => None,
        },
    }
}

/// The entries whose port is not `p`.
pub open spec fn without_port(s: Seq<(u16, Seq<char>)>, p: u16) -> Seq<(u16, Seq<char>)>
    decreases s.len(),
{
    if s.len() == 0 {
        Seq::empty()
    } else if s.last().0 == p {
        without_port(s.drop_last(), p)
    } else {
        without_port(s.drop_last(), p).push(s.last())
    }
}

/// The entries whose strategy is not `id`.
pub open spec fn without_strategy(s: Seq<(u16, Seq<char>)>, id: Seq<char>) -> Seq<(u16, Seq<char>)>
    decreases s.len(),
{
    if s.len() == 0 {
        Seq::empty()
    } else if s.last().1 == id {
        without_strategy(s.drop_last(), id)
    } else {
        without_strategy(s.drop_last(), id).push(s.last())
    }
}

/// The message refusing a port that is allocated to `owner`.
pub open spec fn port_conflict_message(p: u16, owner: Seq<char>) -> Seq<char> {
    "Port "@ + decimal(p as nat) + " already allocated to strategy '"@ + owner + "'"@
}

/// Hands out local SOCKS ports to strategies; a port is allocated to at
/// most one strategy.
pub struct PortManager {
    allocated: Vec<(u16, String)>,
}

impl View for PortManager {
    type V = Seq<(u16, Seq<char>)>;

    closed spec fn view(&self) -> Seq<(u16, Seq<char>)> {
        self.allocated@.map_values(|e: (u16, String)| (e.0, e.1@))
    }
}

impl PortManager {
    #[verifier::type_invariant]
    spec fn ports_unique(self) -> bool {
        distinct_ports(self@)
    }
}

impl Default for PortManager {
    fn default() -> (r: Self)
        ensures
            r@ == Seq::<(u16, Seq<char>)>::empty(),
    {
        let r = PortManager { allocated: Vec::new() };
        proof {
            assert(r@ =~= Seq::<(u16, Seq<char>)>::empty());
        }
        r
    }
}

proof fn lemma_filter_port_sub(s: Seq<(u16, Seq<char>)>, p: u16)
    ensures
        forall|x: (u16, Seq<char>)| without_port(s, p).contains(x) ==> s.contains(x) && x.0 != p,
        distinct_ports(s) ==> distinct_ports(without_port(s, p)),
    decreases s.len(),
{
    broadcast use vstd::seq_lib::group_seq_properties;

    if s.len() > 0 {
        let t = s.drop_last();
        lemma_filter_port_sub(t, p);
        assert(s =~= t.push(s.last()));
        let w = without_port(t, p);
        if s.last().0 != p {
            assert(without_port(s, p) == w.push(s.last()));
        } else {
            assert(without_port(s, p) == w);
        }
        if distinct_ports(s) && s.last().0 != p {
            let r = w.push(s.last());
            assert forall|i: int, j: int| 0 <= i < j < r.len() implies #[trigger] r[i].0 != #[trigger] r[j].0 by {
                if j == r.len() - 1 {
                    assert(r[i] == w[i]);
                    assert(w.contains(w[i]));
                    assert(t.contains(w[i]));
                    let m = choose|m: int| 0 <= m < t.len() && t[m] == w[i];
                    assert(s[m] == t[m]);
                    assert(r[j] == s[s.len() - 1]);
                } else {
                    assert(r[i] == w[i] && r[j] == w[j]);
                }
            }
        }
    }
}

proof fn lemma_filter_strategy_sub(s: Seq<(u16, Seq<char>)>, id: Seq<char>)
    ensures
        forall|x: (u16, Seq<char>)| without_strategy(s, id).contains(x) ==> s.contains(x) && x.1 != id,
        distinct_ports(s) ==> distinct_ports(without_strategy(s, id)),
    decreases s.len(),
{
    broadcast use vstd::seq_lib::group_seq_properties;

    if s.len() > 0 {
        let t = s.drop_last();
        lemma_filter_strategy_sub(t, id);
        assert(s =~= t.push(s.last()));
        let w = without_strategy(t, id);
        if s.last().1 != id {
            assert(without_strategy(s, id) == w.push(s.last()));
        } else {
            assert(without_strategy(s, id) == w);
        }
        if distinct_ports(s) && s.last().1 != id {
            let r = w.push(s.last());
            assert forall|i: int, j: int| 0 <= i < j < r.len() implies #[trigger] r[i].0 != #[trigger] r[j].0 by {
                if j == r.len() - 1 {
                    assert(r[i] == w[i]);
                    assert(w.contains(w[i]));
                    assert(t.contains(w[i]));
                    let m = choose|m: int| 0 <= m < t.len() && t[m] == w[i];
                    assert(s[m] == t[m]);
                    assert(r[j] == s[s.len() - 1]);
                } else {
                    assert(r[i] == w[i] && r[j] == w[j]);
                }
            }
        }
    }
}

proof fn lemma_first_free_range(s: Seq<(u16, Seq<char>)>, p: int)
    requires
        SOCKS_PORT_START <= p,
    ensures
        match first_free_from(s, p) {
            Some(q) => p <= q < SOCKS_PORT_START + MAX_SOCKS_PORTS && SOCKS_PORT_START <= q
                && !port_taken(s, q) && forall|k: int| p <= k < q ==> #[trigger] port_taken(s, k as u16),
            None => forall|k: int|
                p <= k < SOCKS_PORT_START + MAX_SOCKS_PORTS && SOCKS_PORT_START <= k ==> #[trigger] port_taken(
                    s,
                    k as u16,
                ),
        },
    decreases SOCKS_PORT_START + MAX_SOCKS_PORTS - p,
{
    if SOCKS_PORT_START <= p < SOCKS_PORT_START + MAX_SOCKS_PORTS {
        lemma_first_free_range(s, p + 1);
    }
}

proof fn lemma_port_of_found(s: Seq<(u16, Seq<char>)>, id: Seq<char>, i: int)
    requires
        0 <= i,
    ensures
        match port_of_from(s, id, i) {
            Some(p) => exists|k: int| i <= k < s.len() && s[k].1 == id && #[trigger] s[k].0 == p,
            None => forall|k: int| i <= k < s.len() ==> s[k].1 != id,
        },
    decreases s.len() - i,
{
    if i < s.len() {
        lemma_port_of_found(s, id, i + 1);
    }
}

pub(crate) proof fn lemma_port_of_push(s: Seq<(u16, Seq<char>)>, e: (u16, Seq<char>), id: Seq<char>, i: int)
    requires
        0 <= i <= s.len(),
    ensures
        port_of_from(s.push(e), id, i) == match port_of_from(s, id, i) {
            Some(p) => Some(p),
            None => if e.1 == id {
                Some(e.0)
            } else {
                None
            },
        },
    decreases s.len() - i,
{
    if i < s.len() {
        lemma_port_of_push(s, e, id, i + 1);
        assert(s.push(e)[i] == s[i]);
    } else {
        assert(s.push(e)[i] == e);
        assert(port_of_from(s.push(e), id, i + 1) is None);
    }
}

impl PortManager {
    /// Whether the port is allocated.
    pub fn is_allocated(&self, port: u16) -> (r: bool)
        ensures
            r == port_taken(self@, port),
    {
        let ghost s = self@;
        let mut i: usize = 0;
        while i < self.allocated.len()
            invariant
                s == self@,
                s.len() == self.allocated@.len(),
                i <= s.len(),
                forall|k: int| 0 <= k < i ==> s[k].0 != port,
            decreases s.len() - i,
        {
            proof {
                assert(s[i as int].0 == self.allocated@[i as int].0);
            }
            if self.allocated[i].0 == port {
                return true;
            }
            i = i + 1;
        }
        false
    }

    /// The first port allocated to the strategy, in allocation order.
    pub fn get_port(&self, strategy_id: &str) -> (r: Option<u16>)
        ensures
            r == port_of(self@, strategy_id@),
    {
        let ghost s = self@;
        let mut i: usize = 0;
        while i < self.allocated.len()
            invariant
                s == self@,
                s.len() == self.allocated@.len(),
                i <= s.len(),
                port_of(s, strategy_id@) == port_of_from(s, strategy_id@, i as int),
            decreases s.len() - i,
        {
            proof {
                assert(s[i as int] == (self.allocated@[i as int].0, self.allocated@[i as int].1@));
            }
            if str_eq(self.allocated[i].1.as_str(), strategy_id) {
                return Some(self.allocated[i].0);
            }
            i = i + 1;
        }
        None
    }

    /// The number of allocated ports.
    pub fn allocated_count(&self) -> (r: usize)
        ensures
            r == self@.len(),
    {
        self.allocated.len()
    }

    /// Allocates a port to the strategy (see [`allocation`]): the port it
    /// already has, else the lowest free SOCKS port; refused when every
    /// SOCKS port is taken.
    pub fn allocate(&mut self, strategy_id: &str) -> (r: Result<u16, IsolateError>)
        ensures
            match allocation(old(self)@, strategy_id@) {
                Some((p, s)) => r matches Ok(q) && q == p && final(self)@ == s,
                None => r matches Err(e) && e@ == (ErrorKind::Process, "No free SOCKS ports available"@)
                    && final(self)@ == old(self)@,
            },
    {
        proof {
            use_type_invariant(&*self);
        }
        if let Some(existing) = self.get_port(strategy_id) {
            return Ok(existing);
        }
        let ghost s = self@;
        let mut port: u16 = SOCKS_PORT_START;
        while port < SOCKS_PORT_START + MAX_SOCKS_PORTS
            invariant
                s == self@,
                s == old(self)@,
                distinct_ports(s),
                port_of(s, strategy_id@) is None,
                SOCKS_PORT_START <= port <= SOCKS_PORT_START + MAX_SOCKS_PORTS,
                first_free_from(s, SOCKS_PORT_START as int) == first_free_from(s, port as int),
            decreases SOCKS_PORT_START + MAX_SOCKS_PORTS - port,
        {
            if !self.is_allocated(port) {
                let ghost e = (port, strategy_id@);
                proof {
                    assert(!port_taken(s, port));
                    assert((port as int) as u16 == port);
                    assert(first_free_from(s, port as int) == Some(port));
                    assert forall|k: int| 0 <= k < s.len() implies #[trigger] s[k].0 != port by {
                        if s[k].0 == port {
                            assert(port_taken(s, port));
                        }
                    }
                }
                let mut entries: Vec<(u16, String)> = Vec::new();
                std::mem::swap(&mut entries, &mut self.allocated);
                entries.push((port, owned(strategy_id)));
                proof {
                    assert(entries@.map_values(|e: (u16, String)| (e.0, e.1@)) =~= s.push(e));
                    let r = s.push(e);
                    assert forall|i: int, j: int| 0 <= i < j < r.len() implies #[trigger] r[i].0 != #[trigger] r[j].0 by {
                        if j == r.len() - 1 {
                            assert(r[i] == s[i]);
                        } else {
                            assert(r[i] == s[i] && r[j] == s[j]);
                        }
                    }
                }
                self.allocated = entries;
                return Ok(port);
            }
            port = port + 1;
        }
        Err(IsolateError::Process(owned("No free SOCKS ports available")))
    }

    /// Allocates a given port to the strategy; refused, naming the strategy
    /// that holds it, when the port is already allocated.
    pub fn allocate_specific(&mut self, port: u16, strategy_id: &str) -> (r: Result<(), IsolateError>)
        ensures
            !port_taken(old(self)@, port) ==> (r is Ok && final(self)@ == old(self)@.push(
                (port, strategy_id@),
            )),
            port_taken(old(self)@, port) ==> (r matches Err(e) && e@ == (
                ErrorKind::Process,
                port_conflict_message(port, owner_from(old(self)@, port, 0)->0),
            ) && final(self)@ == old(self)@),
    {
        proof {
            use_type_invariant(&*self);
        }
        let ghost s = self@;
        let mut i: usize = 0;
        while i < self.allocated.len()
            invariant
                s == self@,
                s.len() == self.allocated@.len(),
                i <= s.len(),
                forall|k: int| 0 <= k < i ==> s[k].0 != port,
                owner_from(s, port, 0) == owner_from(s, port, i as int),
            decreases s.len() - i,
        {
            proof {
                assert(s[i as int] == (self.allocated@[i as int].0, self.allocated@[i as int].1@));
            }
            if self.allocated[i].0 == port {
                let mut v = chars_of("Port ");
                crate::text::extend_chars(&mut v, &u64_to_chars(port as u64));
                crate::text::extend_chars(&mut v, &chars_of(" already allocated to strategy '"));
                crate::text::extend_chars(&mut v, &chars_of(self.allocated[i].1.as_str()));
                crate::text::extend_chars(&mut v, &chars_of("'"));
                return Err(IsolateError::Process(string_of(&v)));
            }
            i = i + 1;
        }
        proof {
            assert(!port_taken(s, port));
        }
        let ghost e = (port, strategy_id@);
        let mut entries: Vec<(u16, String)> = Vec::new();
        std::mem::swap(&mut entries, &mut self.allocated);
        entries.push((port, owned(strategy_id)));
        proof {
            assert(entries@.map_values(|e: (u16, String)| (e.0, e.1@)) =~= s.push(e));
            let r = s.push(e);
            assert forall|a: int, b: int| 0 <= a < b < r.len() implies #[trigger] r[a].0 != #[trigger] r[b].0 by {
                if b == r.len() - 1 {
                    assert(r[a] == s[a]);
                } else {
                    assert(r[a] == s[a] && r[b] == s[b]);
                }
            }
        }
        self.allocated = entries;
        Ok(())
    }

    /// Frees a port; nothing happens when it is not allocated.
    pub fn release(&mut self, port: u16)
        ensures
            final(self)@ == without_port(old(self)@, port),
    {
        proof {
            use_type_invariant(&*self);
        }
        let ghost s = self@;
        let mut kept: Vec<(u16, String)> = Vec::new();
        let mut i: usize = 0;
        proof {
            assert(s.take(0) =~= Seq::<(u16, Seq<char>)>::empty());
            assert(kept@.map_values(|e: (u16, String)| (e.0, e.1@)) =~= without_port(s.take(0), port));
        }
        while i < self.allocated.len()
            invariant
                s == self@,
                s.len() == self.allocated@.len(),
                i <= s.len(),
                kept@.map_values(|e: (u16, String)| (e.0, e.1@)) == without_port(s.take(i as int), port),
            decreases s.len() - i,
        {
            proof {
                assert(s.take(i as int + 1).drop_last() =~= s.take(i as int));
                assert(s.take(i as int + 1).last() == (self.allocated@[i as int].0, self.allocated@[i as int].1@));
            }
            if self.allocated[i].0 != port {
                let ghost before = kept@;
                let e = (self.allocated[i].0, self.allocated[i].1.clone());
                kept.push(e);
                proof {
                    assert(kept@.map_values(|e: (u16, String)| (e.0, e.1@)) =~= before.map_values(
                        |e: (u16, String)| (e.0, e.1@),
                    ).push(s[i as int]));
                }
            }
            i = i + 1;
        }
        proof {
            assert(s.take(i as int) =~= s);
            lemma_filter_port_sub(s, port);
        }
        self.allocated = kept;
    }

    /// Frees every port of the strategy.
    pub fn release_by_strategy(&mut self, strategy_id: &str)
        ensures
            final(self)@ == without_strategy(old(self)@, strategy_id@),
    {
        proof {
            use_type_invariant(&*self);
        }
        let ghost s = self@;
        let mut kept: Vec<(u16, String)> = Vec::new();
        let mut i: usize = 0;
        proof {
            assert(s.take(0) =~= Seq::<(u16, Seq<char>)>::empty());
            assert(kept@.map_values(|e: (u16, String)| (e.0, e.1@)) =~= without_strategy(s.take(0), strategy_id@));
        }
        while i < self.allocated.len()
            invariant
                s == self@,
                s.len() == self.allocated@.len(),
                i <= s.len(),
                kept@.map_values(|e: (u16, String)| (e.0, e.1@)) == without_strategy(
                    s.take(i as int),
                    strategy_id@,
                ),
            decreases s.len() - i,
        {
            proof {
                assert(s.take(i as int + 1).drop_last() =~= s.take(i as int));
                assert(s.take(i as int + 1).last() == (self.allocated@[i as int].0, self.allocated@[i as int].1@));
            }
            if !str_eq(self.allocated[i].1.as_str(), strategy_id) {
                let ghost before = kept@;
                let e = (self.allocated[i].0, self.allocated[i].1.clone());
                kept.push(e);
                proof {
                    assert(kept@.map_values(|e: (u16, String)| (e.0, e.1@)) =~= before.map_values(
                        |e: (u16, String)| (e.0, e.1@),
                    ).push(s[i as int]));
                }
            }
            i = i + 1;
        }
        proof {
            assert(s.take(i as int) =~= s);
            lemma_filter_strategy_sub(s, strategy_id@);
        }
        self.allocated = kept;
    }
}

/// Allocating a port twice to one strategy gives the same port and changes
/// nothing the second time; after an allocation the port is taken and is
/// the strategy's port.
pub proof fn lemma_allocate_idempotent(s: Seq<(u16, Seq<char>)>, id: Seq<char>)
    ensures
        match allocation(s, id) {
            Some((p, s2)) => allocation(s2, id) == Some((p, s2)) && port_taken(s2, p) && port_of(
                s2,
                id,
            ) == Some(p),
            None => true,
        },
{
    lemma_port_of_found(s, id, 0);
    match port_of(s, id) {
        Some(p) => {
            let k = choose|k: int| 0 <= k < s.len() && s[k].1 == id && #[trigger] s[k].0 == p;
            assert(s[k].0 == p);
        },
        None => {
            lemma_first_free_range(s, SOCKS_PORT_START as int);
            if let Some(p) = first_free_from(s, SOCKS_PORT_START as int) {
                let s2 = s.push((p, id));
                lemma_port_of_push(s, (p, id), id, 0);
                assert(s2[s.len() as int].0 == p);
            }
        },
    }
}

/// A new allocation takes the lowest free SOCKS port: every SOCKS port
/// below it is taken; and it is refused only when all of them are taken.
pub proof fn lemma_allocate_lowest_free(s: Seq<(u16, Seq<char>)>, id: Seq<char>)
    requires
        port_of(s, id) is None,
    ensures
        match allocation(s, id) {
            Some((p, _)) => SOCKS_PORT_START <= p < SOCKS_PORT_START + MAX_SOCKS_PORTS && !port_taken(
                s,
                p,
            ) && forall|q: int| SOCKS_PORT_START <= q < p ==> #[trigger] port_taken(s, q as u16),
            None => forall|q: int|
                SOCKS_PORT_START <= q < SOCKS_PORT_START + MAX_SOCKS_PORTS ==> #[trigger] port_taken(s, q as u16),
        },
{
    lemma_first_free_range(s, SOCKS_PORT_START as int);
}

/// Releasing a port frees it and leaves every other port as it was.
pub proof fn lemma_release_frees(s: Seq<(u16, Seq<char>)>, p: u16, q: u16)
    ensures
        !port_taken(without_port(s, p), p),
        q != p ==> port_taken(without_port(s, p), q) == port_taken(s, q),
    decreases s.len(),
{
    if s.len() > 0 {
        let t = s.drop_last();
        lemma_release_frees(t, p, q);
        let w = without_port(t, p);
        if s.last().0 != p {
            let r = w.push(s.last());
            if port_taken(r, p) {
                let k = choose|k: int| 0 <= k < r.len() && #[trigger] r[k].0 == p;
                if k < w.len() {
                    assert(w[k].0 == p);
                }
            }
        }
        if q != p {
            if port_taken(s, q) {
                let k = choose|k: int| 0 <= k < s.len() && #[trigger] s[k].0 == q;
                if k < t.len() {
                    assert(t[k].0 == q);
                }
            }
            if port_taken(t, q) {
                let k = choose|k: int| 0 <= k < t.len() && #[trigger] t[k].0 == q;
                assert(s[k].0 == q);
            }
            if s.last().0 != p {
                let r = w.push(s.last());
                if port_taken(r, q) {
                    let k = choose|k: int| 0 <= k < r.len() && #[trigger] r[k].0 == q;
                    if k < w.len() {
                        assert(w[k].0 == q);
                    } else {
                        assert(s[s.len() - 1].0 == q);
                    }
                }
                if port_taken(w, q) {
                    let k = choose|k: int| 0 <= k < w.len() && #[trigger] w[k].0 == q;
                    assert(r[k].0 == q);
                }
                if s.last().0 == q {
                    assert(r[w.len() as int].0 == q);
                }
            }
        }
    } else {
        assert(without_port(s, p) =~= Seq::<(u16, Seq<char>)>::empty());
    }
}

// ===========================================================================
// Launch checks and argument preparation
// ===========================================================================

/// The check made before launching a strategy in a mode: a blocked strategy
/// is refused, then one that does not support the mode, then one without a
/// template for it; otherwise the template is used.
pub open spec fn launch_error(s: Strategy, mode: LaunchMode, blocked: bool) -> Option<(ErrorKind, Seq<char>)> {
    let id = s.id@;
    if blocked {
        Some((ErrorKind::Strategy, "Strategy '"@ + id + "' is blocked due to consecutive failures"@))
    } else {
        match mode {
            LaunchMode::Socks => if !s.mode_capabilities.supports_socks {
                Some((ErrorKind::Config, "Strategy '"@ + id + "' does not support SOCKS mode"@))
            } else if s.socks_template is None {
                Some((ErrorKind::Config, "Strategy '"@ + id + "' has no SOCKS template"@))
            } else {
                None
            },
            LaunchMode::Global => if !s.mode_capabilities.supports_global {
                Some((ErrorKind::Config, "Strategy '"@ + id + "' does not support GLOBAL mode"@))
            } else if s.global_template is None {
                Some((ErrorKind::Config, "Strategy '"@ + id + "' has no GLOBAL template"@))
            } else {
                None
            },
        }
    }
}

pub(crate) fn strategy_message(id: &str, tail: &str) -> (r: String)
    ensures
        r@ == "Strategy '"@ + id@ + tail@,
{
    let mut v = chars_of("Strategy '");
    crate::text::extend_chars(&mut v, &chars_of(id));
    crate::text::extend_chars(&mut v, &chars_of(tail));
    string_of(&v)
}

/// The template to launch a strategy with in a mode, or why it cannot be
/// launched (see [`launch_error`]); `blocked` tells whether the strategy is
/// blocked after repeated failures.
pub fn launch_template<'a>(strategy: &'a Strategy, mode: LaunchMode, blocked: bool) -> (r: Result<
    &'a LaunchTemplate,
    IsolateError,
>)
    ensures
        match launch_error(*strategy, mode, blocked) {
            Some(err) => r matches Err(e) && e@ == err,
            None => r matches Ok(t) && Some(*t) == match mode {
                LaunchMode::Socks => strategy.socks_template,
                LaunchMode::Global => strategy.global_template,
            },
        },
{
    let id = strategy.id.as_str();
    if blocked {
        return Err(IsolateError::Strategy(strategy_message(id, "' is blocked due to consecutive failures")));
    }
    match mode {
        LaunchMode::Socks => {
            if !strategy.mode_capabilities.supports_socks {
                return Err(IsolateError::Config(strategy_message(id, "' does not support SOCKS mode")));
            }
            match &strategy.socks_template {
                Some(t) => Ok(t),
                None => Err(IsolateError::Config(strategy_message(id, "' has no SOCKS template"))),
            }
        },
        LaunchMode::Global => {
            if !strategy.mode_capabilities.supports_global {
                return Err(IsolateError::Config(strategy_message(id, "' does not support GLOBAL mode")));
            }
            match &strategy.global_template {
                Some(t) => Ok(t),
                None => Err(IsolateError::Config(strategy_message(id, "' has no GLOBAL template"))),
            }
        },
    }
}

/// Refuses a launch that needs administrator privileges the process lacks.
pub fn check_admin(template: &LaunchTemplate, is_admin: bool) -> (r: Result<(), IsolateError>)
    ensures
        (template.requires_admin && !is_admin) ==> (r matches Err(e) && e is RequiresAdmin),
        !(template.requires_admin && !is_admin) ==> r is Ok,
{
    if template.requires_admin && !is_admin {
        Err(IsolateError::RequiresAdmin)
    } else {
        Ok(())
    }
}

/// Every occurrence of `pat` replaced by `rep`, scanning from the left
/// (what `str::replace` gives for a non-empty pattern).
pub open spec fn replace_all(s: Seq<char>, pat: Seq<char>, rep: Seq<char>) -> Seq<char>
    decreases s.len(),
{
    if pat.len() == 0 || s.len() < pat.len() {
        s
    } else if s.take(pat.len() as int) == pat {
        rep + replace_all(s.skip(pat.len() as int), pat, rep)
    } else {
        seq![s[0]] + replace_all(s.drop_first(), pat, rep)
    }
}

/// An argument with the allocated port put in place of `{{port}}`;
/// unchanged without a port.
pub open spec fn with_port(s: Seq<char>, port: Option<u16>) -> Seq<char> {
    match port {
        Some(p) => replace_all(s, "{{port}}"@, decimal(p as nat)),
        None => s,
    }
}

fn replace_chars(s: &[char], pat: &[char], rep: &[char]) -> (r: Vec<char>)
    requires
        pat@.len() > 0,
    ensures
        r@ == replace_all(s@, pat@, rep@),
{
    let mut out: Vec<char> = Vec::new();
    let mut i: usize = 0;
    proof {
        assert(s@.skip(0) =~= s@);
        assert(out@ + replace_all(s@.skip(0), pat@, rep@) =~= replace_all(s@, pat@, rep@));
    }
    while i < s.len()
        invariant
            pat@.len() > 0,
            i <= s@.len(),
            out@ + replace_all(s@.skip(i as int), pat@, rep@) == replace_all(s@, pat@, rep@),
        decreases s@.len() - i,
    {
        let ghost rest = s@.skip(i as int);
        if matches_at(s, pat, i) {
            proof {
                assert(rest.take(pat@.len() as int) =~= s@.subrange(i as int, i + pat@.len()));
                assert(rest.skip(pat@.len() as int) =~= s@.skip(i + pat@.len()));
                assert(out@ + rep@ + replace_all(s@.skip(i + pat@.len()), pat@, rep@) =~= out@
                    + replace_all(rest, pat@, rep@));
            }
            crate::text::extend_chars(&mut out, rep);
            i = i + pat.len();
        } else {
            proof {
                assert(rest[0] == s@[i as int]);
                assert(rest.drop_first() =~= s@.skip(i + 1));
                if rest.len() >= pat@.len() {
                    assert(rest.take(pat@.len() as int) =~= s@.subrange(i as int, i + pat@.len()));
                    assert(out@.push(s@[i as int]) + replace_all(s@.skip(i + 1), pat@, rep@) =~= out@
                        + replace_all(rest, pat@, rep@));
                } else {
                    assert(replace_all(s@.skip(i + 1), pat@, rep@) == s@.skip(i + 1));
                    assert(out@.push(s@[i as int]) + s@.skip(i + 1) =~= out@ + rest);
                }
            }
            out.push(s[i]);
            i = i + 1;
        }
    }
    proof {
        assert(s@.skip(i as int) =~= Seq::<char>::empty());
        assert(out@ + Seq::<char>::empty() =~= out@);
    }
    out
}

/// Puts the allocated port in place of `{{port}}` (see [`with_port`]).
pub fn substitute_port(s: &str, port: Option<u16>) -> (r: String)
    ensures
        r@ == with_port(s@, port),
{
    match port {
        Some(p) => {
            let sc = chars_of(s);
            let pat = chars_of("{{port}}");
            proof {
                reveal_strlit("{{port}}");
            }
            let rep = u64_to_chars(p as u64);
            string_of(&replace_chars(&sc, &pat, &rep))
        },
        None => owned(s),
    }
}

/// Every argument with the port substituted.
pub fn prepare_args(args: &[String], port: Option<u16>) -> (r: Vec<String>)
    ensures
        strings_view(r@) == strings_view(args@).map_values(|a: Seq<char>| with_port(a, port)),
{
    let mut out: Vec<String> = Vec::new();
    let mut i: usize = 0;
    while i < args.len()
        invariant
            i <= args@.len(),
            strings_view(out@) == strings_view(args@).take(i as int).map_values(
                |a: Seq<char>| with_port(a, port),
            ),
        decreases args@.len() - i,
    {
        let ghost before = out@;
        out.push(substitute_port(args[i].as_str(), port));
        proof {
            assert(strings_view(out@) =~= strings_view(before).push(with_port(args@[i as int]@, port)));
            assert(strings_view(args@).take(i as int + 1).map_values(|a: Seq<char>| with_port(a, port))
                =~= strings_view(args@).take(i as int).map_values(|a: Seq<char>| with_port(a, port)).push(
                with_port(args@[i as int]@, port),
            ));
        }
        i = i + 1;
    }
    proof {
        assert(strings_view(args@).take(i as int) =~= strings_view(args@));
    }
    out
}

} // verus!
