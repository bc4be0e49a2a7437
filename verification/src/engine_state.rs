//! The state of the strategy engine: its mode, the WinDivert mode, the
//! SOCKS ports handed out, the global strategy and the strategies that run.
//!
//! In mock mode the engine only simulates launches, and the operations here
//! are its whole behaviour. In the other modes the application starts and
//! stops the processes around them: a start that is accepted here is
//! followed by the launch and then [`StrategyEngine::record_process`] or
//! [`StrategyEngine::global_launched`] (or [`StrategyEngine::release_port`]
//! when the launch fails), and the identifiers that a stop returns name the
//! processes to stop.
use vstd::prelude::*;
use crate::engine::{
    allocation, launch_error, launch_template, port_of, port_taken, strategy_message, without_port,
    EngineMode, LaunchMode, PortManager,
};
use crate::error::{ErrorKind, IsolateError};
use crate::models::{Strategy, WinDivertMode};
use crate::text::{owned, str_eq, strings_view};

verus! {

/// The engine's state as values.
pub struct EngineView {
    /// How strategies are run.
    pub mode: EngineMode,
    /// Packet interception mode handed to zapret.
    pub windivert_mode: WinDivertMode,
    /// Allocated SOCKS ports with their strategies, in allocation order.
    pub ports: Seq<(u16, Seq<char>)>,
    /// The strategy running in global mode.
    pub global: Option<Seq<char>>,
    /// Strategies running in mock mode.
    pub mock: Seq<Seq<char>>,
    /// Strategies whose process the application runs.
    pub processes: Seq<Seq<char>>,
}

/// The state of a new engine: real mode, normal WinDivert mode, nothing
/// running and no port allocated.
pub open spec fn initial_engine() -> EngineView {
    EngineView {
        mode: EngineMode::Real,
        windivert_mode: WinDivertMode::Normal,
        ports: Seq::empty(),
        global: None,
        mock: Seq::empty(),
        processes: Seq::empty(),
    }
}

/// The identifiers other than `id`.
pub open spec fn without_id(s: Seq<Seq<char>>, id: Seq<char>) -> Seq<Seq<char>>
    decreases s.len(),
{
    if s.len() == 0 {
        Seq::empty()
    } else if s.last() == id {
        without_id(s.drop_last(), id)
    } else {
        without_id(s.drop_last(), id).push(s.last())
    }
}

/// Whether the engine regards the strategy as running: among the mock runs
/// in mock mode, among the processes otherwise.
pub open spec fn running(v: EngineView, id: Seq<char>) -> bool {
    if v.mode == EngineMode::Mock {
        v.mock.contains(id)
    } else {
        v.processes.contains(id)
    }
}

/// The message refusing a start of a strategy that already runs.
pub open spec fn already_running_message(id: Seq<char>, mock: bool) -> Seq<char> {
    if mock {
        "Strategy '"@ + id + "' is already running (mock)"@
    } else {
        "Strategy '"@ + id + "' is already running"@
    }
}

/// A changed mode other than mock forgets the mock runs.
pub open spec fn after_set_mode(v: EngineView, mode: EngineMode) -> EngineView {
    EngineView {
        mode,
        mock: if v.mode != mode && mode != EngineMode::Mock {
            Seq::empty()
        } else {
            v.mock
        },
        ..v
    }
}

/// Starting a strategy as a SOCKS proxy: the launch checks, then a port for
/// it; in mock mode it then runs, unless it already does, in which case the
/// port is released again and the start refused.
pub open spec fn start_socks_outcome(v: EngineView, s: Strategy, blocked: bool) -> (
    Result<u16, (ErrorKind, Seq<char>)>,
    EngineView,
) {
    match launch_error(s, LaunchMode::Socks, blocked) {
        Some(e) => (Err(e), v),
        None => match allocation(v.ports, s.id@) {
            None => (Err((ErrorKind::Process, "No free SOCKS ports available"@)), v),
            Some((p, ports)) => if v.mode != EngineMode::Mock {
                (Ok(p), EngineView { ports, ..v })
            } else if v.mock.contains(s.id@) {
                (
                    Err((ErrorKind::Process, already_running_message(s.id@, true))),
                    EngineView { ports: without_port(ports, p), ..v },
                )
            } else {
                (Ok(p), EngineView { ports, mock: v.mock.push(s.id@), ..v })
            },
        },
    }
}

/// Stopping the global strategy: it no longer runs and there is no global
/// strategy; the result names the strategy that was stopped.
pub open spec fn stop_global_outcome(v: EngineView) -> (Option<Seq<char>>, EngineView) {
    match v.global {
        None => (None, v),
        Some(g) => if v.mode == EngineMode::Mock {
            (Some(g), EngineView { mock: without_id(v.mock, g), global: None, ..v })
        } else {
            (Some(g), EngineView { processes: without_id(v.processes, g), global: None, ..v })
        },
    }
}

/// Starting a strategy in global mode: the launch checks; in mock mode the
/// current global strategy stops and this one runs as the global strategy,
/// unless it already runs; in the other modes a launch that needs
/// administrator privileges the process lacks is refused, and otherwise the
/// current global strategy stops. The result names the stopped strategy.
pub open spec fn start_global_outcome(v: EngineView, s: Strategy, blocked: bool, is_admin: bool) -> (
    Result<Option<Seq<char>>, (ErrorKind, Seq<char>)>,
    EngineView,
) {
    match launch_error(s, LaunchMode::Global, blocked) {
        Some(e) => (Err(e), v),
        None => if v.mode == EngineMode::Mock {
            let (prev, w) = stop_global_outcome(v);
            if w.mock.contains(s.id@) {
                (Err((ErrorKind::Process, already_running_message(s.id@, true))), w)
            } else {
                (Ok(prev), EngineView { mock: w.mock.push(s.id@), global: Some(s.id@), ..w })
            }
        } else if s.global_template->0.requires_admin && !is_admin {
            (Err((ErrorKind::RequiresAdmin, "Administrator privileges required"@)), v)
        } else {
            let (prev, w) = stop_global_outcome(v);
            (Ok(prev), w)
        },
    }
}

/// Stopping a SOCKS strategy: it no longer runs and its port is released.
pub open spec fn stop_socks_outcome(v: EngineView, id: Seq<char>) -> EngineView {
    let ports = match port_of(v.ports, id) {
        Some(p) => without_port(v.ports, p),
        None => v.ports,
    };
    if v.mode == EngineMode::Mock {
        EngineView { ports, mock: without_id(v.mock, id), ..v }
    } else {
        EngineView { ports, processes: without_id(v.processes, id), ..v }
    }
}

/// Recording a launched process: refused when the strategy already has one.
pub open spec fn record_process_outcome(v: EngineView, id: Seq<char>) -> (
    Result<(), (ErrorKind, Seq<char>)>,
    EngineView,
) {
    if v.processes.contains(id) {
        (Err((ErrorKind::Process, already_running_message(id, false))), v)
    } else {
        (Ok(()), EngineView { processes: v.processes.push(id), ..v })
    }
}

/// Stopping everything: nothing runs, no port is allocated and there is no
/// global strategy; outside mock mode the result lists the processes to
/// stop.
pub open spec fn shutdown_outcome(v: EngineView) -> (Seq<Seq<char>>, EngineView) {
    (
        if v.mode == EngineMode::Mock {
            Seq::empty()
        } else {
            v.processes
        },
        EngineView { ports: Seq::empty(), global: None, mock: Seq::empty(), processes: Seq::empty(), ..v },
    )
}

/// Whether an executable result agrees with an outcome of the model.
pub open spec fn result_is<T>(r: Result<T, IsolateError>, o: Result<T, (ErrorKind, Seq<char>)>) -> bool {
    match (r, o) {
        (Ok(a), Ok(b)) => a == b,
        (Err(e), Err(f)) => e@ == f,
        _ => false,
    }
}

proof fn lemma_without_id_contains(s: Seq<Seq<char>>, id: Seq<char>, x: Seq<char>)
    ensures
        without_id(s, id).contains(x) == (s.contains(x) && x != id),
        !s.contains(id) ==> without_id(s, id) == s,
    decreases s.len(),
{
    if s.len() > 0 {
        let t = s.drop_last();
        lemma_without_id_contains(t, id, x);
        assert(s =~= t.push(s.last()));
        let w = without_id(t, id);
        if s.contains(x) && x != id {
            let k = choose|k: int| 0 <= k < s.len() && s[k] == x;
            if k < t.len() {
                assert(t[k] == x);
                assert(t.contains(x));
                if s.last() != id {
                    let kk = choose|kk: int| 0 <= kk < w.len() && w[kk] == x;
                    assert(w.push(s.last())[kk] == x);
                }
            } else {
                assert(s.last() == x);
                assert(w.push(s.last())[w.len() as int] == x);
            }
        }
        if without_id(s, id).contains(x) {
            if s.last() == id {
                assert(w.contains(x));
            } else {
                let k = choose|k: int| 0 <= k < w.len() + 1 && w.push(s.last())[k] == x;
                if k < w.len() {
                    assert(w[k] == x);
                    assert(w.contains(x));
                    let kk = choose|kk: int| 0 <= kk < t.len() && t[kk] == x;
                    assert(s[kk] == x);
                } else {
                    assert(s[s.len() - 1] == x);
                }
            }
        }
        if !s.contains(id) {
            if t.contains(id) {
                let k = choose|k: int| 0 <= k < t.len() && t[k] == id;
                assert(s[k] == id);
            }
            assert(s[s.len() - 1] != id);
        }
    } else {
        assert(without_id(s, id) =~= s);
    }
}

proof fn lemma_without_free_port(s: Seq<(u16, Seq<char>)>, p: u16)
    requires
        !port_taken(s, p),
    ensures
        without_port(s, p) == s,
    decreases s.len(),
{
    if s.len() > 0 {
        let t = s.drop_last();
        if port_taken(t, p) {
            let k = choose|k: int| 0 <= k < t.len() && #[trigger] t[k].0 == p;
            assert(s[k].0 == p);
        }
        lemma_without_free_port(t, p);
        assert(s[s.len() - 1].0 != p);
        assert(s =~= t.push(s.last()));
    } else {
        assert(without_port(s, p) =~= s);
    }
}

/// Whether `s` holds `id`.
fn has_id(v: &Vec<String>, id: &str) -> (r: bool)
    ensures
        r == strings_view(v@).contains(id@),
{
    let ghost s = strings_view(v@);
    let mut i: usize = 0;
    while i < v.len()
        invariant
            s == strings_view(v@),
            s.len() == v@.len(),
            i <= s.len(),
            forall|k: int| 0 <= k < i ==> s[k] != id@,
        decreases s.len() - i,
    {
        proof {
            assert(s[i as int] == v@[i as int]@);
        }
        if str_eq(v[i].as_str(), id) {
            proof {
                assert(s[i as int] == id@);
            }
            return true;
        }
        i = i + 1;
    }
    false
}

/// Removes every occurrence of `id`.
fn remove_id(v: &mut Vec<String>, id: &str)
    ensures
        strings_view(final(v)@) == without_id(strings_view(old(v)@), id@),
{
    let ghost s = strings_view(v@);
    let mut kept: Vec<String> = Vec::new();
    let mut i: usize = 0;
    proof {
        assert(s.take(0) =~= Seq::<Seq<char>>::empty());
        assert(strings_view(kept@) =~= without_id(s.take(0), id@));
    }
    while i < v.len()
        invariant
            s == strings_view(v@),
            s.len() == v@.len(),
            i <= s.len(),
            strings_view(kept@) == without_id(s.take(i as int), id@),
        decreases s.len() - i,
    {
        proof {
            assert(s.take(i as int + 1).drop_last() =~= s.take(i as int));
            assert(s.take(i as int + 1).last() == v@[i as int]@);
        }
        if !str_eq(v[i].as_str(), id) {
            let ghost before = kept@;
            kept.push(v[i].clone());
            proof {
                assert(strings_view(kept@) =~= strings_view(before).push(s[i as int]));
            }
        }
        i = i + 1;
    }
    proof {
        assert(s.take(i as int) =~= s);
    }
    *v = kept;
}

/// The strategy engine's state.
pub struct StrategyEngine {
    mode: EngineMode,
    windivert_mode: WinDivertMode,
    ports: PortManager,
    global_strategy: Option<String>,
    mock_running: Vec<String>,
    processes: Vec<String>,
}

impl View for StrategyEngine {
    type V = EngineView;

    closed spec fn view(&self) -> EngineView {
        EngineView {
            mode: self.mode,
            windivert_mode: self.windivert_mode,
            ports: self.ports@,
            global: match self.global_strategy {
                Some(g) => Some(g@),
                None => None,
            },
            mock: strings_view(self.mock_running@),
            processes: strings_view(self.processes@),
        }
    }
}

impl Default for StrategyEngine {
    fn default() -> (r: Self)
        ensures
            r@ == initial_engine(),
    {
        StrategyEngine::new()
    }
}

impl StrategyEngine {
    /// A new engine in real mode with nothing running.
    pub fn new() -> (r: Self)
        ensures
            r@ == initial_engine(),
    {
        let r = StrategyEngine {
            mode: EngineMode::Real,
            windivert_mode: WinDivertMode::Normal,
            ports: PortManager::default(),
            global_strategy: None,
            mock_running: Vec::new(),
            processes: Vec::new(),
        };
        proof {
            assert(r@.mock =~= Seq::<Seq<char>>::empty());
            assert(r@.processes =~= Seq::<Seq<char>>::empty());
        }
        r
    }

    /// The engine mode.
    pub fn get_mode(&self) -> (r: EngineMode)
        ensures
            r == self@.mode,
    {
        self.mode
    }

    /// Sets the engine mode; leaving for a mode other than mock forgets the
    /// mock runs.
    pub fn set_mode(&mut self, mode: EngineMode)
        ensures
            final(self)@ == after_set_mode(old(self)@, mode),
    {
        let old_mode = self.mode;
        self.mode = mode;
        if old_mode != mode && mode != EngineMode::Mock {
            self.mock_running = Vec::new();
            proof {
                assert(strings_view(self.mock_running@) =~= Seq::<Seq<char>>::empty());
            }
        }
    }

    /// The WinDivert mode.
    pub fn get_windivert_mode(&self) -> (r: WinDivertMode)
        ensures
            r == self@.windivert_mode,
    {
        self.windivert_mode
    }

    /// Sets the WinDivert mode.
    pub fn set_windivert_mode(&mut self, mode: WinDivertMode)
        ensures
            final(self)@ == (EngineView { windivert_mode: mode, ..old(self)@ }),
    {
        self.windivert_mode = mode;
    }

    /// Whether the strategy runs (see [`running`]).
    pub fn is_running(&self, strategy_id: &str) -> (r: bool)
        ensures
            r == running(self@, strategy_id@),
    {
        if self.mode == EngineMode::Mock {
            has_id(&self.mock_running, strategy_id)
        } else {
            has_id(&self.processes, strategy_id)
        }
    }

    /// The strategy running in global mode.
    pub fn get_global_strategy(&self) -> (r: Option<String>)
        ensures
            match r {
                Some(g) => self@.global == Some(g@),
                None => self@.global is None,
            },
    {
        match &self.global_strategy {
            Some(g) => Some(g.clone()),
            None => None,
        }
    }

    /// The SOCKS port of the strategy.
    pub fn get_socks_port(&self, strategy_id: &str) -> (r: Option<u16>)
        ensures
            r == port_of(self@.ports, strategy_id@),
    {
        self.ports.get_port(strategy_id)
    }

    /// Starts a strategy as a SOCKS proxy and returns its port (see
    /// [`start_socks_outcome`]); `blocked` tells whether the strategy is
    /// blocked after repeated failures.
    pub fn start_socks(&mut self, strategy: &Strategy, blocked: bool) -> (r: Result<u16, IsolateError>)
        ensures
            result_is(r, start_socks_outcome(old(self)@, *strategy, blocked).0),
            final(self)@ == start_socks_outcome(old(self)@, *strategy, blocked).1,
    {
        if let Err(e) = launch_template(strategy, LaunchMode::Socks, blocked) {
            return Err(e);
        }
        let id = strategy.id.as_str();
        let port = match self.ports.allocate(id) {
            Ok(p) => p,
            Err(e) => {
                return Err(e);
            },
        };
        if self.mode == EngineMode::Mock {
            if has_id(&self.mock_running, id) {
                self.ports.release(port);
                return Err(IsolateError::Process(strategy_message(id, "' is already running (mock)")));
            }
            let ghost before = self.mock_running@;
            self.mock_running.push(owned(id));
            proof {
                assert(strings_view(self.mock_running@) =~= strings_view(before).push(id@));
            }
        }
        Ok(port)
    }

    fn stop_global_inner(&mut self) -> (r: Option<String>)
        ensures
            match r {
                Some(g) => stop_global_outcome(old(self)@).0 == Some(g@),
                None => stop_global_outcome(old(self)@).0 is None,
            },
            final(self)@ == stop_global_outcome(old(self)@).1,
    {
        match self.global_strategy.take() {
            None => None,
            Some(g) => {
                if self.mode == EngineMode::Mock {
                    remove_id(&mut self.mock_running, g.as_str());
                } else {
                    remove_id(&mut self.processes, g.as_str());
                }
                Some(g)
            },
        }
    }

    /// Stops the global strategy and returns it (see
    /// [`stop_global_outcome`]); outside mock mode the application stops its
    /// process.
    pub fn stop_global(&mut self) -> (r: Option<String>)
        ensures
            match r {
                Some(g) => stop_global_outcome(old(self)@).0 == Some(g@),
                None => stop_global_outcome(old(self)@).0 is None,
            },
            final(self)@ == stop_global_outcome(old(self)@).1,
    {
        self.stop_global_inner()
    }

    /// Starts a strategy in global mode (see [`start_global_outcome`]) and
    /// returns the global strategy it stopped; outside mock mode the
    /// application then stops that one's process, launches this one and
    /// calls [`StrategyEngine::global_launched`].
    pub fn start_global(&mut self, strategy: &Strategy, blocked: bool, is_admin: bool) -> (r: Result<
        Option<String>,
        IsolateError,
    >)
        ensures
            match (r, start_global_outcome(old(self)@, *strategy, blocked, is_admin).0) {
                (Ok(Some(g)), Ok(Some(h))) => g@ == h,
                (Ok(None), Ok(None)) => true,
                (Err(e), Err(f)) => e@ == f,
                _ => false,
            },
            final(self)@ == start_global_outcome(old(self)@, *strategy, blocked, is_admin).1,
    {
        let template = match launch_template(strategy, LaunchMode::Global, blocked) {
            Ok(t) => t,
            Err(e) => {
                return Err(e);
            },
        };
        let id = strategy.id.as_str();
        if self.mode == EngineMode::Mock {
            let prev = self.stop_global_inner();
            if has_id(&self.mock_running, id) {
                return Err(IsolateError::Process(strategy_message(id, "' is already running (mock)")));
            }
            let ghost before = self.mock_running@;
            self.mock_running.push(owned(id));
            proof {
                assert(strings_view(self.mock_running@) =~= strings_view(before).push(id@));
            }
            self.global_strategy = Some(owned(id));
            return Ok(prev);
        }
        if template.requires_admin && !is_admin {
            return Err(IsolateError::RequiresAdmin);
        }
        Ok(self.stop_global_inner())
    }

    /// Records the launched process of a strategy; refused when the
    /// strategy already has one, in which case the application kills the
    /// new process.
    pub fn record_process(&mut self, strategy_id: &str) -> (r: Result<(), IsolateError>)
        ensures
            result_is(r, record_process_outcome(old(self)@, strategy_id@).0),
            final(self)@ == record_process_outcome(old(self)@, strategy_id@).1,
    {
        if has_id(&self.processes, strategy_id) {
            return Err(IsolateError::Process(strategy_message(strategy_id, "' is already running")));
        }
        let ghost before = self.processes@;
        self.processes.push(owned(strategy_id));
        proof {
            assert(strings_view(self.processes@) =~= strings_view(before).push(strategy_id@));
        }
        Ok(())
    }

    /// Records the launched process of the global strategy and makes it the
    /// global strategy; refused as [`StrategyEngine::record_process`] is.
    pub fn global_launched(&mut self, strategy_id: &str) -> (r: Result<(), IsolateError>)
        ensures
            result_is(r, record_process_outcome(old(self)@, strategy_id@).0),
            r is Ok ==> final(self)@ == (EngineView {
                global: Some(strategy_id@),
                ..record_process_outcome(old(self)@, strategy_id@).1
            }),
            r is Err ==> final(self)@ == old(self)@,
    {
        match self.record_process(strategy_id) {
            Ok(()) => {
                self.global_strategy = Some(owned(strategy_id));
                Ok(())
            },
            Err(e) => Err(e),
        }
    }

    /// Releases a SOCKS port whose launch failed.
    pub fn release_port(&mut self, port: u16)
        ensures
            final(self)@ == (EngineView { ports: without_port(old(self)@.ports, port), ..old(self)@ }),
    {
        self.ports.release(port);
    }

    /// Stops a SOCKS strategy (see [`stop_socks_outcome`]); the result tells
    /// whether it was running, and outside mock mode the application then
    /// stops its process.
    pub fn stop_socks(&mut self, strategy_id: &str) -> (r: bool)
        ensures
            r == running(old(self)@, strategy_id@),
            final(self)@ == stop_socks_outcome(old(self)@, strategy_id@),
    {
        let port = self.ports.get_port(strategy_id);
        let was = self.is_running(strategy_id);
        if self.mode == EngineMode::Mock {
            remove_id(&mut self.mock_running, strategy_id);
        } else {
            remove_id(&mut self.processes, strategy_id);
        }
        if let Some(p) = port {
            self.ports.release(p);
        }
        was
    }

    /// Stops everything (see [`shutdown_outcome`]); outside mock mode the
    /// result lists the processes the application stops.
    pub fn shutdown_all(&mut self) -> (r: Vec<String>)
        ensures
            strings_view(r@) == shutdown_outcome(old(self)@).0,
            final(self)@ == shutdown_outcome(old(self)@).1,
    {
        let mut stopped: Vec<String> = Vec::new();
        if self.mode != EngineMode::Mock {
            std::mem::swap(&mut stopped, &mut self.processes);
        }
        self.mock_running = Vec::new();
        self.processes = Vec::new();
        self.global_strategy = None;
        self.ports = PortManager::default();
        proof {
            assert(strings_view(self.mock_running@) =~= Seq::<Seq<char>>::empty());
            assert(strings_view(self.processes@) =~= Seq::<Seq<char>>::empty());
            if old(self)@.mode == EngineMode::Mock {
                assert(strings_view(stopped@) =~= Seq::<Seq<char>>::empty());
            }
        }
        stopped
    }
}


/// Stopping a SOCKS strategy undoes starting it: from a state in which it
/// neither runs nor has a port, a start (with, outside mock mode, the
/// record of its process) gives it a port and makes it run, and the stop
/// then restores the state as it was.
pub proof fn lemma_stop_socks_undoes_start(v: EngineView, s: Strategy, blocked: bool)
    requires
        launch_error(s, LaunchMode::Socks, blocked) is None,
        !running(v, s.id@),
        port_of(v.ports, s.id@) is None,
        allocation(v.ports, s.id@) is Some,
    ensures
        ({
            let (r, w) = start_socks_outcome(v, s, blocked);
            let w2 = if v.mode == EngineMode::Mock {
                w
            } else {
                record_process_outcome(w, s.id@).1
            };
            &&& r is Ok
            &&& running(w2, s.id@)
            &&& port_of(w2.ports, s.id@) == Some(r->Ok_0)
            &&& stop_socks_outcome(w2, s.id@) == v
        }),
{
    let id = s.id@;
    let (p, ports) = allocation(v.ports, id)->0;
    crate::engine::lemma_allocate_lowest_free(v.ports, id);
    crate::engine::lemma_port_of_push(v.ports, (p, id), id, 0);
    assert(ports == v.ports.push((p, id)));
    assert(ports.last() == (p, id));
    assert(without_port(ports, p) == without_port(v.ports, p)) by {
        assert(ports.drop_last() =~= v.ports);
    }
    lemma_without_free_port(v.ports, p);
    if v.mode == EngineMode::Mock {
        let m = v.mock.push(id);
        assert(m.last() == id);
        assert(m.drop_last() =~= v.mock);
        lemma_without_id_contains(v.mock, id, id);
        assert(m[v.mock.len() as int] == id);
    } else {
        let m = v.processes.push(id);
        assert(m.last() == id);
        assert(m.drop_last() =~= v.processes);
        lemma_without_id_contains(v.processes, id, id);
        assert(m[v.processes.len() as int] == id);
    }
}

/// In mock mode a strategy that runs cannot be started again as a SOCKS
/// proxy, and the refusal leaves it running.
pub proof fn lemma_mock_start_twice_refused(v: EngineView, s: Strategy, blocked: bool)
    requires
        v.mode == EngineMode::Mock,
        v.mock.contains(s.id@),
        launch_error(s, LaunchMode::Socks, blocked) is None,
        allocation(v.ports, s.id@) is Some,
    ensures
        ({
            let (r, w) = start_socks_outcome(v, s, blocked);
            &&& r == Err::<u16, (ErrorKind, Seq<char>)>((ErrorKind::Process, already_running_message(s.id@, true)))
            &&& running(w, s.id@)
        }),
{
}

/// In mock mode a new global strategy replaces the previous one: the
/// previous one is stopped and returned, and the new one runs as the global
/// strategy.
pub proof fn lemma_mock_global_replaces(v: EngineView, s: Strategy, blocked: bool, is_admin: bool, prev: Seq<char>)
    requires
        v.mode == EngineMode::Mock,
        v.global == Some(prev),
        prev != s.id@,
        !v.mock.contains(s.id@),
        launch_error(s, LaunchMode::Global, blocked) is None,
    ensures
        ({
            let (r, w) = start_global_outcome(v, s, blocked, is_admin);
            &&& r == Ok::<Option<Seq<char>>, (ErrorKind, Seq<char>)>(Some(prev))
            &&& w.global == Some(s.id@)
            &&& running(w, s.id@)
            &&& !running(w, prev)
        }),
{
    let id = s.id@;
    lemma_without_id_contains(v.mock, prev, id);
    lemma_without_id_contains(v.mock, prev, prev);
    let m = without_id(v.mock, prev);
    assert(m.push(id)[m.len() as int] == id);
    if m.push(id).contains(prev) {
        let k = choose|k: int| 0 <= k < m.len() + 1 && m.push(id)[k] == prev;
        if k < m.len() {
            assert(m[k] == prev);
        }
    }
}

/// Leaving mock mode for another mode forgets every mock run; the ports,
/// the global strategy and the processes stay as they were.
pub proof fn lemma_leaving_mock_forgets_runs(v: EngineView, mode: EngineMode, id: Seq<char>)
    requires
        v.mode == EngineMode::Mock,
        mode != EngineMode::Mock,
    ensures
        !after_set_mode(v, mode).mock.contains(id),
        after_set_mode(v, mode).ports == v.ports,
        after_set_mode(v, mode).global == v.global,
        after_set_mode(v, mode).processes == v.processes,
{
}

/// After a shutdown nothing runs, no strategy has a port and there is no
/// global strategy.
pub proof fn lemma_shutdown_stops_everything(v: EngineView, id: Seq<char>)
    ensures
        !running(shutdown_outcome(v).1, id),
        port_of(shutdown_outcome(v).1.ports, id) is None,
        shutdown_outcome(v).1.global is None,
{
}

/// No strategy is recorded twice as running.
pub open spec fn runs_distinct(v: EngineView) -> bool {
    v.mock.no_duplicates() && v.processes.no_duplicates()
}

proof fn lemma_push_new_distinct(s: Seq<Seq<char>>, x: Seq<char>)
    requires
        s.no_duplicates(),
        !s.contains(x),
    ensures
        s.push(x).no_duplicates(),
{
    let u = s.push(x);
    assert forall|i: int, j: int| 0 <= i < u.len() && 0 <= j < u.len() && i != j implies u[i] != u[j] by {
        if i < s.len() && j < s.len() {
            assert(u[i] == s[i] && u[j] == s[j]);
        } else if i < s.len() {
            assert(u[i] == s[i]);
        } else {
            assert(u[j] == s[j]);
        }
    }
}

proof fn lemma_without_id_distinct(s: Seq<Seq<char>>, id: Seq<char>)
    requires
        s.no_duplicates(),
    ensures
        without_id(s, id).no_duplicates(),
    decreases s.len(),
{
    if s.len() > 0 {
        let t = s.drop_last();
        assert(t.no_duplicates()) by {
            assert forall|i: int, j: int| 0 <= i < t.len() && 0 <= j < t.len() && i != j implies t[i] != t[j] by {
                assert(t[i] == s[i] && t[j] == s[j]);
            }
        }
        lemma_without_id_distinct(t, id);
        if s.last() != id {
            lemma_without_id_contains(t, id, s.last());
            if t.contains(s.last()) {
                let k = choose|k: int| 0 <= k < t.len() && t[k] == s.last();
                assert(s[k] == s[s.len() - 1]);
            }
            lemma_push_new_distinct(without_id(t, id), s.last());
        }
    }
}

/// Every operation of the engine keeps each strategy recorded at most once
/// among the mock runs and among the processes.
pub proof fn lemma_runs_stay_distinct(v: EngineView, s: Strategy, blocked: bool, is_admin: bool, mode: EngineMode, id: Seq<char>)
    requires
        runs_distinct(v),
    ensures
        runs_distinct(after_set_mode(v, mode)),
        runs_distinct(start_socks_outcome(v, s, blocked).1),
        runs_distinct(stop_global_outcome(v).1),
        runs_distinct(start_global_outcome(v, s, blocked, is_admin).1),
        runs_distinct(stop_socks_outcome(v, id)),
        runs_distinct(record_process_outcome(v, id).1),
        runs_distinct(shutdown_outcome(v).1),
{
    assert(Seq::<Seq<char>>::empty().no_duplicates());
    lemma_without_id_distinct(v.mock, id);
    lemma_without_id_distinct(v.processes, id);
    if !v.mock.contains(s.id@) {
        lemma_push_new_distinct(v.mock, s.id@);
    }
    if !v.processes.contains(id) {
        lemma_push_new_distinct(v.processes, id);
    }
    if let Some(g) = v.global {
        lemma_without_id_distinct(v.mock, g);
        lemma_without_id_distinct(v.processes, g);
        let w = without_id(v.mock, g);
        if !w.contains(s.id@) {
            lemma_push_new_distinct(w, s.id@);
        }
    }
}

} // verus!
