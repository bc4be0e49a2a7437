//! The set of compositions with the active one, and the decisions made on
//! it: choosing the active composition, adding, replacing and removing
//! compositions, replacing rules, and applying the active composition.
//! Reading and writing the configuration file is left to the application.
use vstd::prelude::*;
use crate::composition::{
    pairs_view, pattern_problem, sort_by_priority, sort_rules, strategy_for, strs_view,
    used_strategies, CompositeModel, CompositeStrategy, CompositionRule, validate_pattern,
};
use crate::decimal::{decimal, u64_to_chars};
use crate::error::{ErrorKind, IsolateError};
use crate::text::{chars_of, owned, str_eq, string_of, strings_view};

verus! {

/// The composition configuration.
pub struct CompositionConfig {
    /// Configuration format version.
    pub version: String,
    /// Id of the active composition.
    pub active_composition: Option<String>,
    /// All defined compositions.
    pub compositions: Vec<CompositeStrategy>,
}

/// Model of a [`CompositionConfig`].
pub struct ConfigModel {
    pub version: String,
    pub active_composition: Option<String>,
    pub compositions: Seq<CompositeModel>,
}

/// Models of a list of compositions.
pub open spec fn comp_models(v: Seq<CompositeStrategy>) -> Seq<CompositeModel> {
    v.map_values(|c: CompositeStrategy| c@)
}

impl View for CompositionConfig {
    type V = ConfigModel;

    open spec fn view(&self) -> ConfigModel {
        ConfigModel {
            version: self.version,
            active_composition: self.active_composition,
            compositions: comp_models(self.compositions@),
        }
    }
}

/// Index of the first composition at or after `i` with the given id.
pub open spec fn find_comp_from(cs: Seq<CompositeModel>, id: Seq<char>, i: int) -> Option<int>
    decreases cs.len() - i,
{
    if i < 0 || i >= cs.len() {
        None
    } else if cs[i].id@ == id {
        Some(i)
    } else {
        find_comp_from(cs, id, i + 1)
    }
}

/// The first composition with the given id.
pub open spec fn comp_named(cs: Seq<CompositeModel>, id: Seq<char>) -> Option<CompositeModel> {
    match find_comp_from(cs, id, 0) {
        Some(i) => Some(cs[i]),
        None => None,
    }
}

/// The active composition: the first one whose id is the active id.
pub open spec fn active_of(m: ConfigModel) -> Option<CompositeModel> {
    match m.active_composition {
        Some(a) => comp_named(m.compositions, a@),
        None => None,
    }
}

/// The compositions after adding `c`: it replaces the first composition
/// with its id, or is appended when there is none.
pub open spec fn upserted(cs: Seq<CompositeModel>, c: CompositeModel) -> Seq<CompositeModel> {
    match find_comp_from(cs, c.id@, 0) {
        Some(i) => cs.update(i, c),
        None => cs.push(c),
    }
}

/// The compositions without those with the given id.
pub open spec fn without_id(cs: Seq<CompositeModel>, id: Seq<char>) -> Seq<CompositeModel>
    decreases cs.len(),
{
    if cs.len() == 0 {
        Seq::empty()
    } else if cs.last().id@ == id {
        without_id(cs.drop_last(), id)
    } else {
        without_id(cs.drop_last(), id).push(cs.last())
    }
}

/// The active id after removing the composition `id`: cleared when it was
/// that one.
pub open spec fn active_after_removal(active: Option<String>, id: Seq<char>) -> Option<String> {
    match active {
        Some(a) => if a@ == id {
            None
        } else {
            Some(a)
        },
        None => None,
    }
}

/// The validation message of the first rule whose pattern is refused.
pub open spec fn first_pattern_problem(rules: Seq<CompositionRule>, i: int) -> Option<Seq<char>>
    decreases rules.len() - i,
{
    if i < 0 || i >= rules.len() {
        None
    } else {
        match pattern_problem(rules[i].service_pattern@) {
            Some(m) => Some(m),
            None => first_pattern_problem(rules, i + 1),
        }
    }
}

/// The `(service, strategy)` pairs of applying a composition to services:
/// each service that gets a strategy, once, in order of first appearance.
pub open spec fn applied(c: CompositeModel, ids: Seq<Seq<char>>) -> Seq<(Seq<char>, Seq<char>)>
    decreases ids.len(),
{
    if ids.len() == 0 {
        Seq::empty()
    } else {
        let prev = applied(c, ids.drop_last());
        match strategy_for(c, ids.last()) {
            Some(t) => if prev.map_values(|p: (Seq<char>, Seq<char>)| p.0).contains(ids.last()) {
                prev
            } else {
                prev.push((ids.last(), t))
            },
            None => prev,
        }
    }
}

proof fn lemma_find_found(cs: Seq<CompositeModel>, id: Seq<char>, j: int)
    requires
        0 <= j,
    ensures
        match find_comp_from(cs, id, j) {
            Some(i) => j <= i < cs.len() && cs[i].id@ == id,
            None => forall|k: int| j <= k < cs.len() ==> cs[k].id@ != id,
        },
    decreases cs.len() - j,
{
    if j < cs.len() {
        lemma_find_found(cs, id, j + 1);
    }
}

proof fn lemma_find_push(s: Seq<CompositeModel>, x: CompositeModel, id: Seq<char>, j: int)
    requires
        0 <= j <= s.len(),
    ensures
        find_comp_from(s.push(x), id, j) == match find_comp_from(s, id, j) {
            Some(i) => Some(i),
            None => if x.id@ == id {
                Some(s.len() as int)
            } else {
                None
            },
        },
    decreases s.len() - j,
{
    if j < s.len() {
        lemma_find_push(s, x, id, j + 1);
        assert(s.push(x)[j] == s[j]);
    } else {
        assert(s.push(x)[j] == x);
        assert(find_comp_from(s.push(x), id, j + 1) is None);
    }
}

proof fn lemma_find_update(cs: Seq<CompositeModel>, i: int, c: CompositeModel, id: Seq<char>, j: int)
    requires
        0 <= j,
        0 <= i < cs.len(),
        (cs[i].id@ == id) == (c.id@ == id),
    ensures
        find_comp_from(cs.update(i, c), id, j) == find_comp_from(cs, id, j),
    decreases cs.len() - j,
{
    if j < cs.len() {
        lemma_find_update(cs, i, c, id, j + 1);
    }
}

proof fn lemma_named_push(s: Seq<CompositeModel>, x: CompositeModel, id: Seq<char>)
    ensures
        comp_named(s.push(x), id) == match comp_named(s, id) {
            Some(c) => Some(c),
            None => if x.id@ == id {
                Some(x)
            } else {
                None
            },
        },
{
    lemma_find_push(s, x, id, 0);
    lemma_find_found(s, id, 0);
    if let Some(i) = find_comp_from(s, id, 0) {
        assert(s.push(x)[i] == s[i]);
    } else if x.id@ == id {
        assert(s.push(x)[s.len() as int] == x);
    }
}

/// Adding a composition makes it the one found under its id, and leaves
/// what is found under every other id unchanged.
pub proof fn lemma_upsert_then_lookup(cs: Seq<CompositeModel>, c: CompositeModel, id: Seq<char>)
    ensures
        comp_named(upserted(cs, c), c.id@) == Some(c),
        id != c.id@ ==> comp_named(upserted(cs, c), id) == comp_named(cs, id),
{
    lemma_find_found(cs, c.id@, 0);
    match find_comp_from(cs, c.id@, 0) {
        Some(i) => {
            lemma_find_update(cs, i, c, c.id@, 0);
            if id != c.id@ {
                lemma_find_update(cs, i, c, id, 0);
                lemma_find_found(cs, id, 0);
            }
        },
        None => {
            lemma_named_push(cs, c, c.id@);
            lemma_named_push(cs, c, id);
        },
    }
}

/// After removing the compositions with an id, none is found under it, and
/// what is found under every other id is unchanged.
pub proof fn lemma_remove_then_lookup(cs: Seq<CompositeModel>, rid: Seq<char>, id: Seq<char>)
    ensures
        comp_named(without_id(cs, rid), rid) is None,
        id != rid ==> comp_named(without_id(cs, rid), id) == comp_named(cs, id),
    decreases cs.len(),
{
    if cs.len() == 0 {
        assert(find_comp_from(without_id(cs, rid), rid, 0) is None);
        assert(find_comp_from(without_id(cs, rid), id, 0) is None);
        assert(find_comp_from(cs, id, 0) is None);
    } else {
        let t = cs.drop_last();
        lemma_remove_then_lookup(t, rid, id);
        assert(cs =~= t.push(cs.last()));
        lemma_named_push(t, cs.last(), id);
        if cs.last().id@ != rid {
            lemma_named_push(without_id(t, rid), cs.last(), rid);
            lemma_named_push(without_id(t, rid), cs.last(), id);
        }
    }
}

pub open spec fn opt_string_view(o: Option<String>) -> Option<Seq<char>> {
    match o {
        Some(s) => Some(s@),
        None => None,
    }
}

fn find_index(cs: &Vec<CompositeStrategy>, id: &str) -> (r: Option<usize>)
    ensures
        match r {
            Some(i) => find_comp_from(comp_models(cs@), id@, 0) == Some(i as int) && i < cs@.len()
                && cs@[i as int].id@ == id@,
            None => find_comp_from(comp_models(cs@), id@, 0) is None,
        },
{
    let ghost m = comp_models(cs@);
    let mut i: usize = 0;
    while i < cs.len()
        invariant
            m == comp_models(cs@),
            i <= cs@.len(),
            find_comp_from(m, id@, 0) == find_comp_from(m, id@, i as int),
        decreases cs@.len() - i,
    {
        proof {
            assert(m[i as int] == cs@[i as int]@);
        }
        if str_eq(cs[i].id.as_str(), id) {
            return Some(i);
        }
        i = i + 1;
    }
    None
}

fn clone_rules(v: &Vec<CompositionRule>) -> (r: Vec<CompositionRule>)
    ensures
        r@ == v@,
{
    let mut r: Vec<CompositionRule> = Vec::new();
    let mut i: usize = 0;
    while i < v.len()
        invariant
            i <= v@.len(),
            r@ == v@.take(i as int),
        decreases v@.len() - i,
    {
        r.push(v[i].clone());
        proof {
            assert(v@.take(i as int + 1) =~= v@.take(i as int).push(v@[i as int]));
        }
        i = i + 1;
    }
    proof {
        assert(v@.take(i as int) =~= v@);
    }
    r
}

/// An id between two pieces of text.
fn surround(head: &str, id: &str, tail: &str) -> (r: String)
    ensures
        r@ == head@ + id@ + tail@,
{
    let mut v = chars_of(head);
    crate::text::extend_chars(&mut v, &chars_of(id));
    crate::text::extend_chars(&mut v, &chars_of(tail));
    string_of(&v)
}

impl Default for CompositionConfig {
    fn default() -> (r: Self)
        ensures
            r@.version@ == "1.0"@,
            r@.active_composition is None,
            r@.compositions.len() == 0,
    {
        CompositionConfig { version: owned("1.0"), active_composition: None, compositions: Vec::new() }
    }
}

impl CompositionConfig {
    /// Copies of all compositions, in order.
    pub fn get_compositions(&self) -> (r: Vec<CompositeStrategy>)
        ensures
            comp_models(r@) == self@.compositions,
    {
        let mut r: Vec<CompositeStrategy> = Vec::new();
        let mut i: usize = 0;
        while i < self.compositions.len()
            invariant
                i <= self.compositions@.len(),
                comp_models(r@) == comp_models(self.compositions@).take(i as int),
            decreases self.compositions@.len() - i,
        {
            let ghost before = r@;
            r.push(self.compositions[i].clone());
            proof {
                assert(comp_models(r@) =~= comp_models(before).push(self.compositions@[i as int]@));
                assert(comp_models(self.compositions@).take(i as int + 1) =~= comp_models(
                    self.compositions@,
                ).take(i as int).push(self.compositions@[i as int]@));
            }
            i = i + 1;
        }
        proof {
            assert(comp_models(self.compositions@).take(i as int) =~= comp_models(self.compositions@));
        }
        r
    }

    /// A copy of the active composition, if there is one.
    pub fn get_active_composition(&self) -> (r: Option<CompositeStrategy>)
        ensures
            match r {
                Some(c) => active_of(self@) == Some(c@),
                None => active_of(self@) is None,
            },
    {
        match &self.active_composition {
            Some(a) => match find_index(&self.compositions, a.as_str()) {
                Some(i) => Some(self.compositions[i].clone()),
                None => None,
            },
            None => None,
        }
    }

    /// Makes the composition with the given id active, or none. An id that
    /// names no composition is refused and nothing changes.
    pub fn set_active_composition(&mut self, composition_id: Option<String>) -> (r: Result<
        (),
        IsolateError,
    >)
        ensures
            match composition_id {
                Some(id) => if comp_named(old(self)@.compositions, id@) is Some {
                    r is Ok && final(self)@ == (ConfigModel {
                        active_composition: Some(id),
                        ..old(self)@
                    })
                } else {
                    r matches Err(e) && e@ == (ErrorKind::NotFound, "Composition '"@ + id@
                        + "' not found"@) && final(self)@ == old(self)@
                },
                None => r is Ok && final(self)@ == (ConfigModel {
                    active_composition: None,
                    ..old(self)@
                }),
            },
    {
        if let Some(id) = &composition_id {
            if find_index(&self.compositions, id.as_str()).is_none() {
                return Err(IsolateError::NotFound(surround("Composition '", id.as_str(), "' not found")));
            }
        }
        self.active_composition = composition_id;
        Ok(())
    }

    /// Adds a composition, replacing the first one with the same id.
    pub fn upsert_composition(&mut self, composition: CompositeStrategy)
        ensures
            final(self)@.compositions == upserted(old(self)@.compositions, composition@),
            final(self)@.version == old(self)@.version,
            final(self)@.active_composition == old(self)@.active_composition,
    {
        let ghost m0 = comp_models(self.compositions@);
        let ghost cm = composition@;
        match find_index(&self.compositions, composition.id.as_str()) {
            Some(i) => {
                self.compositions.set(i, composition);
                proof {
                    assert(comp_models(self.compositions@) =~= m0.update(i as int, cm));
                }
            },
            None => {
                self.compositions.push(composition);
                proof {
                    assert(comp_models(self.compositions@) =~= m0.push(cm));
                }
            },
        }
    }

    /// Removes every composition with the given id; the active id is cleared
    /// when it was that one. An id that names no composition is refused and
    /// nothing changes.
    pub fn remove_composition(&mut self, composition_id: &str) -> (r: Result<(), IsolateError>)
        ensures
            comp_named(old(self)@.compositions, composition_id@) is None ==> (r matches Err(e)
                && e@ == (ErrorKind::NotFound, "Composition '"@ + composition_id@
                + "' not found"@) && final(self)@ == old(self)@),
            comp_named(old(self)@.compositions, composition_id@) is Some ==> (r is Ok
                && final(self)@.compositions == without_id(old(self)@.compositions, composition_id@)
                && final(self)@.version == old(self)@.version
                && final(self)@.active_composition == active_after_removal(
                old(self)@.active_composition,
                composition_id@,
            )),
    {
        if find_index(&self.compositions, composition_id).is_none() {
            return Err(IsolateError::NotFound(surround("Composition '", composition_id, "' not found")));
        }
        let mut pending: Vec<CompositeStrategy> = Vec::new();
        std::mem::swap(&mut pending, &mut self.compositions);
        let ghost raw = pending@;
        let mut kept: Vec<CompositeStrategy> = Vec::new();
        let mut k: usize = 0;
        proof {
            assert(raw.len() == pending.len());
            assert(raw.skip(0) =~= raw);
            assert(comp_models(raw.take(0)) =~= Seq::<CompositeModel>::empty());
            assert(comp_models(kept@) =~= without_id(comp_models(raw.take(0)), composition_id@));
        }
        while pending.len() > 0
            invariant
                raw.len() <= usize::MAX,
                k <= raw.len(),
                pending@ == raw.skip(k as int),
                comp_models(kept@) == without_id(comp_models(raw.take(k as int)), composition_id@),
            decreases pending@.len(),
        {
            let c = pending.remove(0);
            proof {
                assert(c == raw[k as int]);
                assert(pending@ =~= raw.skip(k as int + 1));
                let t1 = comp_models(raw.take(k as int + 1));
                assert(t1.drop_last() =~= comp_models(raw.take(k as int)));
                assert(t1.last() == c@);
            }
            if !str_eq(c.id.as_str(), composition_id) {
                let ghost before = kept@;
                let ghost cv = c@;
                kept.push(c);
                proof {
                    assert(comp_models(kept@) =~= comp_models(before).push(cv));
                }
            }
            k = k + 1;
        }
        proof {
            assert(raw.take(k as int) =~= raw);
        }
        self.compositions = kept;
        let clear = match &self.active_composition {
            Some(a) => str_eq(a.as_str(), composition_id),
            None => false,
        };
        if clear {
            self.active_composition = None;
        }
        Ok(())
    }

    /// Copies of the active composition's rules; none without one.
    pub fn get_rules(&self) -> (r: Vec<CompositionRule>)
        ensures
            r@ == match active_of(self@) {
                Some(c) => c.rules,
                None => Seq::empty(),
            },
    {
        match &self.active_composition {
            Some(a) => match find_index(&self.compositions, a.as_str()) {
                Some(i) => clone_rules(&self.compositions[i].rules),
                None => Vec::new(),
            },
            None => Vec::new(),
        }
    }

    /// Replaces the active composition's rules, sorted stably by descending
    /// priority. Refused, with nothing changed, when a pattern is too broad
    /// (the first such rule's message), when no composition is active, and
    /// when the active id names no composition.
    pub fn set_rules(&mut self, rules: Vec<CompositionRule>) -> (r: Result<(), IsolateError>)
        ensures
            match first_pattern_problem(rules@, 0) {
                Some(msg) => r matches Err(e) && e@ == (ErrorKind::Validation, msg) && final(self)@
                    == old(self)@,
                None => match old(self)@.active_composition {
                    None => r matches Err(e) && e@ == (ErrorKind::Config, "No active composition"@)
                        && final(self)@ == old(self)@,
                    Some(a) => match find_comp_from(old(self)@.compositions, a@, 0) {
                        None => r matches Err(e) && e@ == (ErrorKind::NotFound, "Active composition '"@
                            + a@ + "' not found"@) && final(self)@ == old(self)@,
                        Some(i) => r is Ok && final(self)@ == (ConfigModel {
                            compositions: old(self)@.compositions.update(
                                i,
                                CompositeModel {
                                    rules: sort_by_priority(rules@),
                                    ..old(self)@.compositions[i]
                                },
                            ),
                            ..old(self)@
                        }),
                    },
                },
            },
    {
        let mut j: usize = 0;
        while j < rules.len()
            invariant
                j <= rules@.len(),
                first_pattern_problem(rules@, 0) == first_pattern_problem(rules@, j as int),
            decreases rules@.len() - j,
        {
            match validate_pattern(rules[j].service_pattern.as_str()) {
                Ok(()) => {},
                Err(e) => {
                    return Err(e);
                },
            }
            j = j + 1;
        }
        let i = match &self.active_composition {
            None => {
                return Err(IsolateError::Config(owned("No active composition")));
            },
            Some(a) => match find_index(&self.compositions, a.as_str()) {
                None => {
                    return Err(
                        IsolateError::NotFound(surround("Active composition '", a.as_str(), "' not found")),
                    );
                },
                Some(i) => i,
            },
        };
        let ghost m0 = comp_models(self.compositions@);
        let sorted = sort_rules(rules);
        let mut c = self.compositions.remove(i);
        c.rules = sorted;
        let ghost cv = c@;
        self.compositions.insert(i, c);
        proof {
            assert(comp_models(self.compositions@) =~= m0.update(i as int, cv));
        }
        Ok(())
    }

    /// The strategy the active composition chooses for a service; none
    /// without an active composition.
    pub fn get_strategy_for_service(&self, service_id: &str) -> (r: Option<String>)
        ensures
            opt_string_view(r) == match active_of(self@) {
                Some(c) => strategy_for(c, service_id@),
                None => None,
            },
    {
        match &self.active_composition {
            Some(a) => match find_index(&self.compositions, a.as_str()) {
                Some(i) => match self.compositions[i].get_strategy_for_service(service_id) {
                    Some(s) => Some(owned(s)),
                    None => None,
                },
                None => None,
            },
            None => None,
        }
    }

    /// The `(service, strategy)` pairs of applying the active composition to
    /// the services (see [`applied`]); refused without an active composition.
    pub fn apply_composition(&self, service_ids: &[String]) -> (r: Result<Vec<(String, String)>, IsolateError>)
        ensures
            match active_of(self@) {
                Some(c) => r matches Ok(v) && pairs_view(v@) == applied(c, strings_view(service_ids@)),
                None => r matches Err(e) && e@ == (ErrorKind::Config, "No active composition"@),
            },
    {
        let idx = match &self.active_composition {
            Some(a) => find_index(&self.compositions, a.as_str()),
            None => None,
        };
        let i = match idx {
            Some(i) => i,
            None => {
                return Err(IsolateError::Config(owned("No active composition")));
            },
        };
        let comp = &self.compositions[i];
        let ghost c = comp@;
        let ghost ids = strings_view(service_ids@);
        let mut out: Vec<(String, String)> = Vec::new();
        let mut k: usize = 0;
        proof {
            assert(pairs_view(out@) =~= applied(c, ids.take(0)));
        }
        while k < service_ids.len()
            invariant
                c == comp@,
                ids == strings_view(service_ids@),
                k <= service_ids@.len(),
                pairs_view(out@) == applied(c, ids.take(k as int)),
            decreases service_ids@.len() - k,
        {
            let sid = service_ids[k].as_str();
            proof {
                assert(ids.take(k as int + 1).drop_last() =~= ids.take(k as int));
                assert(ids.take(k as int + 1).last() == sid@);
            }
            match comp.get_strategy_for_service(sid) {
                Some(t) => {
                    let ghost prev = pairs_view(out@);
                    let ghost keys = prev.map_values(|p: (Seq<char>, Seq<char>)| p.0);
                    let mut seen = false;
                    let mut j: usize = 0;
                    while j < out.len()
                        invariant
                            prev == pairs_view(out@),
                            keys == prev.map_values(|p: (Seq<char>, Seq<char>)| p.0),
                            j <= out@.len(),
                            seen == (exists|q: int| 0 <= q < j && #[trigger] keys[q] == sid@),
                        decreases out@.len() - j,
                    {
                        if str_eq(out[j].0.as_str(), sid) {
                            seen = true;
                            proof {
                                assert(keys[j as int] == sid@);
                            }
                        }
                        proof {
                            assert(keys[j as int] == out@[j as int].0@);
                        }
                        j = j + 1;
                    }
                    proof {
                        if keys.contains(sid@) {
                            let q = choose|q: int| 0 <= q < keys.len() && keys[q] == sid@;
                            assert(keys[q] == sid@);
                        }
                        if seen {
                            let q = choose|q: int| 0 <= q < j && #[trigger] keys[q] == sid@;
                            assert(keys.contains(sid@));
                        }
                    }
                    if !seen {
                        out.push((owned(sid), owned(t)));
                        proof {
                            assert(pairs_view(out@) =~= prev.push((sid@, t@)));
                        }
                    }
                },
                None => {},
            }
            k = k + 1;
        }
        proof {
            assert(ids.take(k as int) =~= ids);
        }
        Ok(out)
    }
}

// ===========================================================================
// Validation of a composition
// ===========================================================================

/// `"Strategy '<id>' not found"` for each used strategy that is not
/// available, in order.
pub open spec fn missing_strategy_errors(used: Seq<Seq<char>>, available: Seq<Seq<char>>) -> Seq<
    Seq<char>,
>
    decreases used.len(),
{
    if used.len() == 0 {
        Seq::empty()
    } else {
        let prev = missing_strategy_errors(used.drop_last(), available);
        if available.contains(used.last()) {
            prev
        } else {
            prev.push("Strategy '"@ + used.last() + "' not found"@)
        }
    }
}

/// `"Rule <index>: <message>"` for each of the first `n` rules whose
/// pattern is refused.
pub open spec fn pattern_errors(rules: Seq<CompositionRule>, n: int) -> Seq<Seq<char>>
    decreases n,
{
    if n <= 0 {
        Seq::empty()
    } else {
        let prev = pattern_errors(rules, n - 1);
        match pattern_problem(rules[n - 1].service_pattern@) {
            Some(m) => prev.push("Rule "@ + decimal((n - 1) as nat) + ": "@ + m),
            None => prev,
        }
    }
}

/// The first index from `j` below `idx` of a rule with the same pattern and
/// priority as rule `idx`.
pub open spec fn first_same_key(rules: Seq<CompositionRule>, idx: int, j: int) -> Option<int>
    decreases idx - j,
{
    if j < 0 || j >= idx {
        None
    } else if rules[j].service_pattern@ == rules[idx].service_pattern@ && rules[j].priority
        == rules[idx].priority {
        Some(j)
    } else {
        first_same_key(rules, idx, j + 1)
    }
}

/// The message for rule `idx` repeating rule `j`.
pub open spec fn duplicate_message(r: CompositionRule, j: int, idx: int) -> Seq<char> {
    "Duplicate pattern '"@ + r.service_pattern@ + "' with priority "@ + decimal(r.priority as nat)
        + " at rules "@ + decimal(j as nat) + " and "@ + decimal(idx as nat)
}

/// A message for each of the first `n` rules that repeats the pattern and
/// priority of an earlier rule, naming the first such rule.
pub open spec fn duplicate_errors(rules: Seq<CompositionRule>, n: int) -> Seq<Seq<char>>
    decreases n,
{
    if n <= 0 {
        Seq::empty()
    } else {
        let prev = duplicate_errors(rules, n - 1);
        match first_same_key(rules, n - 1, 0) {
            Some(j) => prev.push(duplicate_message(rules[n - 1], j, n - 1)),
            None => prev,
        }
    }
}

/// All problems of a composition: unavailable strategies, refused
/// patterns, then repeated pattern and priority pairs.
pub open spec fn composition_errors(c: CompositeModel, available: Seq<Seq<char>>) -> Seq<Seq<char>> {
    missing_strategy_errors(used_strategies(c), available) + pattern_errors(c.rules, c.rules.len() as int)
        + duplicate_errors(c.rules, c.rules.len() as int)
}

fn contains_string(v: &[String], s: &str) -> (r: bool)
    ensures
        r == strings_view(v@).contains(s@),
{
    let mut i: usize = 0;
    while i < v.len()
        invariant
            i <= v@.len(),
            forall|k: int| 0 <= k < i ==> v@[k]@ != s@,
        decreases v@.len() - i,
    {
        if str_eq(v[i].as_str(), s) {
            proof {
                assert(strings_view(v@)[i as int] == s@);
            }
            return true;
        }
        i = i + 1;
    }
    proof {
        if strings_view(v@).contains(s@) {
            let k = choose|k: int| 0 <= k < strings_view(v@).len() && strings_view(v@)[k] == s@;
            assert(v@[k]@ == s@);
        }
    }
    false
}

fn first_same_key_exec(rules: &Vec<CompositionRule>, idx: usize) -> (r: Option<usize>)
    requires
        idx < rules@.len(),
    ensures
        match r {
            Some(j) => first_same_key(rules@, idx as int, 0) == Some(j as int),
            None => first_same_key(rules@, idx as int, 0) is None,
        },
{
    let mut j: usize = 0;
    while j < idx
        invariant
            idx < rules@.len(),
            j <= idx,
            first_same_key(rules@, idx as int, 0) == first_same_key(rules@, idx as int, j as int),
        decreases idx - j,
    {
        if rules[j].priority == rules[idx].priority && str_eq(
            rules[j].service_pattern.as_str(),
            rules[idx].service_pattern.as_str(),
        ) {
            return Some(j);
        }
        j = j + 1;
    }
    None
}

/// The problems of a composition given the ids of the available strategies
/// (see [`composition_errors`]); empty when it is sound.
pub fn validate_composition(composition: &CompositeStrategy, available: &[String]) -> (r: Vec<String>)
    ensures
        strings_view(r@) == composition_errors(composition@, strings_view(available@)),
{
    let ghost av = strings_view(available@);
    let used = composition.get_used_strategies();
    let ghost uv = strs_view(used@);
    let mut errors: Vec<String> = Vec::new();
    let mut i: usize = 0;
    proof {
        assert(strings_view(errors@) =~= missing_strategy_errors(uv.take(0), av));
    }
    while i < used.len()
        invariant
            uv == strs_view(used@),
            av == strings_view(available@),
            i <= used@.len(),
            strings_view(errors@) == missing_strategy_errors(uv.take(i as int), av),
        decreases used@.len() - i,
    {
        proof {
            assert(uv.take(i as int + 1).drop_last() =~= uv.take(i as int));
            assert(uv.take(i as int + 1).last() == used@[i as int]@);
        }
        if !contains_string(available, used[i]) {
            let ghost before = strings_view(errors@);
            errors.push(surround("Strategy '", used[i], "' not found"));
            proof {
                assert(strings_view(errors@) =~= before.push(
                    "Strategy '"@ + used@[i as int]@ + "' not found"@,
                ));
            }
        }
        i = i + 1;
    }
    proof {
        assert(uv.take(i as int) =~= uv);
    }
    let ghost base = strings_view(errors@);
    let rules = &composition.rules;
    let mut k: usize = 0;
    proof {
        assert(base + pattern_errors(rules@, 0) =~= base);
    }
    while k < rules.len()
        invariant
            base == missing_strategy_errors(uv, av),
            k <= rules@.len(),
            strings_view(errors@) == base + pattern_errors(rules@, k as int),
        decreases rules@.len() - k,
    {
        match validate_pattern(rules[k].service_pattern.as_str()) {
            Ok(()) => {},
            Err(e) => {
                let ghost before = strings_view(errors@);
                let msg = e.to_string();
                let num = u64_to_chars(k as u64);
                let head = chars_of("Rule ");
                let sep = chars_of(": ");
                let mc = chars_of(msg.as_str());
                let mut v = head;
                crate::text::extend_chars(&mut v, &num);
                crate::text::extend_chars(&mut v, &sep);
                crate::text::extend_chars(&mut v, &mc);
                errors.push(string_of(&v));
                proof {
                    assert(strings_view(errors@) =~= before.push(
                        "Rule "@ + decimal(k as nat) + ": "@ + e@.1,
                    ));
                }
            },
        }
        k = k + 1;
    }
    let ghost base2 = strings_view(errors@);
    let mut d: usize = 0;
    proof {
        assert(base2 + duplicate_errors(rules@, 0) =~= base2);
    }
    while d < rules.len()
        invariant
            base2 == base + pattern_errors(rules@, rules@.len() as int),
            d <= rules@.len(),
            strings_view(errors@) == base2 + duplicate_errors(rules@, d as int),
        decreases rules@.len() - d,
    {
        match first_same_key_exec(rules, d) {
            Some(j) => {
                let ghost before = strings_view(errors@);
                let r = &rules[d];
                let mut v = chars_of("Duplicate pattern '");
                crate::text::extend_chars(&mut v, &chars_of(r.service_pattern.as_str()));
                crate::text::extend_chars(&mut v, &chars_of("' with priority "));
                crate::text::extend_chars(&mut v, &u64_to_chars(r.priority as u64));
                crate::text::extend_chars(&mut v, &chars_of(" at rules "));
                crate::text::extend_chars(&mut v, &u64_to_chars(j as u64));
                crate::text::extend_chars(&mut v, &chars_of(" and "));
                crate::text::extend_chars(&mut v, &u64_to_chars(d as u64));
                errors.push(string_of(&v));
                proof {
                    assert(strings_view(errors@) =~= before.push(
                        duplicate_message(rules@[d as int], j as int, d as int),
                    ));
                }
            },
            None => {},
        }
        d = d + 1;
    }
    proof {
        assert(strings_view(errors@) =~= composition_errors(composition@, av));
    }
    errors
}

} // verus!
