//! Combining strategies chosen for several categories into one winws
//! configuration: merged port filters, all profiles separated by `--new`,
//! and a generated name and description.
use vstd::prelude::*;
use crate::text::{
    chars_of, concat3, lowercased, owned, split_chars, split_on, str_eq, string_of, strings_view,
    to_lowercase, trim, trim_chars,
};
use crate::decimal::{parse_u32, parse_unsigned};
use crate::loader::{
    category_name, flag_then, lemma_segment_rules, profile_args, push_always, push_profile_args,
    JsonStrategy, JsonStrategyView, StrategyProfile,
};
use crate::composition::{distinct, strs_view};
use crate::error::{ErrorKind, IsolateError};

verus! {

// ===========================================================================
// Selection
// ===========================================================================

/// The strategy chosen for each category, if any.
pub struct StrategySelection {
    /// Strategy id for YouTube.
    pub youtube: Option<String>,
    /// Strategy id for Discord.
    pub discord: Option<String>,
    /// Strategy id for Telegram.
    pub telegram: Option<String>,
    /// Strategy id for games.
    pub games: Option<String>,
    /// Strategy id of a user-defined strategy.
    pub custom: Option<String>,
}

/// `[(label, id)]` when a strategy is chosen for the slot.
pub open spec fn slot(label: Seq<char>, id: Option<String>) -> Seq<(Seq<char>, Seq<char>)> {
    match id {
        Some(x) => seq![(label, x@)],
        None => Seq::empty(),
    }
}

/// The chosen strategies with their category labels, in the fixed order
/// YouTube, Discord, Telegram, Games, Custom.
pub open spec fn selected(s: StrategySelection) -> Seq<(Seq<char>, Seq<char>)> {
    slot("YouTube"@, s.youtube) + slot("Discord"@, s.discord) + slot("Telegram"@, s.telegram)
        + slot("Games"@, s.games) + slot("Custom"@, s.custom)
}

/// The chosen strategy ids, in the order of [`selected`].
pub open spec fn selected_ids(s: StrategySelection) -> Seq<Seq<char>> {
    selected(s).map_values(|p: (Seq<char>, Seq<char>)| p.1)
}

/// A selection is empty exactly when it yields no strategy ids.
pub proof fn lemma_empty_iff_no_ids(s: StrategySelection)
    ensures
        (s.youtube is None && s.discord is None && s.telegram is None && s.games is None
            && s.custom is None) <==> selected_ids(s).len() == 0,
{
}

impl Default for StrategySelection {
    fn default() -> (r: Self)
        ensures
            r.youtube is None,
            r.discord is None,
            r.telegram is None,
            r.games is None,
            r.custom is None,
    {
        StrategySelection { youtube: None, discord: None, telegram: None, games: None, custom: None }
    }
}

fn push_some<'a>(ids: &mut Vec<&'a str>, id: &'a Option<String>, label: Ghost<Seq<char>>)
    ensures
        strs_view(final(ids)@) == strs_view(old(ids)@) + slot(label@, *id).map_values(
            |p: (Seq<char>, Seq<char>)| p.1,
        ),
{
    let ghost before = ids@;
    match id {
        Some(x) => {
            ids.push(x.as_str());
            proof {
                assert(slot(label@, *id).map_values(|p: (Seq<char>, Seq<char>)| p.1) =~= seq![x@]);
                assert(strs_view(ids@) =~= strs_view(before) + seq![x@]);
            }
        },
        None => {
            proof {
                assert(strs_view(ids@) =~= strs_view(before) + Seq::<Seq<char>>::empty());
            }
        },
    }
}

impl StrategySelection {
    /// An empty selection.
    pub fn new() -> (r: Self)
        ensures
            selected(r).len() == 0,
            r.youtube is None,
            r.discord is None,
            r.telegram is None,
            r.games is None,
            r.custom is None,
    {
        let r = StrategySelection {
            youtube: None,
            discord: None,
            telegram: None,
            games: None,
            custom: None,
        };
        proof {
            assert(selected(r) =~= Seq::<(Seq<char>, Seq<char>)>::empty());
        }
        r
    }

    /// Whether no strategy is chosen.
    pub fn is_empty(&self) -> (r: bool)
        ensures
            r == (self.youtube is None && self.discord is None && self.telegram is None
                && self.games is None && self.custom is None),
            r == (selected(*self).len() == 0),
    {
        self.youtube.is_none() && self.discord.is_none() && self.telegram.is_none()
            && self.games.is_none() && self.custom.is_none()
    }

    /// The chosen strategy ids, in category order.
    pub fn get_selected_ids(&self) -> (r: Vec<&str>)
        ensures
            strs_view(r@) == selected_ids(*self),
    {
        let mut ids: Vec<&str> = Vec::new();
        proof {
            assert(strs_view(ids@) =~= Seq::<Seq<char>>::empty());
        }
        push_some(&mut ids, &self.youtube, Ghost("YouTube"@));
        push_some(&mut ids, &self.discord, Ghost("Discord"@));
        push_some(&mut ids, &self.telegram, Ghost("Telegram"@));
        push_some(&mut ids, &self.games, Ghost("Games"@));
        push_some(&mut ids, &self.custom, Ghost("Custom"@));
        proof {
            let f = |p: (Seq<char>, Seq<char>)| p.1;
            let a = slot("YouTube"@, self.youtube);
            let b = slot("Discord"@, self.discord);
            let c = slot("Telegram"@, self.telegram);
            let d = slot("Games"@, self.games);
            let e = slot("Custom"@, self.custom);
            assert((a + b + c + d + e).map_values(f) =~= a.map_values(f) + b.map_values(f)
                + c.map_values(f) + d.map_values(f) + e.map_values(f));
        }
        ids
    }
}

// ===========================================================================
// Combined result
// ===========================================================================

/// The result of combining strategies.
pub struct CombinedStrategy {
    /// Generated name.
    pub name: String,
    /// Generated description.
    pub description: String,
    /// The full winws command line.
    pub args: Vec<String>,
    /// Merged TCP port filter.
    pub tcp_ports: String,
    /// Merged UDP port filter.
    pub udp_ports: String,
    /// Labels of the categories that contributed a strategy.
    pub categories: Vec<String>,
}

// ===========================================================================
// Combiner
// ===========================================================================

/// Combines strategies of several categories into one winws configuration.
pub struct StrategyCombiner {
    strategies: Vec<JsonStrategy>,
    hostlists_dir: String,
    blobs_dir: String,
}

/// Model of a [`StrategyCombiner`].
pub struct CombinerModel {
    /// Available strategies.
    pub strategies: Seq<JsonStrategyView>,
    /// Directory of hostlist and ipset files.
    pub hostlists: Seq<char>,
    /// Directory of fake packet blobs.
    pub blobs: Seq<char>,
}

impl View for StrategyCombiner {
    type V = CombinerModel;

    closed spec fn view(&self) -> CombinerModel {
        CombinerModel {
            strategies: self.strategies@.map_values(|s: JsonStrategy| s@),
            hostlists: self.hostlists_dir@,
            blobs: self.blobs_dir@,
        }
    }
}

/// Models of a list of borrowed strategies.
pub open spec fn refs_view(v: Seq<&JsonStrategy>) -> Seq<JsonStrategyView> {
    v.map_values(|s: &JsonStrategy| s@)
}

/// The strategies whose category's variant name, lowercased, equals `key`.
pub open spec fn in_category(ss: Seq<JsonStrategyView>, key: Seq<char>) -> Seq<JsonStrategyView>
    decreases ss.len(),
{
    if ss.len() == 0 {
        Seq::empty()
    } else if lowercased(category_name(ss.last().category)) == key {
        in_category(ss.drop_last(), key).push(ss.last())
    } else {
        in_category(ss.drop_last(), key)
    }
}

/// The first strategy with the given id.
pub open spec fn lookup_id(ss: Seq<JsonStrategyView>, id: Seq<char>) -> Option<JsonStrategyView>
    decreases ss.len(),
{
    if ss.len() == 0 {
        None
    } else if ss[0].id@ == id {
        Some(ss[0])
    } else {
        lookup_id(ss.drop_first(), id)
    }
}

pub open spec fn opt_ref_view(o: Option<&JsonStrategy>) -> Option<JsonStrategyView> {
    match o {
        Some(s) => Some(s@),
        None => None,
    }
}

// ===========================================================================
// Port merging
// ===========================================================================

/// The port filter of one protocol (`tcp` or else `udp`) of a strategy.
pub open spec fn port_field(s: JsonStrategyView, tcp: bool) -> Option<String> {
    if tcp {
        s.ports.tcp
    } else {
        s.ports.udp
    }
}

/// The trimmed comma-separated entries of a port filter.
pub open spec fn filter_items(f: Option<String>) -> Seq<Seq<char>> {
    match f {
        Some(p) => split_on(p@, ',').map_values(|x: Seq<char>| trim(x)),
        None => Seq::empty(),
    }
}

/// All port entries of one protocol over a list of strategies, in order.
pub open spec fn port_items(ss: Seq<JsonStrategyView>, tcp: bool) -> Seq<Seq<char>>
    decreases ss.len(),
{
    if ss.len() == 0 {
        Seq::empty()
    } else {
        port_items(ss.drop_last(), tcp) + filter_items(port_field(ss.last(), tcp))
    }
}

/// The number before the first `-` of an entry, when it parses as a `u32`.
pub open spec fn port_key(a: Seq<char>) -> Option<nat> {
    parse_unsigned(split_on(a, '-')[0], 4294967295)
}

/// Strict lexicographic order of character sequences by code point (the
/// order of `str` comparison).
pub open spec fn lex_less(a: Seq<char>, b: Seq<char>) -> bool
    decreases a.len(),
{
    if a.len() == 0 {
        b.len() > 0
    } else if b.len() == 0 {
        false
    } else if a[0] != b[0] {
        a[0] < b[0]
    } else {
        lex_less(a.drop_first(), b.drop_first())
    }
}

/// Order of port entries: entries with a numeric start first, by that
/// number; then the others, lexicographically.
pub open spec fn port_before(a: Seq<char>, b: Seq<char>) -> bool {
    match (port_key(a), port_key(b)) {
        (Some(x), Some(y)) => x < y,
        (Some(_), None) => true,
        (None, Some(_)) => false,
        (None, None) => lex_less(a, b),
    }
}

/// Inserts an entry after every entry at the end of a list that is not
/// after it: one step of a stable sort.
pub open spec fn insert_port(s: Seq<Seq<char>>, x: Seq<char>) -> Seq<Seq<char>>
    decreases s.len(),
{
    if s.len() == 0 {
        seq![x]
    } else if port_before(x, s.last()) {
        insert_port(s.drop_last(), x).push(s.last())
    } else {
        s.push(x)
    }
}

/// Stable sort by [`port_before`].
pub open spec fn sort_ports(s: Seq<Seq<char>>) -> Seq<Seq<char>>
    decreases s.len(),
{
    if s.len() == 0 {
        Seq::empty()
    } else {
        insert_port(sort_ports(s.drop_last()), s.last())
    }
}

/// The items joined with a separator.
pub open spec fn join_with(items: Seq<Seq<char>>, sep: Seq<char>) -> Seq<char>
    decreases items.len(),
{
    if items.len() == 0 {
        Seq::empty()
    } else if items.len() == 1 {
        items[0]
    } else {
        join_with(items.drop_last(), sep) + sep + items.last()
    }
}

/// The merged port filter of one protocol: every entry once, sorted,
/// joined with commas.
pub open spec fn merged_ports(ss: Seq<JsonStrategyView>, tcp: bool) -> Seq<char> {
    join_with(sort_ports(distinct(port_items(ss, tcp))), ","@)
}

/// Entries never go before an earlier entry.
pub open spec fn ports_sorted(s: Seq<Seq<char>>) -> bool {
    forall|i: int, j: int| 0 <= i < j < s.len() ==> !port_before(#[trigger] s[j], #[trigger] s[i])
}

proof fn lemma_lex_trichotomy(a: Seq<char>, b: Seq<char>)
    ensures
        a == b || lex_less(a, b) || lex_less(b, a),
        !(lex_less(a, b) && lex_less(b, a)),
        !lex_less(a, a),
    decreases a.len(),
{
    if a.len() == 0 {
        if b.len() == 0 {
            assert(a =~= b);
        }
    } else {
        lemma_lex_trichotomy(a.drop_first(), a.drop_first());
    }
    if a.len() > 0 && b.len() > 0 {
        lemma_lex_trichotomy(a.drop_first(), b.drop_first());
        if a[0] == b[0] && a.drop_first() == b.drop_first() {
            assert(a =~= b) by {
                assert forall|i: int| 0 <= i < a.len() implies a[i] == b[i] by {
                    if i > 0 {
                        assert(a[i] == a.drop_first()[i - 1]);
                        assert(b[i] == b.drop_first()[i - 1]);
                    }
                }
            }
        }
    }
}

proof fn lemma_lex_transitive(a: Seq<char>, b: Seq<char>, c: Seq<char>)
    requires
        lex_less(a, b),
        lex_less(b, c),
    ensures
        lex_less(a, c),
    decreases a.len(),
{
    if a.len() > 0 && b.len() > 0 && c.len() > 0 && a[0] == b[0] && b[0] == c[0] {
        lemma_lex_transitive(a.drop_first(), b.drop_first(), c.drop_first());
    }
}

proof fn lemma_port_order(x: Seq<char>, y: Seq<char>, z: Seq<char>)
    ensures
        !port_before(x, x),
        port_before(x, y) ==> !port_before(y, x),
        !port_before(x, y) && !port_before(y, z) ==> !port_before(x, z),
{
    lemma_lex_trichotomy(x, y);
    lemma_lex_trichotomy(y, z);
    lemma_lex_trichotomy(x, z);
    if lex_less(z, y) && lex_less(y, x) {
        lemma_lex_transitive(z, y, x);
    }
}

proof fn lemma_insert_port(s: Seq<Seq<char>>, x: Seq<char>)
    requires
        ports_sorted(s),
    ensures
        ports_sorted(insert_port(s, x)),
        insert_port(s, x).to_multiset() == s.to_multiset().insert(x),
    decreases s.len(),
{
    broadcast use vstd::multiset::group_multiset_axioms;
    broadcast use vstd::seq_lib::group_to_multiset_ensures;

    if s.len() == 0 {
        assert(seq![x] =~= Seq::<Seq<char>>::empty().push(x));
    } else if port_before(x, s.last()) {
        let t = s.drop_last();
        assert(ports_sorted(t)) by {
            assert forall|i: int, j: int| 0 <= i < j < t.len() implies !port_before(#[trigger] t[j], #[trigger] t[i]) by {
                assert(t[i] == s[i] && t[j] == s[j]);
            }
        }
        lemma_insert_port(t, x);
        let it = insert_port(t, x);
        let r = it.push(s.last());
        assert forall|i: int, j: int| 0 <= i < j < r.len() implies !port_before(#[trigger] r[j], #[trigger] r[i]) by {
            if j == r.len() - 1 {
                assert(r[j] == s.last());
                assert(r[i] == it[i]);
                assert(it.to_multiset().count(it[i]) > 0);
                if it[i] == x {
                    lemma_port_order(x, s.last(), x);
                } else {
                    assert(t.to_multiset().count(it[i]) > 0);
                    assert(t.contains(it[i]));
                    let k = choose|k: int| 0 <= k < t.len() && t[k] == it[i];
                    assert(s[k] == t[k]);
                    assert(!port_before(s[s.len() - 1], s[k]));
                }
            } else {
                assert(r[i] == it[i] && r[j] == it[j]);
            }
        }
        assert(s =~= t.push(s.last()));
    } else {
        let r = s.push(x);
        assert forall|i: int, j: int| 0 <= i < j < r.len() implies !port_before(#[trigger] r[j], #[trigger] r[i]) by {
            if j == r.len() - 1 {
                assert(r[j] == x);
                assert(r[i] == s[i]);
                if i < s.len() - 1 {
                    assert(!port_before(s[s.len() - 1], s[i]));
                    lemma_port_order(x, s[s.len() - 1], s[i]);
                }
            } else {
                assert(r[i] == s[i] && r[j] == s[j]);
            }
        }
    }
}

proof fn lemma_sort_ports(s: Seq<Seq<char>>)
    ensures
        ports_sorted(sort_ports(s)),
        sort_ports(s).to_multiset() == s.to_multiset(),
    decreases s.len(),
{
    broadcast use vstd::multiset::group_multiset_axioms;
    broadcast use vstd::seq_lib::group_to_multiset_ensures;

    if s.len() > 0 {
        lemma_sort_ports(s.drop_last());
        lemma_insert_port(sort_ports(s.drop_last()), s.last());
        assert(s =~= s.drop_last().push(s.last()));
    } else {
        assert(sort_ports(s) =~= Seq::<Seq<char>>::empty());
    }
}

proof fn lemma_distinct(s: Seq<Seq<char>>)
    ensures
        distinct(s).no_duplicates(),
        forall|x: Seq<char>| distinct(s).contains(x) <==> s.contains(x),
    decreases s.len(),
{
    broadcast use vstd::seq_lib::group_seq_properties;

    if s.len() > 0 {
        let t = s.drop_last();
        lemma_distinct(t);
        assert(s =~= t.push(s.last()));
        let dt = distinct(t);
        if !dt.contains(s.last()) {
            let ds = dt.push(s.last());
            assert(distinct(s) == ds);
            assert forall|i: int, j: int| 0 <= i < ds.len() && 0 <= j < ds.len() && i != j implies ds[i] != ds[j] by {
                if i == ds.len() - 1 {
                    assert(dt[j] == ds[j]);
                } else if j == ds.len() - 1 {
                    assert(dt[i] == ds[i]);
                } else {
                    assert(dt[i] == ds[i] && dt[j] == ds[j]);
                }
            }
        }
    } else {
        assert(distinct(s) =~= Seq::<Seq<char>>::empty());
    }
}

/// Merging the entries of port filters keeps every entry exactly once,
/// loses none, and orders them by [`port_before`]: numeric entries by their
/// number, before the others in text order.
pub proof fn lemma_merged_port_entries(items: Seq<Seq<char>>)
    ensures
        ports_sorted(sort_ports(distinct(items))),
        sort_ports(distinct(items)).no_duplicates(),
        forall|x: Seq<char>| sort_ports(distinct(items)).contains(x) <==> items.contains(x),
{
    broadcast use vstd::seq_lib::to_multiset_contains;

    let d = distinct(items);
    lemma_distinct(items);
    lemma_sort_ports(d);
    let r = sort_ports(d);
    d.lemma_multiset_has_no_duplicates();
    r.lemma_multiset_has_no_duplicates_conv();
    assert forall|x: Seq<char>| r.contains(x) <==> items.contains(x) by {
        if r.contains(x) {
            assert(r.to_multiset().count(x) > 0);
            assert(d.to_multiset().count(x) > 0);
        }
        if d.contains(x) {
            assert(d.to_multiset().count(x) > 0);
            assert(r.to_multiset().count(x) > 0);
        }
    }
}

fn lex_less_exec(a: &[char], b: &[char]) -> (r: bool)
    ensures
        r == lex_less(a@, b@),
{
    let mut i: usize = 0;
    proof {
        assert(a@.skip(0) =~= a@);
        assert(b@.skip(0) =~= b@);
    }
    while i < a.len() && i < b.len()
        invariant
            i <= a@.len(),
            i <= b@.len(),
            lex_less(a@, b@) == lex_less(a@.skip(i as int), b@.skip(i as int)),
        decreases a@.len() - i,
    {
        proof {
            assert(a@.skip(i as int)[0] == a@[i as int]);
            assert(b@.skip(i as int)[0] == b@[i as int]);
            assert(a@.skip(i as int).drop_first() =~= a@.skip(i as int + 1));
            assert(b@.skip(i as int).drop_first() =~= b@.skip(i as int + 1));
        }
        if a[i] != b[i] {
            return a[i] < b[i];
        }
        i = i + 1;
    }
    i == a.len() && i < b.len()
}

fn port_key_exec(a: &[char]) -> (r: Option<u32>)
    ensures
        match r {
            Some(v) => port_key(a@) == Some(v as nat),
            None => port_key(a@) is None,
        },
{
    let parts = split_chars(a, '-');
    proof {
        crate::text::lemma_split_nonempty(a@, '-');
    }
    parse_u32(parts[0].as_slice())
}

fn port_before_exec(a: &str, b: &str) -> (r: bool)
    ensures
        r == port_before(a@, b@),
{
    let ac = chars_of(a);
    let bc = chars_of(b);
    match (port_key_exec(&ac), port_key_exec(&bc)) {
        (Some(x), Some(y)) => x < y,
        (Some(_), None) => true,
        (None, Some(_)) => false,
        (None, None) => lex_less_exec(&ac, &bc),
    }
}

fn push_distinct_string(out: &mut Vec<String>, s: String, prev: Ghost<Seq<Seq<char>>>)
    requires
        strings_view(old(out)@) == distinct(prev@),
    ensures
        strings_view(final(out)@) == distinct(prev@.push(s@)),
{
    proof {
        assert(prev@.push(s@).drop_last() =~= prev@);
        assert(prev@.push(s@).last() == s@);
    }
    let mut i: usize = 0;
    while i < out.len()
        invariant
            i <= out@.len(),
            out@ == old(out)@,
            strings_view(out@) == distinct(prev@),
            forall|k: int| 0 <= k < i ==> out@[k]@ != s@,
        decreases out@.len() - i,
    {
        if str_eq(out[i].as_str(), s.as_str()) {
            proof {
                assert(strings_view(out@)[i as int] == s@);
                assert(distinct(prev@).contains(s@));
                assert(prev@.push(s@).drop_last() =~= prev@);
                assert(prev@.push(s@).last() == s@);
            }
            return;
        }
        i = i + 1;
    }
    let ghost before = out@;
    proof {
        assert(!strings_view(before).contains(s@)) by {
            if strings_view(before).contains(s@) {
                let k = choose|k: int| 0 <= k < strings_view(before).len() && strings_view(before)[k] == s@;
                assert(before[k]@ == s@);
            }
        }
    }
    out.push(s);
    proof {
        assert(strings_view(out@) =~= strings_view(before).push(s@));
    }
}

/// Adds the entries of one port filter, each once.
fn collect_filter(out: &mut Vec<String>, f: &Option<String>, prev: Ghost<Seq<Seq<char>>>)
    requires
        strings_view(old(out)@) == distinct(prev@),
    ensures
        strings_view(final(out)@) == distinct(prev@ + filter_items(*f)),
{
    match f {
        Some(p) => {
            let pc = chars_of(p.as_str());
            let parts = split_chars(&pc, ',');
            let ghost items = filter_items(*f);
            let mut k: usize = 0;
            proof {
                assert(prev@ + items.take(0) =~= prev@);
            }
            while k < parts.len()
                invariant
                    items == filter_items(*f),
                    *f == Some(*p),
                    pc@ == p@,
                    parts@.len() == split_on(pc@, ',').len(),
                    forall|t: int| 0 <= t < parts@.len() ==> #[trigger] parts@[t]@ == split_on(pc@, ',')[t],
                    items.len() == parts@.len(),
                    k <= parts@.len(),
                    strings_view(out@) == distinct(prev@ + items.take(k as int)),
                decreases parts@.len() - k,
            {
                let t = trim_chars(parts[k].as_slice());
                let item = string_of(&t);
                proof {
                    assert(items[k as int] == trim(parts@[k as int]@));
                    assert(prev@ + items.take(k as int + 1) =~= (prev@ + items.take(k as int)).push(item@));
                }
                push_distinct_string(out, item, Ghost(prev@ + items.take(k as int)));
                k = k + 1;
            }
            proof {
                assert(items.take(k as int) =~= items);
            }
        },
        None => {
            proof {
                assert(prev@ + filter_items(*f) =~= prev@);
            }
        },
    }
}

/// Every port entry of one protocol, each once, in order of first appearance.
fn collect_ports(strategies: &[&JsonStrategy], tcp: bool) -> (r: Vec<String>)
    ensures
        strings_view(r@) == distinct(port_items(refs_view(strategies@), tcp)),
{
    let ghost ss = refs_view(strategies@);
    let mut out: Vec<String> = Vec::new();
    let mut i: usize = 0;
    proof {
        assert(strings_view(out@) =~= Seq::<Seq<char>>::empty());
        assert(port_items(ss.take(0), tcp) =~= Seq::<Seq<char>>::empty());
    }
    while i < strategies.len()
        invariant
            ss == refs_view(strategies@),
            i <= strategies@.len(),
            strings_view(out@) == distinct(port_items(ss.take(i as int), tcp)),
        decreases strategies@.len() - i,
    {
        proof {
            assert(ss.take(i as int + 1).drop_last() =~= ss.take(i as int));
            assert(ss.take(i as int + 1).last() == strategies@[i as int]@);
        }
        let s = strategies[i];
        if tcp {
            collect_filter(&mut out, &s.ports.tcp, Ghost(port_items(ss.take(i as int), tcp)));
        } else {
            collect_filter(&mut out, &s.ports.udp, Ghost(port_items(ss.take(i as int), tcp)));
        }
        i = i + 1;
    }
    proof {
        assert(ss.take(i as int) =~= ss);
    }
    out
}

/// Inserts an entry into a list kept in port order, after equal entries.
fn insert_port_vec(v: &mut Vec<String>, x: String)
    ensures
        strings_view(final(v)@) == insert_port(strings_view(old(v)@), x@),
{
    let ghost orig = strings_view(v@);
    let ghost ov = v@;
    let mut j: usize = v.len();
    proof {
        assert(orig.take(j as int) =~= orig);
        assert(orig.skip(j as int) =~= Seq::<Seq<char>>::empty());
    }
    while j > 0 && port_before_exec(x.as_str(), v[j - 1].as_str())
        invariant
            v@ == ov,
            orig == strings_view(ov),
            j <= v@.len(),
            insert_port(orig, x@) == insert_port(orig.take(j as int), x@) + orig.skip(j as int),
        decreases j,
    {
        proof {
            let t = orig.take(j as int);
            assert(t.drop_last() =~= orig.take(j - 1));
            assert(t.last() == orig[j - 1]);
            assert(orig.skip(j - 1) =~= seq![orig[j - 1]] + orig.skip(j as int));
            assert(insert_port(orig.take(j - 1), x@).push(orig[j - 1]) + orig.skip(j as int)
                =~= insert_port(orig.take(j - 1), x@) + orig.skip(j - 1));
        }
        j = j - 1;
    }
    proof {
        let t = orig.take(j as int);
        if j > 0 {
            assert(t.last() == orig[j - 1]);
            assert(insert_port(t, x@) == t.push(x@));
        } else {
            assert(insert_port(t, x@) == seq![x@]);
        }
        assert(insert_port(t, x@) + orig.skip(j as int) =~= orig.insert(j as int, x@));
    }
    let ghost xv = x@;
    v.insert(j, x);
    proof {
        assert(strings_view(v@) =~= orig.insert(j as int, xv));
    }
}

/// Sorts port entries stably by [`port_before`].
fn sort_port_list(items: Vec<String>) -> (r: Vec<String>)
    ensures
        strings_view(r@) == sort_ports(strings_view(items@)),
{
    let ghost iv = strings_view(items@);
    let mut out: Vec<String> = Vec::new();
    let mut i: usize = 0;
    proof {
        assert(strings_view(out@) =~= Seq::<Seq<char>>::empty());
        assert(iv.take(0) =~= Seq::<Seq<char>>::empty());
    }
    while i < items.len()
        invariant
            iv == strings_view(items@),
            i <= items@.len(),
            strings_view(out@) == sort_ports(iv.take(i as int)),
        decreases items@.len() - i,
    {
        proof {
            assert(iv.take(i as int + 1).drop_last() =~= iv.take(i as int));
            assert(iv.take(i as int + 1).last() == items@[i as int]@);
        }
        insert_port_vec(&mut out, items[i].clone());
        i = i + 1;
    }
    proof {
        assert(iv.take(i as int) =~= iv);
    }
    out
}

/// Joins strings with a separator.
fn join_strings(items: &[String], sep: &str) -> (r: String)
    ensures
        r@ == join_with(strings_view(items@), sep@),
{
    let ghost iv = strings_view(items@);
    let sc = chars_of(sep);
    let mut out: Vec<char> = Vec::new();
    let mut i: usize = 0;
    proof {
        assert(iv.take(0) =~= Seq::<Seq<char>>::empty());
    }
    while i < items.len()
        invariant
            iv == strings_view(items@),
            sc@ == sep@,
            i <= items@.len(),
            out@ == join_with(iv.take(i as int), sep@),
        decreases items@.len() - i,
    {
        proof {
            assert(iv.take(i as int + 1).drop_last() =~= iv.take(i as int));
            assert(iv.take(i as int + 1).last() == items@[i as int]@);
            if i == 0 {
                assert(iv.take(1)[0] == items@[0]@);
            }
        }
        if i > 0 {
            crate::text::extend_chars(&mut out, &sc);
        }
        let ic = chars_of(items[i].as_str());
        crate::text::extend_chars(&mut out, &ic);
        proof {
            if i == 0 {
                assert(out@ =~= items@[0]@);
            }
        }
        i = i + 1;
    }
    proof {
        assert(iv.take(i as int) =~= iv);
    }
    string_of(&out)
}

// ===========================================================================
// Arguments, name and description
// ===========================================================================

/// The arguments of one profile in a combined command line: the same as
/// the profile gives on its own (see [`profile_args`]), so that a combined
/// strategy configures winws as its parts do.
pub open spec fn combo_profile_args(p: StrategyProfile, hostlists: Seq<char>, blobs: Seq<char>) -> Seq<Seq<char>> {
    profile_args(p, hostlists, blobs)
}

/// The arguments of a list of profiles, separated by `--new`.
pub open spec fn combo_profiles_args(ps: Seq<StrategyProfile>, hostlists: Seq<char>, blobs: Seq<char>) -> Seq<Seq<char>>
    decreases ps.len(),
{
    if ps.len() == 0 {
        Seq::empty()
    } else if ps.len() == 1 {
        combo_profile_args(ps[0], hostlists, blobs)
    } else {
        combo_profiles_args(ps.drop_last(), hostlists, blobs) + seq!["--new"@] + combo_profile_args(
            ps.last(),
            hostlists,
            blobs,
        )
    }
}

/// The profiles of a list of strategies, in order.
pub open spec fn all_profiles(ss: Seq<JsonStrategyView>) -> Seq<StrategyProfile>
    decreases ss.len(),
{
    if ss.len() == 0 {
        Seq::empty()
    } else {
        all_profiles(ss.drop_last()) + ss.last().profiles
    }
}

/// `[flag, value]` unless the value is empty.
pub open spec fn nonempty_seg(flag: Seq<char>, v: Seq<char>) -> Seq<Seq<char>> {
    if v.len() == 0 {
        Seq::empty()
    } else {
        seq![flag, v]
    }
}

/// The combined command line: the merged port filters (when not empty),
/// then every profile of every strategy, separated by `--new`.
pub open spec fn combined_args(
    ss: Seq<JsonStrategyView>,
    tcp: Seq<char>,
    udp: Seq<char>,
    hostlists: Seq<char>,
    blobs: Seq<char>,
) -> Seq<Seq<char>> {
    nonempty_seg("--wf-tcp"@, tcp) + nonempty_seg("--wf-udp"@, udp) + combo_profiles_args(
        all_profiles(ss),
        hostlists,
        blobs,
    )
}

proof fn lemma_combo_profiles_carry(
    ps: Seq<StrategyProfile>,
    h: Seq<char>,
    b: Seq<char>,
    k: int,
    f: Seq<char>,
    v: Seq<char>,
)
    requires
        0 <= k < ps.len(),
        flag_then(profile_args(ps[k], h, b), f, v),
    ensures
        flag_then(combo_profiles_args(ps, h, b), f, v),
    decreases ps.len(),
{
    lemma_segment_rules();
    if ps.len() > 1 && k < ps.len() - 1 {
        assert(ps.drop_last()[k] == ps[k]);
        lemma_combo_profiles_carry(ps.drop_last(), h, b, k, f, v);
    }
}

/// The combined command line starts with the merged port filters: a
/// non-empty TCP list as `--wf-tcp` and the list, then a non-empty UDP list
/// as `--wf-udp` and the list. Every flag and value that one of the
/// combined profiles carries on its own is carried by the combined line too.
pub proof fn lemma_combined_args_carry_filters_and_profiles(
    ss: Seq<JsonStrategyView>,
    tcp: Seq<char>,
    udp: Seq<char>,
    h: Seq<char>,
    b: Seq<char>,
    k: int,
    f: Seq<char>,
    v: Seq<char>,
)
    ensures
        tcp.len() > 0 ==> combined_args(ss, tcp, udp, h, b)[0] == "--wf-tcp"@
            && combined_args(ss, tcp, udp, h, b)[1] == tcp,
        udp.len() > 0 ==> ({
            let at: int = if tcp.len() > 0 { 2 } else { 0 };
            &&& combined_args(ss, tcp, udp, h, b)[at] == "--wf-udp"@
            &&& combined_args(ss, tcp, udp, h, b)[at + 1] == udp
        }),
        tcp.len() > 0 ==> flag_then(combined_args(ss, tcp, udp, h, b), "--wf-tcp"@, tcp),
        udp.len() > 0 ==> flag_then(combined_args(ss, tcp, udp, h, b), "--wf-udp"@, udp),
        0 <= k < all_profiles(ss).len() && flag_then(profile_args(all_profiles(ss)[k], h, b), f, v)
            ==> flag_then(combined_args(ss, tcp, udp, h, b), f, v),
{
    lemma_segment_rules();
    let a = combined_args(ss, tcp, udp, h, b);
    let t = nonempty_seg("--wf-tcp"@, tcp);
    let u = nonempty_seg("--wf-udp"@, udp);
    let rest = combo_profiles_args(all_profiles(ss), h, b);
    assert(a == t + u + rest);
    if tcp.len() > 0 {
        assert(a[0] == t[0]);
        assert(a[1] == t[1]);
        assert(flag_then(a, "--wf-tcp"@, tcp));
    }
    if udp.len() > 0 {
        let at: int = if tcp.len() > 0 { 2 } else { 0 };
        assert(a[at] == u[0]);
        assert(a[at + 1] == u[1]);
        assert(flag_then(a, "--wf-udp"@, udp));
    }
    if 0 <= k < all_profiles(ss).len() && flag_then(profile_args(all_profiles(ss)[k], h, b), f, v) {
        lemma_combo_profiles_carry(all_profiles(ss), h, b, k, f, v);
    }
}

/// `"<category> Strategy"` for one category, else `"Combined: "` and the
/// categories joined with `" + "`.
pub open spec fn combined_name(cats: Seq<Seq<char>>) -> Seq<char> {
    if cats.len() == 1 {
        cats[0] + " Strategy"@
    } else {
        "Combined: "@ + join_with(cats, " + "@)
    }
}

/// A sentence naming the categories: `"DPI bypass for A"`, or
/// `"Combined DPI bypass for A, B and C"`.
pub open spec fn combined_description(cats: Seq<Seq<char>>) -> Seq<char> {
    if cats.len() == 0 {
        "No categories selected"@
    } else if cats.len() == 1 {
        "DPI bypass for "@ + cats[0]
    } else {
        "Combined DPI bypass for "@ + join_with(cats.drop_last(), ", "@) + " and "@ + cats.last()
    }
}

// ===========================================================================
// Combination
// ===========================================================================

/// The chosen strategies that exist among `ss`, with their category labels,
/// in selection order; a chosen id with no strategy is skipped.
pub open spec fn found(ss: Seq<JsonStrategyView>, picks: Seq<(Seq<char>, Seq<char>)>) -> Seq<
    (Seq<char>, JsonStrategyView),
>
    decreases picks.len(),
{
    if picks.len() == 0 {
        Seq::empty()
    } else {
        let prev = found(ss, picks.drop_last());
        match lookup_id(ss, picks.last().1) {
            Some(s) => prev.push((picks.last().0, s)),
            None => prev,
        }
    }
}

pub open spec fn found_labels(f: Seq<(Seq<char>, JsonStrategyView)>) -> Seq<Seq<char>> {
    f.map_values(|p: (Seq<char>, JsonStrategyView)| p.0)
}

pub open spec fn found_strategies(f: Seq<(Seq<char>, JsonStrategyView)>) -> Seq<JsonStrategyView> {
    f.map_values(|p: (Seq<char>, JsonStrategyView)| p.1)
}

/// `c` is the combination of the found strategies `f`: their labels, their
/// merged port filters, the combined command line, name and description.
pub open spec fn is_combination(c: CombinedStrategy, m: CombinerModel, f: Seq<(Seq<char>, JsonStrategyView)>) -> bool {
    let cats = found_labels(f);
    let ss = found_strategies(f);
    &&& strings_view(c.categories@) == cats
    &&& c.tcp_ports@ == merged_ports(ss, true)
    &&& c.udp_ports@ == merged_ports(ss, false)
    &&& strings_view(c.args@) == combined_args(ss, c.tcp_ports@, c.udp_ports@, m.hostlists, m.blobs)
    &&& c.name@ == combined_name(cats)
    &&& c.description@ == combined_description(cats)
}

impl StrategyCombiner {
    /// A combiner over the given strategies and file directories.
    pub fn new(strategies: Vec<JsonStrategy>, hostlists_dir: &str, blobs_dir: &str) -> (r: Self)
        ensures
            r@.strategies == strategies@.map_values(|s: JsonStrategy| s@),
            r@.hostlists == hostlists_dir@,
            r@.blobs == blobs_dir@,
    {
        StrategyCombiner {
            strategies,
            hostlists_dir: owned(hostlists_dir),
            blobs_dir: owned(blobs_dir),
        }
    }

    /// The strategies of a category, named case-insensitively (the name is
    /// compared, lowercased, with the lowercased variant name).
    pub fn get_strategies_for_category(&self, category: &str) -> (r: Vec<&JsonStrategy>)
        ensures
            refs_view(r@) == in_category(self@.strategies, lowercased(category@)),
    {
        let key = to_lowercase(category);
        let ghost ss = self@.strategies;
        let mut r: Vec<&JsonStrategy> = Vec::new();
        let mut i: usize = 0;
        proof {
            assert(refs_view(r@) =~= Seq::<JsonStrategyView>::empty());
        }
        while i < self.strategies.len()
            invariant
                ss == self@.strategies,
                ss.len() == self.strategies@.len(),
                i <= ss.len(),
                key@ == lowercased(category@),
                refs_view(r@) == in_category(ss.take(i as int), key@),
            decreases ss.len() - i,
        {
            proof {
                assert(ss.take(i as int + 1).drop_last() =~= ss.take(i as int));
                assert(ss.take(i as int + 1).last() == self.strategies@[i as int]@);
            }
            let name = self.strategies[i].category.to_string();
            let lower = to_lowercase(name.as_str());
            if str_eq(lower.as_str(), key.as_str()) {
                let ghost before = r@;
                r.push(&self.strategies[i]);
                proof {
                    assert(refs_view(r@) =~= refs_view(before).push(self.strategies@[i as int]@));
                }
            }
            i = i + 1;
        }
        proof {
            assert(ss.take(i as int) =~= ss);
        }
        r
    }

    /// The first strategy with the given id.
    fn find_strategy(&self, id: &str) -> (r: Option<&JsonStrategy>)
        ensures
            opt_ref_view(r) == lookup_id(self@.strategies, id@),
    {
        let ghost ss = self@.strategies;
        let mut i: usize = 0;
        proof {
            assert(ss.skip(0) =~= ss);
        }
        while i < self.strategies.len()
            invariant
                ss == self@.strategies,
                ss.len() == self.strategies@.len(),
                i <= ss.len(),
                lookup_id(ss, id@) == lookup_id(ss.skip(i as int), id@),
            decreases ss.len() - i,
        {
            proof {
                assert(ss.skip(i as int)[0] == self.strategies@[i as int]@);
                assert(ss.skip(i as int).drop_first() =~= ss.skip(i as int + 1));
            }
            if str_eq(self.strategies[i].id.as_str(), id) {
                return Some(&self.strategies[i]);
            }
            i = i + 1;
        }
        None
    }

    /// Appends the arguments of one profile (see [`combo_profile_args`]);
    /// this always succeeds.
    pub fn add_profile_args(&self, args: &mut Vec<String>, profile: &StrategyProfile) -> (r: Result<
        (),
        IsolateError,
    >)
        ensures
            r is Ok,
            strings_view(final(args)@) == strings_view(old(args)@) + combo_profile_args(
                *profile,
                self@.hostlists,
                self@.blobs,
            ),
    {
        push_profile_args(args, profile, self.hostlists_dir.as_str(), self.blobs_dir.as_str());
        Ok(())
    }

    /// Every profile of the given strategies, in order.
    pub fn merge_profiles<'a>(&self, strategies: &[&'a JsonStrategy]) -> (r: Vec<&'a StrategyProfile>)
        ensures
            r@.map_values(|p: &StrategyProfile| *p) == all_profiles(refs_view(strategies@)),
    {
        let ghost ss = refs_view(strategies@);
        let mut out: Vec<&'a StrategyProfile> = Vec::new();
        let mut i: usize = 0;
        proof {
            assert(out@.map_values(|p: &StrategyProfile| *p) =~= all_profiles(ss.take(0)));
        }
        while i < strategies.len()
            invariant
                ss == refs_view(strategies@),
                i <= strategies@.len(),
                out@.map_values(|p: &StrategyProfile| *p) == all_profiles(ss.take(i as int)),
            decreases strategies@.len() - i,
        {
            let s = strategies[i];
            proof {
                assert(ss.take(i as int + 1).drop_last() =~= ss.take(i as int));
                assert(ss.take(i as int + 1).last() == s@);
            }
            let ghost base = all_profiles(ss.take(i as int));
            let mut j: usize = 0;
            proof {
                assert(base + s.profiles@.take(0) =~= base);
            }
            while j < s.profiles.len()
                invariant
                    i < strategies@.len(),
                    s == strategies@[i as int],
                    j <= s.profiles@.len(),
                    out@.map_values(|p: &StrategyProfile| *p) == base + s.profiles@.take(j as int),
                decreases s.profiles@.len() - j,
            {
                let ghost before = out@;
                out.push(&s.profiles[j]);
                proof {
                    assert(out@.map_values(|p: &StrategyProfile| *p) =~= before.map_values(
                        |p: &StrategyProfile| *p,
                    ).push(s.profiles@[j as int]));
                    assert(s.profiles@.take(j as int + 1) =~= s.profiles@.take(j as int).push(
                        s.profiles@[j as int],
                    ));
                    assert(base + s.profiles@.take(j as int + 1) =~= (base + s.profiles@.take(
                        j as int,
                    )).push(s.profiles@[j as int]));
                }
                j = j + 1;
            }
            proof {
                assert(s.profiles@.take(j as int) =~= s.profiles@);
            }
            i = i + 1;
        }
        proof {
            assert(ss.take(i as int) =~= ss);
        }
        out
    }

    /// The combined command line for the given strategies and merged port
    /// filters (see [`combined_args`]); this always succeeds.
    pub fn generate_combined_args(&self, strategies: &[&JsonStrategy], tcp_ports: &str, udp_ports: &str)
        -> (r: Result<Vec<String>, IsolateError>)
        ensures
            r matches Ok(v) && strings_view(v@) == combined_args(
                refs_view(strategies@),
                tcp_ports@,
                udp_ports@,
                self@.hostlists,
                self@.blobs,
            ),
    {
        let mut args: Vec<String> = Vec::new();
        proof {
            assert(strings_view(args@) =~= Seq::<Seq<char>>::empty());
        }
        let tcp = owned(tcp_ports);
        let udp = owned(udp_ports);
        if chars_of(tcp_ports).len() > 0 {
            push_always(&mut args, "--wf-tcp", &tcp);
        }
        proof {
            assert(strings_view(args@) =~= nonempty_seg("--wf-tcp"@, tcp_ports@));
        }
        let ghost mid = strings_view(args@);
        if chars_of(udp_ports).len() > 0 {
            push_always(&mut args, "--wf-udp", &udp);
        }
        proof {
            assert(strings_view(args@) =~= mid + nonempty_seg("--wf-udp"@, udp_ports@));
            assert(strings_view(args@) =~= nonempty_seg("--wf-tcp"@, tcp_ports@) + nonempty_seg(
                "--wf-udp"@,
                udp_ports@,
            ));
        }
        let ghost base = strings_view(args@);
        let ghost ss = refs_view(strategies@);
        let ghost h = self@.hostlists;
        let ghost b = self@.blobs;
        let mut first = true;
        let mut i: usize = 0;
        proof {
            assert(all_profiles(ss.take(0)) =~= Seq::<StrategyProfile>::empty());
            assert(base + combo_profiles_args(Seq::<StrategyProfile>::empty(), h, b) =~= base);
        }
        while i < strategies.len()
            invariant
                ss == refs_view(strategies@),
                h == self@.hostlists,
                b == self@.blobs,
                i <= strategies@.len(),
                first == (all_profiles(ss.take(i as int)).len() == 0),
                strings_view(args@) == base + combo_profiles_args(all_profiles(ss.take(i as int)), h, b),
            decreases strategies@.len() - i,
        {
            let s = strategies[i];
            proof {
                assert(ss.take(i as int + 1).drop_last() =~= ss.take(i as int));
                assert(ss.take(i as int + 1).last() == s@);
            }
            let ghost done = all_profiles(ss.take(i as int));
            let mut j: usize = 0;
            proof {
                assert(done + s.profiles@.take(0) =~= done);
            }
            while j < s.profiles.len()
                invariant
                    h == self@.hostlists,
                    b == self@.blobs,
                    i < strategies@.len(),
                    s == strategies@[i as int],
                    j <= s.profiles@.len(),
                    first == ((done + s.profiles@.take(j as int)).len() == 0),
                    strings_view(args@) == base + combo_profiles_args(done + s.profiles@.take(j as int), h, b),
                decreases s.profiles@.len() - j,
            {
                let ghost prev = done + s.profiles@.take(j as int);
                let ghost next = done + s.profiles@.take(j as int + 1);
                let ghost before = strings_view(args@);
                proof {
                    assert(next =~= prev.push(s.profiles@[j as int]));
                    assert(next.drop_last() =~= prev);
                    assert(next.last() == s.profiles@[j as int]);
                    if prev.len() == 0 {
                        assert(next[0] == s.profiles@[j as int]);
                    }
                }
                if !first {
                    args.push(owned("--new"));
                }
                first = false;
                let _ = self.add_profile_args(&mut args, &s.profiles[j]);
                proof {
                    let pa = combo_profile_args(s.profiles@[j as int], h, b);
                    if prev.len() > 0 {
                        assert(strings_view(args@) =~= before + seq!["--new"@] + pa);
                    } else {
                        assert(strings_view(args@) =~= before + pa);
                    }
                }
                j = j + 1;
            }
            proof {
                assert(s.profiles@.take(j as int) =~= s.profiles@);
            }
            i = i + 1;
        }
        proof {
            assert(ss.take(i as int) =~= ss);
        }
        Ok(args)
    }

    /// The name of a combination (see [`combined_name`]).
    pub fn generate_name(&self, active_categories: &[String]) -> (r: String)
        ensures
            r@ == combined_name(strings_view(active_categories@)),
    {
        if active_categories.len() == 1 {
            let c = chars_of(active_categories[0].as_str());
            let suffix = chars_of(" Strategy");
            let empty: Vec<char> = Vec::new();
            concat3(&c, &suffix, &empty)
        } else {
            let joined = join_strings(active_categories, " + ");
            let prefix = chars_of("Combined: ");
            let jc = chars_of(joined.as_str());
            let empty: Vec<char> = Vec::new();
            concat3(&prefix, &jc, &empty)
        }
    }

    /// The description of a combination (see [`combined_description`]).
    pub fn generate_description(&self, active_categories: &[String]) -> (r: String)
        ensures
            r@ == combined_description(strings_view(active_categories@)),
    {
        let n = active_categories.len();
        if n == 0 {
            owned("No categories selected")
        } else if n == 1 {
            let prefix = chars_of("DPI bypass for ");
            let c = chars_of(active_categories[0].as_str());
            let empty: Vec<char> = Vec::new();
            concat3(&prefix, &c, &empty)
        } else {
            let rest = join_strings(&active_categories[0..n - 1], ", ");
            let prefix = chars_of("Combined DPI bypass for ");
            let rc = chars_of(rest.as_str());
            let mut head = chars_of(" and ");
            let last = chars_of(active_categories[n - 1].as_str());
            crate::text::extend_chars(&mut head, &last);
            proof {
                assert(active_categories@.subrange(0, n - 1).map_values(|s: String| s@)
                    =~= strings_view(active_categories@).drop_last());
            }
            concat3(&prefix, &rc, &head)
        }
    }

    fn pick<'a>(
        &'a self,
        label: &str,
        id: &Option<String>,
        labels: &mut Vec<String>,
        strats: &mut Vec<&'a JsonStrategy>,
        prev: Ghost<Seq<(Seq<char>, Seq<char>)>>,
    )
        requires
            strings_view(old(labels)@) == found_labels(found(self@.strategies, prev@)),
            refs_view(old(strats)@) == found_strategies(found(self@.strategies, prev@)),
        ensures
            strings_view(final(labels)@) == found_labels(
                found(self@.strategies, prev@ + slot(label@, *id)),
            ),
            refs_view(final(strats)@) == found_strategies(
                found(self@.strategies, prev@ + slot(label@, *id)),
            ),
    {
        let ghost f0 = found(self@.strategies, prev@);
        match id {
            Some(x) => {
                let ghost picks = prev@ + slot(label@, *id);
                proof {
                    assert(picks =~= prev@.push((label@, x@)));
                    assert(picks.drop_last() =~= prev@);
                }
                match self.find_strategy(x.as_str()) {
                    Some(st) => {
                        let ghost l0 = labels@;
                        let ghost s0 = strats@;
                        labels.push(owned(label));
                        strats.push(st);
                        proof {
                            assert(found(self@.strategies, picks) == f0.push((label@, st@)));
                            assert(strings_view(labels@) =~= strings_view(l0).push(label@));
                            assert(refs_view(strats@) =~= refs_view(s0).push(st@));
                            assert(found_labels(f0.push((label@, st@))) =~= found_labels(f0).push(label@));
                            assert(found_strategies(f0.push((label@, st@))) =~= found_strategies(f0).push(
                                st@,
                            ));
                        }
                    },
                    None => {
                        proof {
                            assert(found(self@.strategies, picks) == f0);
                        }
                    },
                }
            },
            None => {
                proof {
                    assert(prev@ + slot(label@, *id) =~= prev@);
                }
            },
        }
    }

    /// Combines the selected strategies into one configuration.
    ///
    /// Fails when nothing is selected, and when none of the selected ids
    /// names an available strategy; ids without a strategy are skipped.
    pub fn combine(&self, selection: &StrategySelection) -> (r: Result<CombinedStrategy, IsolateError>)
        ensures
            selected(*selection).len() == 0 ==> (r matches Err(e) && e@ == (
                ErrorKind::Validation,
                "No strategies selected"@,
            )),
            selected(*selection).len() > 0 && found(self@.strategies, selected(*selection)).len() == 0
                ==> (r matches Err(e) && e@ == (
                ErrorKind::NotFound,
                "None of the selected strategies were found"@,
            )),
            found(self@.strategies, selected(*selection)).len() > 0 ==> (r matches Ok(c)
                && is_combination(c, self@, found(self@.strategies, selected(*selection)))),
    {
        if selection.is_empty() {
            proof {
                assert(found(self@.strategies, selected(*selection)) =~= Seq::<
                    (Seq<char>, JsonStrategyView),
                >::empty());
            }
            return Err(IsolateError::Validation(owned("No strategies selected")));
        }
        let mut labels: Vec<String> = Vec::new();
        let mut strats: Vec<&JsonStrategy> = Vec::new();
        let ghost e = Seq::<(Seq<char>, Seq<char>)>::empty();
        proof {
            assert(strings_view(labels@) =~= found_labels(found(self@.strategies, e)));
            assert(refs_view(strats@) =~= found_strategies(found(self@.strategies, e)));
        }
        let ghost p1 = e + slot("YouTube"@, selection.youtube);
        self.pick("YouTube", &selection.youtube, &mut labels, &mut strats, Ghost(e));
        let ghost p2 = p1 + slot("Discord"@, selection.discord);
        self.pick("Discord", &selection.discord, &mut labels, &mut strats, Ghost(p1));
        let ghost p3 = p2 + slot("Telegram"@, selection.telegram);
        self.pick("Telegram", &selection.telegram, &mut labels, &mut strats, Ghost(p2));
        let ghost p4 = p3 + slot("Games"@, selection.games);
        self.pick("Games", &selection.games, &mut labels, &mut strats, Ghost(p3));
        self.pick("Custom", &selection.custom, &mut labels, &mut strats, Ghost(p4));
        let ghost f = found(self@.strategies, selected(*selection));
        proof {
            assert(p4 + slot("Custom"@, selection.custom) =~= selected(*selection));
            assert(strings_view(labels@).len() == labels@.len());
        }
        if labels.len() == 0 {
            proof {
                assert(found_labels(f).len() == f.len());
            }
            return Err(IsolateError::NotFound(owned("None of the selected strategies were found")));
        }
        let (tcp_ports, udp_ports) = self.merge_ports(strats.as_slice());
        let args = match self.generate_combined_args(strats.as_slice(), tcp_ports.as_str(), udp_ports.as_str()) {
            Ok(a) => a,
            Err(e) => {
                return Err(e);
            },
        };
        let name = self.generate_name(labels.as_slice());
        let description = self.generate_description(labels.as_slice());
        let c = CombinedStrategy { name, description, args, tcp_ports, udp_ports, categories: labels };
        proof {
            assert(found_labels(f).len() == f.len());
        }
        Ok(c)
    }

    /// The merged TCP and UDP port filters of the given strategies: each
    /// entry once, sorted by [`port_before`], joined with commas.
    pub fn merge_ports(&self, strategies: &[&JsonStrategy]) -> (r: (String, String))
        ensures
            r.0@ == merged_ports(refs_view(strategies@), true),
            r.1@ == merged_ports(refs_view(strategies@), false),
    {
        let tcp = sort_port_list(collect_ports(strategies, true));
        let udp = sort_port_list(collect_ports(strategies, false));
        (join_strings(&tcp, ","), join_strings(&udp, ","))
    }
}

} // verus!
