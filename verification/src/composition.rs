//! Strategy composition: mapping services to strategies by direct mappings,
//! prioritised pattern rules and a default.
use vstd::prelude::*;
use crate::error::{ErrorKind, IsolateError};
use crate::text::{
    chars_eq, chars_of, concat3, contains, contains_sub, ends_with, find_first,
    find_from, has_char, has_prefix, has_suffix, lowercased, owned, split_chars, split_on,
    starts_with, str_eq, to_lowercase, trim, trim_chars,
};

verus! {

// ===========================================================================
// Pattern validation
// ===========================================================================

/// A character that is not a wildcard (`*`, `?`) or a dot.
pub open spec fn is_specific(c: char) -> bool {
    c != '*' && c != '?' && c != '.'
}

/// Number of specific characters.
pub open spec fn specific_count(s: Seq<char>) -> nat
    decreases s.len(),
{
    if s.len() == 0 {
        0
    } else {
        specific_count(s.drop_last()) + if is_specific(s.last()) {
            1nat
        } else {
            0nat
        }
    }
}

/// The patterns that are refused outright as too broad.
pub open spec fn is_forbidden(p: Seq<char>) -> bool {
    p == "*"@ || p == "**"@ || p == "*.*"@ || p == "?"@ || p == "??"@ || p == "???"@ || p == "*?"@
        || p == "?*"@
}

/// The validation message for a pattern, or `None` when it is acceptable.
pub open spec fn pattern_problem(pattern: Seq<char>) -> Option<Seq<char>> {
    let p = trim(pattern);
    if p.len() == 0 {
        Some("Pattern cannot be empty"@)
    } else if is_forbidden(p) {
        Some(
            "Pattern '"@ + p
                + "' is too broad. Use more specific patterns like '*.youtube.com' or 'discord'"@,
        )
    } else if specific_count(p) == 0 {
        Some(
            "Pattern '"@ + p
                + "' must contain at least one specific character (not just wildcards and dots)"@,
        )
    } else if specific_count(p) < 2 {
        Some("Pattern '"@ + p + "' is too broad. Include at least 2 specific characters"@)
    } else {
        None
    }
}

fn count_specific(s: &[char]) -> (n: usize)
    ensures
        n == specific_count(s@),
{
    let mut n: usize = 0;
    let mut i: usize = 0;
    while i < s.len()
        invariant
            i <= s@.len(),
            n == specific_count(s@.take(i as int)),
            n <= i,
        decreases s@.len() - i,
    {
        proof {
            assert(s@.take(i as int + 1).drop_last() =~= s@.take(i as int));
        }
        if s[i] != '*' && s[i] != '?' && s[i] != '.' {
            n = n + 1;
        }
        i = i + 1;
    }
    proof {
        assert(s@.take(i as int) =~= s@);
    }
    n
}

fn forbidden(p: &[char]) -> (r: bool)
    ensures
        r == is_forbidden(p@),
{
    chars_eq(p, &chars_of("*")) || chars_eq(p, &chars_of("**")) || chars_eq(p, &chars_of("*.*"))
        || chars_eq(p, &chars_of("?")) || chars_eq(p, &chars_of("??")) || chars_eq(
        p,
        &chars_of("???"),
    ) || chars_eq(p, &chars_of("*?")) || chars_eq(p, &chars_of("?*"))
}

/// Validates a service pattern, refusing overly broad ones: after trimming,
/// the pattern must be non-empty, not one of `*`, `**`, `*.*`, `?`, `??`,
/// `???`, `*?`, `?*`, and hold at least two characters other than `*`, `?`
/// and `.`.
pub fn validate_pattern(pattern: &str) -> (r: Result<(), IsolateError>)
    ensures
        match r {
            Ok(()) => pattern_problem(pattern@) is None,
            Err(e) => pattern_problem(pattern@) == Some(e@.1) && e is Validation,
        },
{
    let raw = chars_of(pattern);
    let p = trim_chars(&raw);
    if p.len() == 0 {
        return Err(IsolateError::Validation(owned("Pattern cannot be empty")));
    }
    if forbidden(&p) {
        return Err(
            IsolateError::Validation(
                concat3(
                    &chars_of("Pattern '"),
                    &p,
                    &chars_of(
                        "' is too broad. Use more specific patterns like '*.youtube.com' or 'discord'",
                    ),
                ),
            ),
        );
    }
    let n = count_specific(&p);
    if n == 0 {
        return Err(
            IsolateError::Validation(
                concat3(
                    &chars_of("Pattern '"),
                    &p,
                    &chars_of(
                        "' must contain at least one specific character (not just wildcards and dots)",
                    ),
                ),
            ),
        );
    }
    if n < 2 {
        return Err(
            IsolateError::Validation(
                concat3(
                    &chars_of("Pattern '"),
                    &p,
                    &chars_of("' is too broad. Include at least 2 specific characters"),
                ),
            ),
        );
    }
    Ok(())
}

// ===========================================================================
// Glob matching
// ===========================================================================

/// Matching of the middle pieces `parts[i..len-1]`, each searched for
/// leftmost from `pos` onwards (empty pieces are skipped): the position
/// reached after the last of them, or none when one is missing.
pub open spec fn glob_middle_end(parts: Seq<Seq<char>>, text: Seq<char>, pos: int, i: int) -> Option<int>
    decreases parts.len() - i,
{
    if i < 1 || i >= parts.len() - 1 {
        Some(pos)
    } else if parts[i].len() == 0 {
        glob_middle_end(parts, text, pos, i + 1)
    } else {
        match find_first(text, parts[i], pos) {
            Some(j) => glob_middle_end(parts, text, j + parts[i].len(), i + 1),
            None => None,
        }
    }
}

/// Glob matching with `*`: the piece before the first `*` must start the
/// text, the pieces between stars must occur in order after it (each
/// searched leftmost after the previous one), and the piece after the last
/// `*` must end the text, starting no earlier than where the other pieces
/// ended.
pub open spec fn glob_matches(pattern: Seq<char>, text: Seq<char>) -> bool {
    let parts = split_on(pattern, '*');
    let first_ok = parts[0].len() == 0 || has_prefix(text, parts[0]);
    let last_ok = parts.len() <= 1 || parts.last().len() == 0 || has_suffix(text, parts.last());
    &&& first_ok
    &&& last_ok
    &&& match glob_middle_end(parts, text, parts[0].len() as int, 1) {
        Some(p) => parts.len() <= 1 || p + parts.last().len() <= text.len(),
        None => false,
    }
}

fn glob_match(pattern: &[char], text: &[char]) -> (r: bool)
    requires
        pattern@.contains('*'),
    ensures
        r == glob_matches(pattern@, text@),
{
    let parts = split_chars(pattern, '*');
    let ghost model = split_on(pattern@, '*');
    proof {
        crate::text::lemma_split_two(pattern@, '*');
        assert(parts@[0]@ == model[0]);
        assert(parts@[parts@.len() - 1]@ == model.last());
    }
    let mut pos: usize = 0;
    if parts[0].len() > 0 {
        if !starts_with(text, &parts[0]) {
            return false;
        }
        pos = parts[0].len();
    }
    let mut i: usize = 1;
    while i < parts.len() - 1
        invariant
            model == split_on(pattern@, '*'),
            text@.len() == text.len(),
            parts@.len() == model.len(),
            model.len() >= 2,
            forall|j: int| 0 <= j < parts@.len() ==> #[trigger] parts@[j]@ == model[j],
            1 <= i <= parts@.len() - 1,
            pos <= text@.len(),
            glob_middle_end(model, text@, model[0].len() as int, 1) == glob_middle_end(
                model,
                text@,
                pos as int,
                i as int,
            ),
        decreases parts@.len() - i,
    {
        if parts[i].len() > 0 {
            match find_from(text, &parts[i], pos) {
                Some(f) => {
                    proof {
                        assert(crate::text::occurs_at(text@, parts@[i as int]@, f as int));
                    }
                    pos = f + parts[i].len();
                },
                None => {
                    return false;
                },
            }
        }
        i = i + 1;
    }
    let last = &parts[parts.len() - 1];
    if last.len() > 0 && !ends_with(text, last) {
        return false;
    }
    last.len() <= text.len() - pos
}

proof fn lemma_find_first_found(s: Seq<char>, p: Seq<char>, from: int, j: int)
    requires
        find_first(s, p, from) == Some(j),
    ensures
        from <= j,
        crate::text::occurs_at(s, p, j),
    decreases s.len() + 1 - from,
{
    if from < 0 || from + p.len() > s.len() {
    } else if crate::text::occurs_at(s, p, from) {
    } else {
        lemma_find_first_found(s, p, from + 1, j);
    }
}

/// Where the middle pieces `parts[i..len-1]` were found, starting at `pos`.
proof fn lemma_middle_positions(parts: Seq<Seq<char>>, text: Seq<char>, pos: int, i: int) -> (at: Seq<int>)
    requires
        1 <= i <= parts.len() - 1,
        0 <= pos <= text.len(),
        glob_middle_end(parts, text, pos, i) is Some,
    ensures
        at.len() == parts.len() - 1 - i,
        forall|k: int| 0 <= k < at.len() ==> crate::text::occurs_at(text, parts[i + k], #[trigger] at[k]),
        at.len() > 0 ==> pos <= at[0],
        forall|k: int| 0 <= k < at.len() - 1 ==> #[trigger] at[k] + parts[i + k].len() <= at[k + 1],
        at.len() > 0 ==> at.last() + parts[parts.len() - 2].len() <= glob_middle_end(parts, text, pos, i)->0,
        pos <= glob_middle_end(parts, text, pos, i)->0 <= text.len(),
    decreases parts.len() - i,
{
    if i >= parts.len() - 1 {
        Seq::empty()
    } else {
        let next = if parts[i].len() == 0 {
            pos
        } else {
            let j = find_first(text, parts[i], pos)->0;
            lemma_find_first_found(text, parts[i], pos, j);
            j
        };
        let rest = lemma_middle_positions(parts, text, next + parts[i].len(), i + 1);
        let at = seq![next] + rest;
        assert(crate::text::occurs_at(text, parts[i], next)) by {
            if parts[i].len() == 0 {
                assert(text.subrange(pos, pos) =~= parts[i]);
            }
        }
        assert forall|k: int| 0 <= k < at.len() implies crate::text::occurs_at(text, parts[i + k], #[trigger] at[k]) by {
            if k > 0 {
                assert(at[k] == rest[k - 1]);
                assert(i + k == (i + 1) + (k - 1));
            }
        }
        assert forall|k: int| 0 <= k < at.len() - 1 implies #[trigger] at[k] + parts[i + k].len() <= at[k + 1] by {
            if k > 0 {
                assert(at[k] == rest[k - 1]);
                assert(at[k + 1] == rest[k]);
                assert(i + k == (i + 1) + (k - 1));
            }
        }
        if rest.len() > 0 {
            assert(at.last() == rest.last());
        }
        at
    }
}

/// When a glob pattern matches a text, its pieces (the text between the
/// `*`s) can be placed in the text in order and without overlap: the first
/// piece at the start, the last at the end, and each piece between stars
/// found after the one before it. The returned positions are such a
/// placement, so a pattern `*X*` only matches texts that contain `X`.
pub proof fn lemma_glob_match_places_pieces(pattern: Seq<char>, text: Seq<char>) -> (at: Seq<int>)
    requires
        glob_matches(pattern, text),
    ensures
        at.len() == split_on(pattern, '*').len(),
        at[0] == 0,
        forall|k: int|
            0 <= k < at.len() ==> crate::text::occurs_at(text, split_on(pattern, '*')[k], #[trigger] at[k]),
        forall|k: int|
            0 <= k < at.len() - 1 ==> #[trigger] at[k] + split_on(pattern, '*')[k].len() <= at[k + 1],
        at.len() >= 2 ==> at.last() + split_on(pattern, '*').last().len() == text.len(),
{
    let parts = split_on(pattern, '*');
    crate::text::lemma_split_nonempty(pattern, '*');
    let p0 = parts[0];
    assert(crate::text::occurs_at(text, p0, 0)) by {
        if p0.len() == 0 {
            assert(text.subrange(0, 0) =~= p0);
        }
    }
    if parts.len() == 1 {
        let at = seq![0int];
        at
    } else {
        let mid = lemma_middle_positions(parts, text, p0.len() as int, 1);
        let e = glob_middle_end(parts, text, p0.len() as int, 1)->0;
        let last = parts.last();
        let lp = text.len() - last.len();
        assert(crate::text::occurs_at(text, last, lp)) by {
            if last.len() == 0 {
                assert(text.subrange(lp, lp) =~= last);
            }
        }
        let at = seq![0int] + mid + seq![lp];
        assert(at.len() == parts.len());
        assert forall|k: int| 0 <= k < at.len() implies crate::text::occurs_at(text, parts[k], #[trigger] at[k]) by {
            if 0 < k < at.len() - 1 {
                assert(at[k] == mid[k - 1]);
                assert(k == 1 + (k - 1));
            }
        }
        assert forall|k: int| 0 <= k < at.len() - 1 implies #[trigger] at[k] + parts[k].len() <= at[k + 1] by {
            if k == 0 {
                if mid.len() > 0 {
                    assert(at[1] == mid[0]);
                }
            } else if k < at.len() - 2 {
                assert(at[k] == mid[k - 1]);
                assert(at[k + 1] == mid[k]);
                assert(k == 1 + (k - 1));
            } else {
                assert(at[k] == mid.last());
                assert(k == parts.len() - 2);
            }
        }
        at
    }
}

proof fn lemma_find_first_complete(s: Seq<char>, p: Seq<char>, from: int, i: int)
    requires
        0 <= from <= i,
        crate::text::occurs_at(s, p, i),
    ensures
        find_first(s, p, from) is Some,
    decreases i - from,
{
    if !crate::text::occurs_at(s, p, from) {
        lemma_find_first_complete(s, p, from + 1, i);
    }
}

/// The pieces of `*X*`, `X*` and `*X` for a piece `X` without stars.
proof fn lemma_star_pieces(x: Seq<char>)
    requires
        !x.contains('*'),
    ensures
        split_on(seq!['*'] + x + seq!['*'], '*') == seq![Seq::<char>::empty(), x, Seq::<char>::empty()],
        split_on(x + seq!['*'], '*') == seq![x, Seq::<char>::empty()],
        split_on(seq!['*'] + x, '*') == seq![Seq::<char>::empty(), x],
{
    let e = Seq::<char>::empty();
    crate::text::lemma_split_append_sep(e, '*');
    assert(e.push('*') =~= seq!['*']);
    assert(split_on(e, '*') == seq![e]);
    assert(split_on(seq!['*'], '*') =~= seq![e, e]);
    crate::text::lemma_split_append_plain(seq!['*'], x, '*');
    assert(e + x =~= x);
    assert(split_on(seq!['*'] + x, '*') =~= seq![e, x]);
    crate::text::lemma_split_append_sep(seq!['*'] + x, '*');
    assert((seq!['*'] + x).push('*') =~= seq!['*'] + x + seq!['*']);
    assert(split_on(seq!['*'] + x + seq!['*'], '*') =~= seq![e, x, e]);
    crate::text::lemma_split_append_plain(e, x, '*');
    assert(split_on(x, '*') =~= seq![x]);
    crate::text::lemma_split_append_sep(x, '*');
    assert(x.push('*') =~= x + seq!['*']);
    assert(split_on(x + seq!['*'], '*') =~= seq![x, e]);
}

/// The common shapes of a glob pattern, for a piece `X` without stars:
/// `*X*` matches exactly the texts that contain `X`, `X*` exactly those
/// that start with `X`, and `*X` exactly those that end with `X`.
pub proof fn lemma_glob_shapes(x: Seq<char>, text: Seq<char>)
    requires
        !x.contains('*'),
    ensures
        glob_matches(seq!['*'] + x + seq!['*'], text) == contains_sub(text, x),
        glob_matches(x + seq!['*'], text) == has_prefix(text, x),
        glob_matches(seq!['*'] + x, text) == has_suffix(text, x),
{
    lemma_star_pieces(x);
    let e = Seq::<char>::empty();
    assert(has_prefix(text, e)) by {
        assert(text.subrange(0, 0) =~= e);
    }
    // `*X*`
    let p3 = seq![e, x, e];
    if x.len() == 0 {
        assert(crate::text::occurs_at(text, x, 0)) by {
            assert(text.subrange(0, 0) =~= x);
        }
        assert(glob_middle_end(p3, text, 0, 2) == Some(0int));
    } else {
        if contains_sub(text, x) {
            let i = choose|i: int| crate::text::occurs_at(text, x, i);
            lemma_find_first_complete(text, x, 0, i);
        }
        match find_first(text, x, 0) {
            Some(j) => {
                lemma_find_first_found(text, x, 0, j);
                assert(glob_middle_end(p3, text, j + x.len(), 2) == Some(j + x.len()));
            },
            None => {},
        }
    }
    // `X*`
    let p1 = seq![x, e];
    assert(glob_middle_end(p1, text, x.len() as int, 1) == Some(x.len() as int));
    // `*X`
    let p2 = seq![e, x];
    assert(glob_middle_end(p2, text, 0, 1) == Some(0int));
    if x.len() == 0 {
        assert(text.subrange(text.len() as int, text.len() as int) =~= x);
    }
}

/// A rule whose pattern holds a `*` applies to a service only when every
/// piece of the lowercased pattern between its `*`s occurs in the
/// lowercased service.
pub proof fn lemma_wildcard_rule_needs_its_pieces(r: CompositionRule, service: Seq<char>, k: int)
    requires
        rule_matches(r, service),
        lowercased(r.service_pattern@).contains('*'),
        0 <= k < split_on(lowercased(r.service_pattern@), '*').len(),
    ensures
        contains_sub(lowercased(service), split_on(lowercased(r.service_pattern@), '*')[k]),
{
    let p = lowercased(r.service_pattern@);
    let s = lowercased(service);
    if p == s {
        assert(split_on(p, '*')[k] =~= split_on(p, '*')[k]);
        crate::text::lemma_split_pieces_occur(p, '*', k);
    } else {
        let at = lemma_glob_match_places_pieces(p, s);
        assert(crate::text::occurs_at(s, split_on(p, '*')[k], at[k]));
    }
}

// ===========================================================================
// Rules
// ===========================================================================

/// Rule mapping a service pattern to a strategy.
pub struct CompositionRule {
    /// Service pattern (`"youtube"`, `"discord"`, `"*.google.com"`).
    pub service_pattern: String,
    /// Strategy to use for matching services.
    pub strategy_id: String,
    /// Priority; higher is checked first.
    pub priority: u32,
    /// Whether the rule is enabled.
    pub enabled: bool,
    /// Optional description.
    pub description: Option<String>,
}

/// The default rule priority.
pub open spec fn default_priority() -> u32 {
    50
}

/// Whether a rule applies to a service: the rule is enabled and, compared
/// in lowercase, the pattern equals the service, or glob-matches it when it
/// holds a `*`, or otherwise occurs in it.
pub open spec fn rule_matches(r: CompositionRule, service: Seq<char>) -> bool {
    let p = lowercased(r.service_pattern@);
    let s = lowercased(service);
    r.enabled && (p == s || if p.contains('*') {
        glob_matches(p, s)
    } else {
        contains_sub(s, p)
    })
}

impl CompositionRule {
    /// A new enabled rule with the default priority and no description.
    pub fn new(service_pattern: &str, strategy_id: &str) -> (r: Self)
        ensures
            r.service_pattern@ == service_pattern@,
            r.strategy_id@ == strategy_id@,
            r.priority == default_priority(),
            r.enabled,
            r.description is None,
    {
        CompositionRule {
            service_pattern: owned(service_pattern),
            strategy_id: owned(strategy_id),
            priority: 50,
            enabled: true,
            description: None,
        }
    }

    /// The same rule with another priority.
    pub fn with_priority(self, priority: u32) -> (r: Self)
        ensures
            r == (CompositionRule { priority, ..self }),
    {
        CompositionRule { priority, ..self }
    }

    /// The same rule, enabled or disabled.
    pub fn with_enabled(self, enabled: bool) -> (r: Self)
        ensures
            r == (CompositionRule { enabled, ..self }),
    {
        CompositionRule { enabled, ..self }
    }

    /// The same rule with a description.
    pub fn with_description(self, description: &str) -> (r: Self)
        ensures
            r.description matches Some(d) && d@ == description@,
            r.service_pattern == self.service_pattern,
            r.strategy_id == self.strategy_id,
            r.priority == self.priority,
            r.enabled == self.enabled,
    {
        CompositionRule { description: Some(owned(description)), ..self }
    }

    /// Whether a service matches this rule (see [`rule_matches`]).
    pub fn matches(&self, service_id: &str) -> (r: bool)
        ensures
            r == rule_matches(*self, service_id@),
    {
        if !self.enabled {
            return false;
        }
        let ps = to_lowercase(self.service_pattern.as_str());
        let ss = to_lowercase(service_id);
        let p = chars_of(ps.as_str());
        let s = chars_of(ss.as_str());
        if chars_eq(&p, &s) {
            return true;
        }
        if has_char(&p, '*') {
            return glob_match(&p, &s);
        }
        contains(&s, &p)
    }
}


// ===========================================================================
// Composite strategies
// ===========================================================================

/// Keeps the first occurrence of each element, in order.
pub open spec fn distinct<A>(s: Seq<A>) -> Seq<A>
    decreases s.len(),
{
    if s.len() == 0 {
        Seq::empty()
    } else {
        let d = distinct(s.drop_last());
        if d.contains(s.last()) {
            d
        } else {
            d.push(s.last())
        }
    }
}

/// Mapping entries as character sequences.
pub open spec fn pairs_view(m: Seq<(String, String)>) -> Seq<(Seq<char>, Seq<char>)> {
    m.map_values(|p: (String, String)| (p.0@, p.1@))
}

/// Value of the first entry at or after `i` whose key is `k`.
pub open spec fn lookup_from(m: Seq<(Seq<char>, Seq<char>)>, k: Seq<char>, i: int) -> Option<Seq<char>>
    decreases m.len() - i,
{
    if i < 0 || i >= m.len() {
        None
    } else if m[i].0 == k {
        Some(m[i].1)
    } else {
        lookup_from(m, k, i + 1)
    }
}

/// Value of the first entry whose key is `k`.
pub open spec fn lookup(m: Seq<(Seq<char>, Seq<char>)>, k: Seq<char>) -> Option<Seq<char>> {
    lookup_from(m, k, 0)
}

/// Index of the first rule at or after `i` that matches the service.
pub open spec fn first_rule_from(rules: Seq<CompositionRule>, service: Seq<char>, i: int) -> Option<int>
    decreases rules.len() - i,
{
    if i < 0 || i >= rules.len() {
        None
    } else if rule_matches(rules[i], service) {
        Some(i)
    } else {
        first_rule_from(rules, service, i + 1)
    }
}

/// Inserts a rule after every rule of higher or equal priority at the end
/// of a list: one step of a stable sort in descending priority.
pub open spec fn insert_by_priority(s: Seq<CompositionRule>, x: CompositionRule) -> Seq<CompositionRule>
    decreases s.len(),
{
    if s.len() == 0 {
        seq![x]
    } else if s.last().priority >= x.priority {
        s.push(x)
    } else {
        insert_by_priority(s.drop_last(), x).push(s.last())
    }
}

/// Stable sort by descending priority.
pub open spec fn sort_by_priority(s: Seq<CompositionRule>) -> Seq<CompositionRule>
    decreases s.len(),
{
    if s.len() == 0 {
        Seq::empty()
    } else {
        insert_by_priority(sort_by_priority(s.drop_last()), s.last())
    }
}

/// Priorities never increase along the list.
pub open spec fn priorities_descending(s: Seq<CompositionRule>) -> bool {
    forall|i: int, j: int| 0 <= i < j < s.len() ==> s[i].priority >= s[j].priority
}

proof fn lemma_insert_sorted(s: Seq<CompositionRule>, x: CompositionRule)
    requires
        priorities_descending(s),
    ensures
        priorities_descending(insert_by_priority(s, x)),
        insert_by_priority(s, x).to_multiset() == s.to_multiset().insert(x),
        insert_by_priority(s, x).len() == s.len() + 1,
    decreases s.len(),
{
    broadcast use vstd::multiset::group_multiset_axioms;
    broadcast use vstd::seq_lib::group_to_multiset_ensures;

    if s.len() == 0 {
        assert(seq![x] =~= Seq::<CompositionRule>::empty().push(x));
    } else if s.last().priority >= x.priority {
        let r = s.push(x);
        assert forall|i: int, j: int| 0 <= i < j < r.len() implies r[i].priority >= r[j].priority by {
            if j == r.len() - 1 && i < s.len() - 1 {
                assert(s[i].priority >= s[s.len() - 1].priority);
            }
        }
    } else {
        let t = s.drop_last();
        assert(priorities_descending(t));
        lemma_insert_sorted(t, x);
        let it = insert_by_priority(t, x);
        let r = it.push(s.last());
        assert forall|i: int, j: int| 0 <= i < j < r.len() implies r[i].priority >= r[j].priority by {
            if j == r.len() - 1 {
                if i < it.len() {
                    // every element of `it` is either x or an element of t
                    assert(it.to_multiset().count(it[i]) > 0);
                    assert(t.to_multiset().insert(x).count(it[i]) > 0);
                    if it[i] != x {
                        assert(t.to_multiset().count(it[i]) > 0);
                        assert(t.contains(it[i]));
                        let k = choose|k: int| 0 <= k < t.len() && t[k] == it[i];
                        assert(s[k].priority >= s[s.len() - 1].priority);
                    }
                }
            }
        }
        assert(s =~= t.push(s.last()));
    }
}

/// The stable sort gives a list in descending priority with the same rules.
pub proof fn lemma_sort_by_priority(s: Seq<CompositionRule>)
    ensures
        priorities_descending(sort_by_priority(s)),
        sort_by_priority(s).to_multiset() == s.to_multiset(),
        sort_by_priority(s).len() == s.len(),
    decreases s.len(),
{
    broadcast use vstd::multiset::group_multiset_axioms;
    broadcast use vstd::seq_lib::group_to_multiset_ensures;

    if s.len() > 0 {
        lemma_sort_by_priority(s.drop_last());
        lemma_insert_sorted(sort_by_priority(s.drop_last()), s.last());
        assert(s =~= s.drop_last().push(s.last()));
    } else {
        assert(sort_by_priority(s) =~= Seq::<CompositionRule>::empty());
    }
}

/// The rules of priority `p`, in their order.
pub open spec fn of_priority(s: Seq<CompositionRule>, p: u32) -> Seq<CompositionRule> {
    s.filter(|r: CompositionRule| r.priority == p)
}

proof fn lemma_insert_stable(t: Seq<CompositionRule>, x: CompositionRule, p: u32)
    ensures
        of_priority(insert_by_priority(t, x), p) == if x.priority == p {
            of_priority(t, p).push(x)
        } else {
            of_priority(t, p)
        },
    decreases t.len(),
{
    let pred = |r: CompositionRule| r.priority == p;
    if t.len() == 0 {
        reveal(Seq::filter);
        assert(seq![x] =~= t.push(x));
        t.lemma_filter_push(x, pred);
    } else if t.last().priority >= x.priority {
        t.lemma_filter_push(x, pred);
    } else {
        let d = t.drop_last();
        lemma_insert_stable(d, x, p);
        insert_by_priority(d, x).lemma_filter_push(t.last(), pred);
        assert(t =~= d.push(t.last()));
        d.lemma_filter_push(t.last(), pred);
    }
}

/// The sort is stable: for every priority, the rules of that priority
/// keep the order they had.
pub proof fn lemma_sort_is_stable(s: Seq<CompositionRule>, p: u32)
    ensures
        of_priority(sort_by_priority(s), p) == of_priority(s, p),
    decreases s.len(),
{
    if s.len() == 0 {
        reveal(Seq::filter);
        assert(sort_by_priority(s) =~= s);
    } else {
        let d = s.drop_last();
        lemma_sort_is_stable(d, p);
        lemma_insert_stable(sort_by_priority(d), s.last(), p);
        assert(s =~= d.push(s.last()));
        d.lemma_filter_push(s.last(), |r: CompositionRule| r.priority == p);
    }
}

/// Strategy ids of the enabled rules, in order.
pub open spec fn enabled_rule_ids(rules: Seq<CompositionRule>) -> Seq<Seq<char>>
    decreases rules.len(),
{
    if rules.len() == 0 {
        Seq::empty()
    } else if rules.last().enabled {
        enabled_rule_ids(rules.drop_last()).push(rules.last().strategy_id@)
    } else {
        enabled_rule_ids(rules.drop_last())
    }
}

pub open spec fn opt_view(o: Option<String>) -> Seq<Seq<char>> {
    match o {
        Some(s) => seq![s@],
        None => Seq::empty(),
    }
}

/// A strategy-id choice given back as a borrowed string.
pub open spec fn opt_str_view(o: Option<&str>) -> Option<Seq<char>> {
    match o {
        Some(s) => Some(s@),
        None => None,
    }
}

pub open spec fn strs_view(v: Seq<&str>) -> Seq<Seq<char>> {
    v.map_values(|s: &str| s@)
}

/// Composite strategy: direct mappings, prioritised rules and a default.
pub struct CompositeStrategy {
    /// Unique identifier.
    pub id: String,
    /// Human-readable name.
    pub name: String,
    /// Description.
    pub description: String,
    /// Direct service-to-strategy mappings; a later mapping of the same
    /// service replaces the earlier one in place.
    pub service_mappings: Vec<(String, String)>,
    /// Rules, kept in descending priority.
    pub rules: Vec<CompositionRule>,
    /// Strategy used when nothing else matches.
    pub default_strategy: Option<String>,
    /// Whether the composition is active.
    pub enabled: bool,
}

/// Model of a [`CompositeStrategy`]: its vectors seen as sequences.
pub struct CompositeModel {
    pub id: String,
    pub name: String,
    pub description: String,
    pub service_mappings: Seq<(String, String)>,
    pub rules: Seq<CompositionRule>,
    pub default_strategy: Option<String>,
    pub enabled: bool,
}

impl View for CompositeStrategy {
    type V = CompositeModel;

    open spec fn view(&self) -> CompositeModel {
        CompositeModel {
            id: self.id,
            name: self.name,
            description: self.description,
            service_mappings: self.service_mappings@,
            rules: self.rules@,
            default_strategy: self.default_strategy,
            enabled: self.enabled,
        }
    }
}

/// The strategy a composition chooses for a service: a direct mapping
/// first, then the first matching rule, then the default.
pub open spec fn strategy_for(c: CompositeModel, service: Seq<char>) -> Option<Seq<char>> {
    match lookup(pairs_view(c.service_mappings), service) {
        Some(v) => Some(v),
        None => match first_rule_from(c.rules, service, 0) {
            Some(i) => Some(c.rules[i].strategy_id@),
            None => match c.default_strategy {
                Some(d) => Some(d@),
                None => None,
            },
        },
    }
}

/// The strategies a composition refers to, each once: mapping targets,
/// then enabled rules' strategies, then the default.
pub open spec fn used_strategies(c: CompositeModel) -> Seq<Seq<char>> {
    distinct(
        pairs_view(c.service_mappings).map_values(|p: (Seq<char>, Seq<char>)| p.1)
            + enabled_rule_ids(c.rules) + opt_view(c.default_strategy),
    )
}

impl Clone for CompositionRule {
    fn clone(&self) -> (r: Self)
        ensures
            r == *self,
    {
        CompositionRule {
            service_pattern: self.service_pattern.clone(),
            strategy_id: self.strategy_id.clone(),
            priority: self.priority,
            enabled: self.enabled,
            description: match &self.description {
                Some(d) => Some(d.clone()),
                None => None,
            },
        }
    }
}

impl Clone for CompositeStrategy {
    fn clone(&self) -> (r: Self)
        ensures
            r@ == self@,
    {
        let mut maps: Vec<(String, String)> = Vec::new();
        let mut i: usize = 0;
        while i < self.service_mappings.len()
            invariant
                i <= self.service_mappings@.len(),
                maps@ == self.service_mappings@.take(i as int),
            decreases self.service_mappings@.len() - i,
        {
            let e = (self.service_mappings[i].0.clone(), self.service_mappings[i].1.clone());
            maps.push(e);
            proof {
                assert(self.service_mappings@.take(i as int + 1) =~= self.service_mappings@.take(
                    i as int,
                ).push(self.service_mappings@[i as int]));
            }
            i = i + 1;
        }
        let mut rules: Vec<CompositionRule> = Vec::new();
        let mut j: usize = 0;
        while j < self.rules.len()
            invariant
                j <= self.rules@.len(),
                rules@ == self.rules@.take(j as int),
            decreases self.rules@.len() - j,
        {
            rules.push(self.rules[j].clone());
            proof {
                assert(self.rules@.take(j as int + 1) =~= self.rules@.take(j as int).push(
                    self.rules@[j as int],
                ));
            }
            j = j + 1;
        }
        proof {
            assert(self.service_mappings@.take(i as int) =~= self.service_mappings@);
            assert(self.rules@.take(j as int) =~= self.rules@);
        }
        CompositeStrategy {
            id: self.id.clone(),
            name: self.name.clone(),
            description: self.description.clone(),
            service_mappings: maps,
            rules,
            default_strategy: match &self.default_strategy {
                Some(d) => Some(d.clone()),
                None => None,
            },
            enabled: self.enabled,
        }
    }
}

proof fn lemma_lookup_agree(m1: Seq<(Seq<char>, Seq<char>)>, m2: Seq<(Seq<char>, Seq<char>)>, k: Seq<char>, i: int)
    requires
        m1.len() == m2.len(),
        0 <= i,
        forall|j: int| i <= j < m1.len() ==> (#[trigger] m1[j].0 == k <==> m2[j].0 == k),
        forall|j: int| i <= j < m1.len() && m1[j].0 == k ==> #[trigger] m1[j] == m2[j],
    ensures
        lookup_from(m1, k, i) == lookup_from(m2, k, i),
    decreases m1.len() - i,
{
    if i < m1.len() {
        lemma_lookup_agree(m1, m2, k, i + 1);
    }
}

fn push_distinct<'a>(out: &mut Vec<&'a str>, s: &'a str, prev: Ghost<Seq<Seq<char>>>)
    requires
        strs_view(old(out)@) == distinct(prev@),
    ensures
        strs_view(final(out)@) == distinct(prev@.push(s@)),
{
    proof {
        assert(prev@.push(s@).drop_last() =~= prev@);
    }
    let mut i: usize = 0;
    while i < out.len()
        invariant
            i <= out@.len(),
            out@ == old(out)@,
            strs_view(out@) == distinct(prev@),
            forall|k: int| 0 <= k < i ==> out@[k]@ != s@,
        decreases out@.len() - i,
    {
        if str_eq(out[i], s) {
            proof {
                assert(strs_view(out@)[i as int] == s@);
                assert(distinct(prev@).contains(s@));
                assert(prev@.push(s@).drop_last() =~= prev@);
                assert(prev@.push(s@).last() == s@);
            }
            return;
        }
        i = i + 1;
    }
    let ghost before = out@;
    proof {
        assert(!strs_view(before).contains(s@)) by {
            if strs_view(before).contains(s@) {
                let k = choose|k: int| 0 <= k < strs_view(before).len() && strs_view(before)[k] == s@;
                assert(before[k]@ == s@);
            }
        }
    }
    out.push(s);
    proof {
        assert(strs_view(out@) =~= strs_view(before).push(s@));
    }
}

/// Inserts a rule into a list kept in descending priority.
fn insert_rule(v: &mut Vec<CompositionRule>, x: CompositionRule)
    ensures
        final(v)@ == insert_by_priority(old(v)@, x),
{
    let ghost orig = v@;
    let mut j: usize = v.len();
    proof {
        assert(orig.take(j as int) =~= orig);
        assert(orig.skip(j as int) =~= Seq::<CompositionRule>::empty());
    }
    while j > 0 && v[j - 1].priority < x.priority
        invariant
            v@ == orig,
            j <= v@.len(),
            insert_by_priority(orig, x) == insert_by_priority(orig.take(j as int), x) + orig.skip(j as int),
        decreases j,
    {
        proof {
            let t = orig.take(j as int);
            assert(t.drop_last() =~= orig.take(j - 1));
            assert(t.last() == orig[j - 1]);
            assert(orig.skip(j - 1) =~= seq![orig[j - 1]] + orig.skip(j as int));
            assert(insert_by_priority(t, x) == insert_by_priority(orig.take(j - 1), x).push(orig[j - 1]));
            assert(insert_by_priority(orig.take(j - 1), x).push(orig[j - 1]) + orig.skip(j as int)
                =~= insert_by_priority(orig.take(j - 1), x) + orig.skip(j - 1));
        }
        j = j - 1;
    }
    proof {
        let t = orig.take(j as int);
        if j > 0 {
            assert(t.last() == orig[j - 1]);
            assert(insert_by_priority(t, x) == t.push(x));
        } else {
            assert(insert_by_priority(t, x) == seq![x]);
        }
        assert(insert_by_priority(t, x) + orig.skip(j as int) =~= orig.insert(j as int, x));
    }
    v.insert(j, x);
}

/// Sorts rules stably by descending priority.
pub(crate) fn sort_rules(rules: Vec<CompositionRule>) -> (r: Vec<CompositionRule>)
    ensures
        r@ == sort_by_priority(rules@),
{
    let mut pending = rules;
    let ghost all = pending@;
    let mut sorted: Vec<CompositionRule> = Vec::new();
    let mut k: usize = 0;
    proof {
        assert(all.len() == pending.len());
        assert(all.skip(0) =~= all);
        assert(all.take(0) =~= Seq::<CompositionRule>::empty());
    }
    while pending.len() > 0
        invariant
            all.len() <= usize::MAX,
            k <= all.len(),
            pending@ == all.skip(k as int),
            sorted@ == sort_by_priority(all.take(k as int)),
        decreases pending@.len(),
    {
        let x = pending.remove(0);
        proof {
            assert(x == all[k as int]);
            assert(all.take(k as int + 1).drop_last() =~= all.take(k as int));
            assert(pending@ =~= all.skip(k as int + 1));
        }
        insert_rule(&mut sorted, x);
        k = k + 1;
    }
    proof {
        assert(all.take(k as int) =~= all);
    }
    sorted
}

impl CompositeStrategy {
    /// A new, enabled, empty composition.
    pub fn new(id: &str, name: &str) -> (c: Self)
        ensures
            c.id@ == id@,
            c.name@ == name@,
            c.description@ == Seq::<char>::empty(),
            c.service_mappings@.len() == 0,
            c.rules@.len() == 0,
            c.default_strategy is None,
            c.enabled,
    {
        CompositeStrategy {
            id: owned(id),
            name: owned(name),
            description: String::new(),
            service_mappings: Vec::new(),
            rules: Vec::new(),
            default_strategy: None,
            enabled: true,
        }
    }

    /// Maps a service directly to a strategy, replacing an earlier mapping
    /// of the same service.
    pub fn add_mapping(&mut self, service_id: &str, strategy_id: &str)
        ensures
            forall|k: Seq<char>|
                #![trigger lookup(pairs_view(final(self).service_mappings@), k)]
                lookup(pairs_view(final(self).service_mappings@), k) == if k == service_id@ {
                    Some(strategy_id@)
                } else {
                    lookup(pairs_view(old(self).service_mappings@), k)
                },
            final(self).rules == old(self).rules,
            final(self).default_strategy == old(self).default_strategy,
            final(self).id == old(self).id,
            final(self).name == old(self).name,
            final(self).description == old(self).description,
            final(self).enabled == old(self).enabled,
    {
        let ghost m0 = pairs_view(self.service_mappings@);
        let mut i: usize = 0;
        let mut found = false;
        while i < self.service_mappings.len()
            invariant
                m0 == pairs_view(self.service_mappings@),
                i <= m0.len(),
                forall|j: int| 0 <= j < i ==> m0[j].0 != service_id@,
                found ==> i < m0.len() && m0[i as int].0 == service_id@,
            ensures
                m0 == pairs_view(self.service_mappings@),
                i <= m0.len(),
                forall|j: int| 0 <= j < i ==> m0[j].0 != service_id@,
                found ==> i < m0.len() && m0[i as int].0 == service_id@,
                !found ==> i == m0.len(),
            decreases m0.len() - i,
        {
            if str_eq(self.service_mappings[i].0.as_str(), service_id) {
                found = true;
                break;
            }
            i = i + 1;
        }
        if found {
            let entry = (owned(service_id), owned(strategy_id));
            self.service_mappings.set(i, entry);
            proof {
                let m1 = pairs_view(self.service_mappings@);
                assert(m1 =~= m0.update(i as int, (service_id@, strategy_id@)));
                assert forall|k: Seq<char>| #[trigger]
                    lookup(m1, k) == if k == service_id@ {
                        Some(strategy_id@)
                    } else {
                        lookup(m0, k)
                    } by {
                    if k == service_id@ {
                        lemma_lookup_skip(m1, k, i as int);
                    } else {
                        lemma_lookup_agree(m1, m0, k, 0);
                    }
                }
            }
            return;
        }
        let entry = (owned(service_id), owned(strategy_id));
        self.service_mappings.push(entry);
        proof {
            let m1 = pairs_view(self.service_mappings@);
            assert(m1 =~= m0.push((service_id@, strategy_id@)));
            assert forall|k: Seq<char>| #[trigger]
                lookup(m1, k) == if k == service_id@ {
                    Some(strategy_id@)
                } else {
                    lookup(m0, k)
                } by {
                if k == service_id@ {
                    lemma_lookup_skip(m1, k, m0.len() as int);
                } else {
                    lemma_lookup_push(m0, (service_id@, strategy_id@), k, 0);
                }
            }
        }
    }

    /// Adds a rule; the rules are then re-sorted, stably, by descending
    /// priority. The pattern is not validated here (see
    /// [`CompositeStrategy::add_rule_validated`]).
    pub fn add_rule(&mut self, rule: CompositionRule)
        ensures
            final(self).rules@ == sort_by_priority(old(self).rules@.push(rule)),
            final(self).service_mappings == old(self).service_mappings,
            final(self).default_strategy == old(self).default_strategy,
            final(self).id == old(self).id,
            final(self).name == old(self).name,
            final(self).description == old(self).description,
            final(self).enabled == old(self).enabled,
    {
        let mut pending: Vec<CompositionRule> = Vec::new();
        std::mem::swap(&mut pending, &mut self.rules);
        pending.push(rule);
        self.rules = sort_rules(pending);
    }

    /// Adds a rule after validating its pattern; a refused rule leaves the
    /// composition unchanged.
    pub fn add_rule_validated(&mut self, rule: CompositionRule) -> (r: Result<(), IsolateError>)
        ensures
            match r {
                Ok(()) => pattern_problem(rule.service_pattern@) is None && final(self).rules@
                    == sort_by_priority(old(self).rules@.push(rule)),
                Err(e) => pattern_problem(rule.service_pattern@) == Some(e@.1) && e@.0
                    == ErrorKind::Validation && *final(self) == *old(self),
            },
            final(self).service_mappings == old(self).service_mappings,
            final(self).default_strategy == old(self).default_strategy,
            final(self).id == old(self).id,
            final(self).name == old(self).name,
            final(self).description == old(self).description,
            final(self).enabled == old(self).enabled,
    {
        match validate_pattern(rule.service_pattern.as_str()) {
            Ok(()) => {
                self.add_rule(rule);
                Ok(())
            },
            Err(e) => Err(e),
        }
    }

    /// The strategy for a service (see [`strategy_for`]).
    pub fn get_strategy_for_service(&self, service_id: &str) -> (r: Option<&str>)
        ensures
            opt_str_view(r) == strategy_for(self@, service_id@),
    {
        let ghost m = pairs_view(self.service_mappings@);
        let mut i: usize = 0;
        while i < self.service_mappings.len()
            invariant
                m == pairs_view(self.service_mappings@),
                i <= m.len(),
                lookup(m, service_id@) == lookup_from(m, service_id@, i as int),
            decreases m.len() - i,
        {
            if str_eq(self.service_mappings[i].0.as_str(), service_id) {
                return Some(self.service_mappings[i].1.as_str());
            }
            i = i + 1;
        }
        let mut j: usize = 0;
        while j < self.rules.len()
            invariant
                lookup(pairs_view(self.service_mappings@), service_id@) is None,
                j <= self.rules@.len(),
                first_rule_from(self.rules@, service_id@, 0) == first_rule_from(
                    self.rules@,
                    service_id@,
                    j as int,
                ),
            decreases self.rules@.len() - j,
        {
            if self.rules[j].matches(service_id) {
                return Some(self.rules[j].strategy_id.as_str());
            }
            j = j + 1;
        }
        match &self.default_strategy {
            Some(d) => Some(d.as_str()),
            None => None,
        }
    }

    /// The strategies this composition refers to (see [`used_strategies`]).
    pub fn get_used_strategies(&self) -> (r: Vec<&str>)
        ensures
            strs_view(r@) == used_strategies(self@),
    {
        let ghost vals = pairs_view(self.service_mappings@).map_values(
            |p: (Seq<char>, Seq<char>)| p.1,
        );
        let mut out: Vec<&str> = Vec::new();
        let mut i: usize = 0;
        proof {
            assert(vals.take(0) =~= Seq::<Seq<char>>::empty());
            assert(strs_view(out@) =~= Seq::<Seq<char>>::empty());
        }
        while i < self.service_mappings.len()
            invariant
                vals == pairs_view(self.service_mappings@).map_values(
                    |p: (Seq<char>, Seq<char>)| p.1,
                ),
                i <= vals.len(),
                strs_view(out@) == distinct(vals.take(i as int)),
            decreases vals.len() - i,
        {
            proof {
                assert(vals.take(i as int + 1) =~= vals.take(i as int).push(
                    self.service_mappings@[i as int].1@,
                ));
            }
            push_distinct(&mut out, self.service_mappings[i].1.as_str(), Ghost(vals.take(i as int)));
            i = i + 1;
        }
        proof {
            assert(vals.take(i as int) =~= vals);
            assert(self.rules@.take(0) =~= Seq::<CompositionRule>::empty());
            assert(vals + enabled_rule_ids(self.rules@.take(0)) =~= vals);
        }
        let mut j: usize = 0;
        while j < self.rules.len()
            invariant
                j <= self.rules@.len(),
                strs_view(out@) == distinct(vals + enabled_rule_ids(self.rules@.take(j as int))),
            decreases self.rules@.len() - j,
        {
            proof {
                assert(self.rules@.take(j as int + 1).drop_last() =~= self.rules@.take(j as int));
            }
            if self.rules[j].enabled {
                proof {
                    assert(vals + enabled_rule_ids(self.rules@.take(j as int + 1)) =~= (vals
                        + enabled_rule_ids(self.rules@.take(j as int))).push(
                        self.rules@[j as int].strategy_id@,
                    ));
                }
                push_distinct(
                    &mut out,
                    self.rules[j].strategy_id.as_str(),
                    Ghost(vals + enabled_rule_ids(self.rules@.take(j as int))),
                );
            }
            j = j + 1;
        }
        proof {
            assert(self.rules@.take(j as int) =~= self.rules@);
        }
        let ghost before = vals + enabled_rule_ids(self.rules@);
        match &self.default_strategy {
            Some(d) => {
                proof {
                    assert(before + opt_view(self.default_strategy) =~= before.push(d@));
                }
                push_distinct(&mut out, d.as_str(), Ghost(before));
            },
            None => {
                proof {
                    assert(before + opt_view(self.default_strategy) =~= before);
                }
            },
        }
        out
    }
}

proof fn lemma_lookup_skip(m: Seq<(Seq<char>, Seq<char>)>, k: Seq<char>, j: int)
    requires
        0 <= j,
        forall|t: int| 0 <= t < j && t < m.len() ==> m[t].0 != k,
    ensures
        lookup_from(m, k, 0) == lookup_from(m, k, j),
    decreases j,
{
    if j > 0 {
        lemma_lookup_skip(m, k, j - 1);
        if j - 1 < m.len() {
            assert(m[j - 1].0 != k);
        }
    }
}

proof fn lemma_lookup_push(m: Seq<(Seq<char>, Seq<char>)>, e: (Seq<char>, Seq<char>), k: Seq<char>, i: int)
    requires
        0 <= i <= m.len(),
        e.0 != k,
    ensures
        lookup_from(m.push(e), k, i) == lookup_from(m, k, i),
    decreases m.len() - i,
{
    if i < m.len() {
        lemma_lookup_push(m, e, k, i + 1);
        assert(m.push(e)[i] == m[i]);
    } else {
        assert(m.push(e)[i] == e);
        assert(lookup_from(m.push(e), k, i + 1) == None::<Seq<char>>);
    }
}

} // verus!
