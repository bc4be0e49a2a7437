//! Analysis of winws command lines: detected features, validation findings
//! and service compatibility.
use vstd::prelude::*;
use crate::text::{
    chars_of, contains, contains_sub, has_prefix, lowercased, split_chars, split_on, split_words,
    starts_with, string_of, strings_view, to_lowercase, trim, trim_chars, words,
};
use crate::decimal::{decimal, parse_u16, parse_u32, parse_u8, parse_unsigned, push_decimal};

verus! {

// ===========================================================================
// Port lists
// ===========================================================================

/// The ports `a..=b`, in ascending order.
pub open spec fn port_range(a: int, b: int) -> Seq<u16> {
    Seq::new((b - a + 1) as nat, |i: int| (a + i) as u16)
}

/// Ports described by one trimmed, non-empty element of a port list:
/// a single port `"443"` or a range `"80-90"`; malformed elements give none.
pub open spec fn element_ports(part: Seq<char>) -> Seq<u16> {
    if part.contains('-') {
        let rp = split_on(part, '-');
        let a = parse_unsigned(trim(rp[0]), 65535);
        let b = parse_unsigned(trim(rp[1]), 65535);
        if rp.len() == 2 && a is Some && b is Some && a->0 <= b->0 {
            port_range(a->0 as int, b->0 as int)
        } else {
            Seq::empty()
        }
    } else {
        match parse_unsigned(part, 65535) {
            Some(v) => seq![v as u16],
            None => Seq::empty(),
        }
    }
}

/// Ports of the comma-separated elements, in order, duplicates kept.
pub open spec fn listed_ports(parts: Seq<Seq<char>>) -> Seq<u16>
    decreases parts.len(),
{
    if parts.len() == 0 {
        Seq::empty()
    } else {
        let t = trim(parts.last());
        listed_ports(parts.drop_last()) + if t.len() == 0 {
            Seq::<u16>::empty()
        } else {
            element_ports(t)
        }
    }
}

/// Keeps the first occurrence of each value, in order.
pub open spec fn dedup(s: Seq<u16>) -> Seq<u16>
    decreases s.len(),
{
    if s.len() == 0 {
        Seq::empty()
    } else {
        let d = dedup(s.drop_last());
        if d.contains(s.last()) {
            d
        } else {
            d.push(s.last())
        }
    }
}

/// The port list that a string such as `"80,443,8080-8090"` describes.
pub open spec fn parsed_ports(s: Seq<char>) -> Seq<u16> {
    dedup(listed_ports(split_on(s, ',')))
}

/// Every port occurs at most once in a deduplicated list.
pub proof fn lemma_dedup_no_duplicates(s: Seq<u16>)
    ensures
        dedup(s).no_duplicates(),
        forall|p: u16| dedup(s).contains(p) <==> s.contains(p),
    decreases s.len(),
{
    if s.len() > 0 {
        lemma_dedup_no_duplicates(s.drop_last());
        let d = dedup(s.drop_last());
        assert forall|p: u16| dedup(s).contains(p) <==> s.contains(p) by {
            if s.contains(p) {
                let k = choose|k: int| 0 <= k < s.len() && s[k] == p;
                if k < s.len() - 1 {
                    assert(s.drop_last()[k] == p);
                    assert(s.drop_last().contains(p));
                    assert(d.contains(p));
                    if !d.contains(s.last()) {
                        let j = choose|j: int| 0 <= j < d.len() && d[j] == p;
                        assert(d.push(s.last())[j] == p);
                    }
                } else {
                    if !d.contains(s.last()) {
                        assert(d.push(s.last())[d.len() as int] == p);
                    }
                }
            }
            if dedup(s).contains(p) {
                if d.contains(p) {
                    assert(s.drop_last().contains(p));
                    let k = choose|k: int| 0 <= k < s.drop_last().len() && s.drop_last()[k] == p;
                    assert(s[k] == p);
                } else {
                    let j = choose|j: int| 0 <= j < dedup(s).len() && dedup(s)[j] == p;
                    if j < d.len() {
                        assert(d[j] == p);
                    }
                    assert(s[s.len() - 1] == p);
                }
            }
        }
    }
}

/// Appends `p` to a deduplicated list, keeping the seen-table in step.
fn push_unique(out: &mut Vec<u16>, seen: &mut Vec<bool>, p: u16, ghost_raw: Ghost<Seq<u16>>)
    requires
        old(seen)@.len() == 65536,
        old(out)@ == dedup(ghost_raw@),
        forall|q: int| 0 <= q < 65536 ==> (old(seen)@[q] <==> old(out)@.contains(q as u16)),
    ensures
        final(seen)@.len() == 65536,
        final(out)@ == dedup(ghost_raw@.push(p)),
        forall|q: int| 0 <= q < 65536 ==> (final(seen)@[q] <==> final(out)@.contains(q as u16)),
{
    proof {
        assert(ghost_raw@.push(p).drop_last() =~= ghost_raw@);
    }
    if !seen[p as usize] {
        out.push(p);
        seen.set(p as usize, true);
        proof {
            assert forall|q: int| 0 <= q < 65536 implies (seen@[q] <==> out@.contains(q as u16)) by {
                if q == p as int {
                    assert(out@[out@.len() - 1] == p);
                } else {
                    if out@.contains(q as u16) {
                        let k = choose|k: int| 0 <= k < out@.len() && out@[k] == q as u16;
                        assert(old(out)@[k] == q as u16);
                    }
                    if old(out)@.contains(q as u16) {
                        let k = choose|k: int|
                            0 <= k < old(out)@.len() && old(out)@[k] == q as u16;
                        assert(out@[k] == q as u16);
                    }
                }
            }
        }
    }
}

/// Ports of one trimmed non-empty element, appended with deduplication.
fn push_element_ports(
    out: &mut Vec<u16>,
    seen: &mut Vec<bool>,
    part: &[char],
    ghost_raw: Ghost<Seq<u16>>,
)
    requires
        old(seen)@.len() == 65536,
        old(out)@ == dedup(ghost_raw@),
        forall|q: int| 0 <= q < 65536 ==> (old(seen)@[q] <==> old(out)@.contains(q as u16)),
    ensures
        final(seen)@.len() == 65536,
        final(out)@ == dedup(ghost_raw@ + element_ports(part@)),
        forall|q: int| 0 <= q < 65536 ==> (final(seen)@[q] <==> final(out)@.contains(q as u16)),
{
    let ghost ep = element_ports(part@);
    if crate::text::has_char(part, '-') {
        let rp = split_chars(part, '-');
        if rp.len() == 2 {
            let a_s = trim_chars(&rp[0]);
            let b_s = trim_chars(&rp[1]);
            let a = parse_u16(&a_s);
            let b = parse_u16(&b_s);
            match (a, b) {
                (Some(start), Some(end)) => {
                    if start <= end {
                        let ghost range = port_range(start as int, end as int);
                        let mut cur: u32 = start as u32;
                        while cur <= end as u32
                            invariant
                                start <= cur <= end as u32 + 1,
                                seen@.len() == 65536,
                                range == port_range(start as int, end as int),
                                out@ == dedup(ghost_raw@ + range.take(cur - start)),
                                forall|q: int|
                                    0 <= q < 65536 ==> (seen@[q] <==> out@.contains(q as u16)),
                            decreases end as u32 + 1 - cur,
                        {
                            proof {
                                assert((ghost_raw@ + range.take(cur - start)).push(cur as u16) =~= ghost_raw@
                                    + range.take(cur - start + 1));
                            }
                            push_unique(out, seen, cur as u16, Ghost(ghost_raw@ + range.take(cur - start)));
                            cur = cur + 1;
                        }
                        proof {
                            assert(range.take(cur - start) =~= range);
                        }
                        return ;
                    }
                },
                _ => {},
            }
        }
        proof {
            assert(ep =~= Seq::<u16>::empty());
            assert(ghost_raw@ + ep =~= ghost_raw@);
        }
    } else {
        match parse_u16(part) {
            Some(v) => {
                proof {
                    assert(ghost_raw@ + ep =~= ghost_raw@.push(v));
                }
                push_unique(out, seen, v, ghost_raw);
            },
            None => {
                proof {
                    assert(ghost_raw@ + ep =~= ghost_raw@);
                }
            },
        }
    }
}

/// The `seen` table for an empty port list.
fn empty_seen() -> (seen: Vec<bool>)
    ensures
        seen@.len() == 65536,
        forall|q: int| 0 <= q < 65536 ==> !seen@[q],
{
    let mut seen: Vec<bool> = Vec::new();
    let mut i: usize = 0;
    while i < 65536
        invariant
            i <= 65536,
            seen@.len() == i,
            forall|q: int| 0 <= q < i ==> !seen@[q],
        decreases 65536 - i,
    {
        seen.push(false);
        i = i + 1;
    }
    seen
}

/// Parses a port list such as `"80,443"`, `"80-443"` or `"80,443,8080-8090"`:
/// elements are trimmed, empty and malformed elements are skipped, ranges
/// are expanded, and each port is kept once, at its first occurrence.
pub fn parse_port_list(ports_str: &[char]) -> (ports: Vec<u16>)
    ensures
        ports@ == parsed_ports(ports_str@),
{
    let parts = split_chars(ports_str, ',');
    let ghost model = split_on(ports_str@, ',');
    let mut out: Vec<u16> = Vec::new();
    let mut seen = empty_seen();
    let mut k: usize = 0;
    proof {
        assert(model.take(0) =~= Seq::<Seq<char>>::empty());
        assert forall|q: int| 0 <= q < 65536 implies (seen@[q] <==> out@.contains(q as u16)) by {}
    }
    while k < parts.len()
        invariant
            parts@.len() == model.len(),
            forall|j: int| 0 <= j < parts@.len() ==> #[trigger] parts@[j]@ == model[j],
            k <= parts@.len(),
            seen@.len() == 65536,
            out@ == dedup(listed_ports(model.take(k as int))),
            forall|q: int| 0 <= q < 65536 ==> (seen@[q] <==> out@.contains(q as u16)),
        decreases parts@.len() - k,
    {
        let t = trim_chars(&parts[k]);
        proof {
            assert(model.take(k as int + 1).drop_last() =~= model.take(k as int));
            assert(model.take(k as int + 1).last() == parts@[k as int]@);
        }
        if t.len() > 0 {
            push_element_ports(&mut out, &mut seen, &t, Ghost(listed_ports(model.take(k as int))));
        } else {
            proof {
                assert(listed_ports(model.take(k as int)) + Seq::<u16>::empty() =~= listed_ports(
                    model.take(k as int),
                ));
            }
        }
        k = k + 1;
    }
    proof {
        assert(model.take(k as int) =~= model);
    }
    out
}

// ===========================================================================
// Features
// ===========================================================================

/// Features detected in a strategy's winws arguments.
pub struct StrategyFeatures {
    /// Uses fake packet injection (`--dpi-desync-fake-*`).
    pub uses_fake: bool,
    /// Uses packet splitting (`--dpi-desync-split*`).
    pub uses_split: bool,
    /// Uses packet disorder.
    pub uses_disorder: bool,
    /// Uses fooling techniques (`--dpi-desync-fooling`).
    pub uses_fooling: bool,
    /// Uses hostlist filtering.
    pub uses_hostlist: bool,
    /// Uses an automatic hostlist (`--hostlist-auto`).
    pub uses_auto_hostlist: bool,
    /// TCP ports being filtered.
    pub tcp_ports: Vec<u16>,
    /// UDP ports being filtered.
    pub udp_ports: Vec<u16>,
    /// Desync methods used.
    pub desync_methods: Vec<String>,
    /// TTL value, if given.
    pub ttl: Option<u8>,
    /// Window size, if given.
    pub window_size: Option<u32>,
}

/// Mathematical model of [`StrategyFeatures`].
pub struct FeaturesModel {
    pub uses_fake: bool,
    pub uses_split: bool,
    pub uses_disorder: bool,
    pub uses_fooling: bool,
    pub uses_hostlist: bool,
    pub uses_auto_hostlist: bool,
    pub tcp_ports: Seq<u16>,
    pub udp_ports: Seq<u16>,
    pub desync_methods: Seq<Seq<char>>,
    pub ttl: Option<u8>,
    pub window_size: Option<u32>,
}

impl View for StrategyFeatures {
    type V = FeaturesModel;

    open spec fn view(&self) -> FeaturesModel {
        FeaturesModel {
            uses_fake: self.uses_fake,
            uses_split: self.uses_split,
            uses_disorder: self.uses_disorder,
            uses_fooling: self.uses_fooling,
            uses_hostlist: self.uses_hostlist,
            uses_auto_hostlist: self.uses_auto_hostlist,
            tcp_ports: self.tcp_ports@,
            udp_ports: self.udp_ports@,
            desync_methods: strings_view(self.desync_methods@),
            ttl: self.ttl,
            window_size: self.window_size,
        }
    }
}

impl StrategyFeatures {
    /// No features: every flag off, every list empty, nothing parsed.
    pub fn empty() -> (f: Self)
        ensures
            f@ == empty_features(),
    {
        let r = StrategyFeatures {
            uses_fake: false,
            uses_split: false,
            uses_disorder: false,
            uses_fooling: false,
            uses_hostlist: false,
            uses_auto_hostlist: false,
            tcp_ports: Vec::new(),
            udp_ports: Vec::new(),
            desync_methods: Vec::new(),
            ttl: None,
            window_size: None,
        };
        proof {
            assert(strings_view(r.desync_methods@) =~= Seq::<Seq<char>>::empty());
        }
        r
    }
}

pub open spec fn empty_features() -> FeaturesModel {
    FeaturesModel {
        uses_fake: false,
        uses_split: false,
        uses_disorder: false,
        uses_fooling: false,
        uses_hostlist: false,
        uses_auto_hostlist: false,
        tcp_ports: Seq::empty(),
        udp_ports: Seq::empty(),
        desync_methods: Seq::empty(),
        ttl: None,
        window_size: None,
    }
}

/// Flags found anywhere in the lowercased argument string.
pub open spec fn flag_features(lower: Seq<char>) -> FeaturesModel {
    FeaturesModel {
        uses_fake: contains_sub(lower, "--dpi-desync-fake"@) || contains_sub(lower, "-fake-"@),
        uses_split: contains_sub(lower, "--dpi-desync-split"@) || contains_sub(lower, "-split-"@)
            || contains_sub(lower, "-split2"@),
        uses_fooling: contains_sub(lower, "--dpi-desync-fooling"@),
        uses_hostlist: contains_sub(lower, "--hostlist"@) || contains_sub(lower, "--hostlist-domains"@),
        uses_auto_hostlist: contains_sub(lower, "--hostlist-auto"@),
        ..empty_features()
    }
}

/// Whether one of the desync methods is a disorder mode (`disorder`,
/// `disorder2`, ...), in any letter case.
pub open spec fn any_disorder(methods: Seq<Seq<char>>) -> bool {
    exists|k: int| 0 <= k < methods.len() && has_prefix(lowercased(#[trigger] methods[k]), "disorder"@)
}

/// The text after the first `=` of a token, up to any further `=`
/// (`token.split('=').nth(1)`).
pub open spec fn value_after_eq(tok: Seq<char>) -> Option<Seq<char>> {
    let parts = split_on(tok, '=');
    if parts.len() >= 2 {
        Some(parts[1])
    } else {
        None
    }
}

/// The trimmed, non-empty comma-separated elements, in order.
pub open spec fn method_list(parts: Seq<Seq<char>>) -> Seq<Seq<char>>
    decreases parts.len(),
{
    if parts.len() == 0 {
        Seq::empty()
    } else {
        let t = trim(parts.last());
        if t.len() == 0 {
            method_list(parts.drop_last())
        } else {
            method_list(parts.drop_last()).push(t)
        }
    }
}

/// What one argument token changes in the features.
pub open spec fn token_update(f: FeaturesModel, tok: Seq<char>) -> FeaturesModel {
    let tl = lowercased(tok);
    let v = value_after_eq(tok);
    let f1 = if (has_prefix(tl, "--wf-tcp="@) || has_prefix(tl, "--filter-tcp="@)) && v is Some {
        FeaturesModel { tcp_ports: parsed_ports(v->0), ..f }
    } else {
        f
    };
    let f2 = if (has_prefix(tl, "--wf-udp="@) || has_prefix(tl, "--filter-udp="@)) && v is Some {
        FeaturesModel { udp_ports: parsed_ports(v->0), ..f1 }
    } else {
        f1
    };
    let f3 = if has_prefix(tl, "--dpi-desync="@) && v is Some {
        FeaturesModel {
            desync_methods: method_list(split_on(v->0, ',')),
            uses_disorder: f2.uses_disorder || any_disorder(method_list(split_on(v->0, ','))),
            ..f2
        }
    } else {
        f2
    };
    let f4 = if has_prefix(tl, "--dpi-desync-ttl="@) && v is Some {
        FeaturesModel {
            ttl: match parse_unsigned(v->0, 255) {
                Some(n) => Some(n as u8),
                None => None,
            },
            ..f3
        }
    } else {
        f3
    };
    if (has_prefix(tl, "--wssize="@) || has_prefix(tl, "--wsize="@)) && v is Some {
        FeaturesModel {
            window_size: match parse_unsigned(split_on(v->0, ':')[0], 4294967295) {
                Some(n) => Some(n as u32),
                None => None,
            },
            ..f4
        }
    } else {
        f4
    }
}

/// Applies the tokens left to right.
pub open spec fn apply_tokens(f: FeaturesModel, toks: Seq<Seq<char>>) -> FeaturesModel
    decreases toks.len(),
{
    if toks.len() == 0 {
        f
    } else {
        token_update(apply_tokens(f, toks.drop_last()), toks.last())
    }
}

/// Features of a winws argument string.
pub open spec fn features_of(args: Seq<char>) -> FeaturesModel {
    apply_tokens(flag_features(lowercased(args)), words(args))
}

proof fn lemma_tokens_keep_flags(f: FeaturesModel, toks: Seq<Seq<char>>)
    ensures
        apply_tokens(f, toks).uses_fake == f.uses_fake,
        apply_tokens(f, toks).uses_split == f.uses_split,
        apply_tokens(f, toks).uses_fooling == f.uses_fooling,
        apply_tokens(f, toks).uses_hostlist == f.uses_hostlist,
        apply_tokens(f, toks).uses_auto_hostlist == f.uses_auto_hostlist,
    decreases toks.len(),
{
    if toks.len() > 0 {
        lemma_tokens_keep_flags(f, toks.drop_last());
    }
}

/// The technique flags of an analysis are found anywhere in the lowercased
/// argument string, whatever the tokens around them: fooling is used exactly
/// when `--dpi-desync-fooling` occurs, fakes when `--dpi-desync-fake` or
/// `-fake-` does, splitting when `--dpi-desync-split`, `-split-` or
/// `-split2` does, a hostlist when `--hostlist` does, and an automatic
/// hostlist when `--hostlist-auto` does.
pub proof fn lemma_flags_found_anywhere(strategy_id: Seq<char>, args: Seq<char>)
    ensures
        analysis_of(strategy_id, args).features.uses_fooling == contains_sub(
            lowercased(args),
            "--dpi-desync-fooling"@,
        ),
        analysis_of(strategy_id, args).features.uses_fake == (contains_sub(
            lowercased(args),
            "--dpi-desync-fake"@,
        ) || contains_sub(lowercased(args), "-fake-"@)),
        analysis_of(strategy_id, args).features.uses_split == (contains_sub(
            lowercased(args),
            "--dpi-desync-split"@,
        ) || contains_sub(lowercased(args), "-split-"@) || contains_sub(lowercased(args), "-split2"@)),
        analysis_of(strategy_id, args).features.uses_hostlist == contains_sub(
            lowercased(args),
            "--hostlist"@,
        ),
        analysis_of(strategy_id, args).features.uses_auto_hostlist == contains_sub(
            lowercased(args),
            "--hostlist-auto"@,
        ),
{
    let l = lowercased(args);
    lemma_tokens_keep_flags(flag_features(l), words(args));
    if contains_sub(l, "--hostlist-domains"@) {
        let i = choose|i: int| crate::text::occurs_at(l, "--hostlist-domains"@, i);
        assert(crate::text::occurs_at(l, "--hostlist"@, i)) by {
            reveal_strlit("--hostlist-domains");
            reveal_strlit("--hostlist");
            assert(l.subrange(i, i + 18) =~= "--hostlist-domains"@);
            assert(l.subrange(i, i + 10) =~= l.subrange(i, i + 18).subrange(0, 10));
            assert(l.subrange(i, i + 10) =~= "--hostlist"@);
        }
    }
}

/// Trimmed non-empty elements of a comma-separated list, as `String`s.
fn parse_method_list(v: &[char]) -> (r: Vec<String>)
    ensures
        strings_view(r@) == method_list(split_on(v@, ',')),
{
    let parts = split_chars(v, ',');
    let ghost model = split_on(v@, ',');
    let mut out: Vec<String> = Vec::new();
    let mut k: usize = 0;
    proof {
        assert(model.take(0) =~= Seq::<Seq<char>>::empty());
        assert(strings_view(out@) =~= Seq::<Seq<char>>::empty());
    }
    while k < parts.len()
        invariant
            parts@.len() == model.len(),
            forall|j: int| 0 <= j < parts@.len() ==> #[trigger] parts@[j]@ == model[j],
            k <= parts@.len(),
            strings_view(out@) == method_list(model.take(k as int)),
        decreases parts@.len() - k,
    {
        let t = trim_chars(&parts[k]);
        proof {
            assert(model.take(k as int + 1).drop_last() =~= model.take(k as int));
            assert(model.take(k as int + 1).last() == parts@[k as int]@);
        }
        if t.len() > 0 {
            let ghost before = out@;
            out.push(string_of(&t));
            proof {
                assert(strings_view(out@) =~= strings_view(before).push(t@));
            }
        }
        k = k + 1;
    }
    proof {
        assert(model.take(k as int) =~= model);
    }
    out
}

/// The value of a `name=value` token.
fn token_value(tok: &[char]) -> (r: Option<Vec<char>>)
    ensures
        match r {
            Some(v) => value_after_eq(tok@) == Some(v@),
            None => value_after_eq(tok@) is None,
        },
{
    let parts = split_chars(tok, '=');
    if parts.len() >= 2 {
        Some(crate::text::copy_chars(&parts[1]))
    } else {
        None
    }
}

/// Whether one of the methods is a disorder mode (see [`any_disorder`]).
fn has_disorder_method(methods: &Vec<String>) -> (r: bool)
    ensures
        r == any_disorder(strings_view(methods@)),
{
    let ghost m = strings_view(methods@);
    let prefix = chars_of("disorder");
    let mut k: usize = 0;
    while k < methods.len()
        invariant
            m == strings_view(methods@),
            k <= m.len(),
            prefix@ == "disorder"@,
            forall|j: int| 0 <= j < k ==> !has_prefix(lowercased(#[trigger] m[j]), "disorder"@),
        decreases m.len() - k,
    {
        let lower = to_lowercase(methods[k].as_str());
        if starts_with(&chars_of(lower.as_str()), &prefix) {
            proof {
                assert(m[k as int] == methods@[k as int]@);
            }
            return true;
        }
        proof {
            assert(m[k as int] == methods@[k as int]@);
        }
        k = k + 1;
    }
    false
}

/// Updates the features for one argument token.
#[verifier::rlimit(50)]
fn apply_token(f: &mut StrategyFeatures, tok: &[char])
    ensures
        final(f)@ == token_update(old(f)@, tok@),
{
    let ts = string_of(tok);
    let tl_s = to_lowercase(ts.as_str());
    let tl = chars_of(tl_s.as_str());
    let v = token_value(tok);
    match &v {
        Some(val) => {
            if starts_with(&tl, &chars_of("--wf-tcp=")) || starts_with(&tl, &chars_of("--filter-tcp=")) {
                f.tcp_ports = parse_port_list(val);
            }
            if starts_with(&tl, &chars_of("--wf-udp=")) || starts_with(&tl, &chars_of("--filter-udp=")) {
                f.udp_ports = parse_port_list(val);
            }
            if starts_with(&tl, &chars_of("--dpi-desync=")) {
                f.desync_methods = parse_method_list(val);
                if has_disorder_method(&f.desync_methods) {
                    f.uses_disorder = true;
                }
            }
            if starts_with(&tl, &chars_of("--dpi-desync-ttl=")) {
                f.ttl = parse_u8(val);
            }
            if starts_with(&tl, &chars_of("--wssize=")) || starts_with(&tl, &chars_of("--wsize=")) {
                let sp = split_chars(val, ':');
                proof {
                    crate::text::lemma_split_nonempty(val@, ':');
                }
                f.window_size = parse_u32(&sp[0]);
            }
        },
        None => {},
    }
}

// ===========================================================================
// Analysis
// ===========================================================================

/// Result of analysing one strategy's arguments.
pub struct StrategyAnalysis {
    /// Strategy identifier.
    pub strategy_id: String,
    /// Whether the configuration is valid (no errors were found).
    pub is_valid: bool,
    /// Non-critical findings.
    pub warnings: Vec<String>,
    /// Critical findings.
    pub errors: Vec<String>,
    /// Detected features.
    pub features: StrategyFeatures,
}

/// Mathematical model of [`StrategyAnalysis`].
pub struct AnalysisModel {
    pub strategy_id: Seq<char>,
    pub is_valid: bool,
    pub warnings: Seq<Seq<char>>,
    pub errors: Seq<Seq<char>>,
    pub features: FeaturesModel,
}

impl View for StrategyAnalysis {
    type V = AnalysisModel;

    open spec fn view(&self) -> AnalysisModel {
        AnalysisModel {
            strategy_id: self.strategy_id@,
            is_valid: self.is_valid,
            warnings: strings_view(self.warnings@),
            errors: strings_view(self.errors@),
            features: self.features@,
        }
    }
}

/// One copy of `msg` for every zero port in the list.
pub open spec fn zero_port_errors(ports: Seq<u16>, msg: Seq<char>) -> Seq<Seq<char>>
    decreases ports.len(),
{
    if ports.len() == 0 {
        Seq::empty()
    } else if ports.last() == 0 {
        zero_port_errors(ports.drop_last(), msg).push(msg)
    } else {
        zero_port_errors(ports.drop_last(), msg)
    }
}

pub open spec fn high_ttl_warning(ttl: u8) -> Seq<char> {
    "High TTL value ("@ + decimal(ttl as nat) + ") may cause issues"@
}

/// Warnings for the features of a non-empty argument list, in the order they are reported.
pub open spec fn warnings_for(f: FeaturesModel) -> Seq<Seq<char>> {
    let w1: Seq<Seq<char>> = if f.tcp_ports.len() == 0 && f.udp_ports.len() == 0 {
        seq!["No port filters specified (--wf-tcp or --wf-udp)"@]
    } else {
        Seq::empty()
    };
    let w2: Seq<Seq<char>> = if f.desync_methods.len() == 0 {
        seq!["No desync method specified (--dpi-desync)"@]
    } else {
        Seq::empty()
    };
    let w3: Seq<Seq<char>> = match f.ttl {
        Some(t) => if t > 64 {
            seq![high_ttl_warning(t)]
        } else {
            Seq::empty()
        },
        None => Seq::empty(),
    };
    let w4: Seq<Seq<char>> = if f.uses_disorder && f.uses_split {
        seq!["Using both disorder and split may be redundant"@]
    } else {
        Seq::empty()
    };
    w1 + w2 + w3 + w4
}

/// Errors for the features of a non-empty argument list, in the order they are reported.
pub open spec fn errors_for(f: FeaturesModel) -> Seq<Seq<char>> {
    let e1: Seq<Seq<char>> = if f.ttl == Some(0u8) {
        seq!["TTL cannot be 0"@]
    } else {
        Seq::empty()
    };
    e1 + zero_port_errors(f.tcp_ports, "Invalid TCP port: 0"@) + zero_port_errors(
        f.udp_ports,
        "Invalid UDP port: 0"@,
    )
}

/// The analysis of a strategy's arguments.
pub open spec fn analysis_of(id: Seq<char>, args: Seq<char>) -> AnalysisModel {
    let f = features_of(args);
    if words(args).len() == 0 {
        AnalysisModel {
            strategy_id: id,
            is_valid: false,
            warnings: Seq::empty(),
            errors: seq!["Empty arguments"@],
            features: f,
        }
    } else {
        AnalysisModel {
            strategy_id: id,
            is_valid: errors_for(f).len() == 0,
            warnings: warnings_for(f),
            errors: errors_for(f),
            features: f,
        }
    }
}

/// Service port requirements.
pub struct ServicePorts {
    /// Required TCP ports.
    pub tcp: Vec<u16>,
    /// Required UDP ports.
    pub udp: Vec<u16>,
}

impl ServicePorts {
    /// Requirements with the given TCP and UDP ports.
    pub fn new(tcp: Vec<u16>, udp: Vec<u16>) -> (r: Self)
        ensures
            r.tcp@ == tcp@,
            r.udp@ == udp@,
    {
        ServicePorts { tcp, udp }
    }

    /// HTTPS: TCP 443.
    pub fn https() -> (r: Self)
        ensures
            r.tcp@ == seq![443u16],
            r.udp@ == Seq::<u16>::empty(),
    {
        let mut tcp: Vec<u16> = Vec::new();
        tcp.push(443);
        ServicePorts { tcp, udp: Vec::new() }
    }

    /// HTTP and HTTPS: TCP 80 and 443.
    pub fn web() -> (r: Self)
        ensures
            r.tcp@ == seq![80u16, 443u16],
            r.udp@ == Seq::<u16>::empty(),
    {
        let mut tcp: Vec<u16> = Vec::new();
        tcp.push(80);
        tcp.push(443);
        ServicePorts { tcp, udp: Vec::new() }
    }

    /// QUIC: UDP 443.
    pub fn quic() -> (r: Self)
        ensures
            r.tcp@ == Seq::<u16>::empty(),
            r.udp@ == seq![443u16],
    {
        let mut udp: Vec<u16> = Vec::new();
        udp.push(443);
        ServicePorts { tcp: Vec::new(), udp }
    }
}

/// A strategy without port filters suits every service; otherwise every
/// required port must be among the filtered ones.
pub open spec fn suitable(f: FeaturesModel, tcp: Seq<u16>, udp: Seq<u16>) -> bool {
    (f.tcp_ports.len() == 0 && f.udp_ports.len() == 0) || ((forall|i: int|
        0 <= i < tcp.len() ==> f.tcp_ports.contains(#[trigger] tcp[i])) && (forall|i: int|
        0 <= i < udp.len() ==> f.udp_ports.contains(#[trigger] udp[i])))
}

fn vec_contains_u16(v: &Vec<u16>, x: u16) -> (r: bool)
    ensures
        r == v@.contains(x),
{
    let mut i: usize = 0;
    while i < v.len()
        invariant
            i <= v@.len(),
            forall|k: int| 0 <= k < i ==> v@[k] != x,
        decreases v@.len() - i,
    {
        if v[i] == x {
            return true;
        }
        i = i + 1;
    }
    false
}

fn all_contained(req: &Vec<u16>, have: &Vec<u16>) -> (r: bool)
    ensures
        r == forall|i: int| 0 <= i < req@.len() ==> have@.contains(#[trigger] req@[i]),
{
    let mut i: usize = 0;
    while i < req.len()
        invariant
            i <= req@.len(),
            forall|k: int| 0 <= k < i ==> have@.contains(#[trigger] req@[k]),
        decreases req@.len() - i,
    {
        if !vec_contains_u16(have, req[i]) {
            return false;
        }
        i = i + 1;
    }
    true
}

/// Analyzer for winws arguments.
pub struct StrategyAnalyzer;

impl StrategyAnalyzer {
    /// A new analyzer.
    pub fn new() -> (r: Self) {
        StrategyAnalyzer
    }

    /// Parses a port list such as `"80,443"`, `"80-443"` or
    /// `"80,443,8080-8090"` (see [`parse_port_list`]).
    pub fn parse_ports(ports_str: &str) -> (ports: Vec<u16>)
        ensures
            ports@ == parsed_ports(ports_str@),
    {
        let c = chars_of(ports_str);
        parse_port_list(&c)
    }

    /// Analyzes winws arguments: detected features, warnings, errors, validity.
    pub fn analyze(&self, strategy_id: &str, args: &str) -> (a: StrategyAnalysis)
        ensures
            a@ == analysis_of(strategy_id@, args@),
    {
        let arg_chars = chars_of(args);
        let lower_s = to_lowercase(args);
        let lower = chars_of(lower_s.as_str());
        let tokens = split_words(&arg_chars);

        // Flags anywhere in the argument string.
        let mut f = StrategyFeatures::empty();
        f.uses_fake = contains(&lower, &chars_of("--dpi-desync-fake")) || contains(
            &lower,
            &chars_of("-fake-"),
        );
        f.uses_split = contains(&lower, &chars_of("--dpi-desync-split")) || contains(
            &lower,
            &chars_of("-split-"),
        ) || contains(&lower, &chars_of("-split2"));
        f.uses_fooling = contains(&lower, &chars_of("--dpi-desync-fooling"));
        f.uses_hostlist = contains(&lower, &chars_of("--hostlist")) || contains(
            &lower,
            &chars_of("--hostlist-domains"),
        );
        f.uses_auto_hostlist = contains(&lower, &chars_of("--hostlist-auto"));

        let ghost toks = words(args@);
        let ghost base = flag_features(lowercased(args@));
        proof {
            assert(f@ == base);
            assert(toks.take(0) =~= Seq::<Seq<char>>::empty());
        }
        let mut k: usize = 0;
        while k < tokens.len()
            invariant
                tokens@.len() == toks.len(),
                forall|j: int| 0 <= j < tokens@.len() ==> #[trigger] tokens@[j]@ == toks[j],
                k <= tokens@.len(),
                f@ == apply_tokens(base, toks.take(k as int)),
            decreases tokens@.len() - k,
        {
            proof {
                assert(toks.take(k as int + 1).drop_last() =~= toks.take(k as int));
                assert(toks.take(k as int + 1).last() == tokens@[k as int]@);
            }
            apply_token(&mut f, &tokens[k]);
            k = k + 1;
        }
        proof {
            assert(toks.take(k as int) =~= toks);
        }

        let mut warnings: Vec<String> = Vec::new();
        let mut errors: Vec<String> = Vec::new();
        if tokens.len() == 0 {
            errors.push(crate::text::owned("Empty arguments"));
            proof {
                assert(strings_view(errors@) =~= seq!["Empty arguments"@]);
                assert(strings_view(warnings@) =~= Seq::<Seq<char>>::empty());
            }
            return StrategyAnalysis {
                strategy_id: crate::text::owned(strategy_id),
                is_valid: false,
                warnings,
                errors,
                features: f,
            };
        }
        Self::validate(&f, &mut warnings, &mut errors);
        let is_valid = errors.len() == 0;
        StrategyAnalysis {
            strategy_id: crate::text::owned(strategy_id),
            is_valid,
            warnings,
            errors,
            features: f,
        }
    }

    /// Appends one copy of `msg` per zero port.
    fn push_zero_port_errors(ports: &Vec<u16>, msg: &str, errors: &mut Vec<String>)
        ensures
            strings_view(final(errors)@) == strings_view(old(errors)@) + zero_port_errors(ports@, msg@),
    {
        let mut i: usize = 0;
        proof {
            assert(ports@.take(0) =~= Seq::<u16>::empty());
            assert(strings_view(errors@) =~= strings_view(old(errors)@) + Seq::<Seq<char>>::empty());
        }
        while i < ports.len()
            invariant
                i <= ports@.len(),
                strings_view(errors@) == strings_view(old(errors)@) + zero_port_errors(
                    ports@.take(i as int),
                    msg@,
                ),
            decreases ports@.len() - i,
        {
            proof {
                assert(ports@.take(i as int + 1).drop_last() =~= ports@.take(i as int));
            }
            if ports[i] == 0 {
                let ghost before = errors@;
                errors.push(crate::text::owned(msg));
                proof {
                    assert(strings_view(errors@) =~= strings_view(before).push(msg@));
                }
            }
            i = i + 1;
        }
        proof {
            assert(ports@.take(i as int) =~= ports@);
        }
    }

    /// Appends the warnings and errors for the features of a non-empty argument list.
    fn validate(f: &StrategyFeatures, warnings: &mut Vec<String>, errors: &mut Vec<String>)
        requires
            old(warnings)@.len() == 0,
            old(errors)@.len() == 0,
        ensures
            strings_view(final(warnings)@) == warnings_for(f@),
            strings_view(final(errors)@) == errors_for(f@),
    {
        let ghost fm = f@;
        if f.tcp_ports.len() == 0 && f.udp_ports.len() == 0 {
            warnings.push(crate::text::owned("No port filters specified (--wf-tcp or --wf-udp)"));
        }
        if f.desync_methods.len() == 0 {
            warnings.push(crate::text::owned("No desync method specified (--dpi-desync)"));
        }
        let ghost w12 = strings_view(warnings@);
        match f.ttl {
            Some(ttl) => {
                if ttl == 0 {
                    errors.push(crate::text::owned("TTL cannot be 0"));
                } else if ttl > 64 {
                    let mut msg = chars_of("High TTL value (");
                    push_decimal(&mut msg, ttl as u64);
                    crate::text::extend_chars(&mut msg, &chars_of(") may cause issues"));
                    warnings.push(string_of(&msg));
                }
            },
            None => {},
        }
        let ghost w123 = strings_view(warnings@);
        if f.uses_disorder && f.uses_split {
            warnings.push(crate::text::owned("Using both disorder and split may be redundant"));
        }
        proof {
            let w1: Seq<Seq<char>> = if fm.tcp_ports.len() == 0 && fm.udp_ports.len() == 0 {
                seq!["No port filters specified (--wf-tcp or --wf-udp)"@]
            } else {
                Seq::empty()
            };
            let w2: Seq<Seq<char>> = if fm.desync_methods.len() == 0 {
                seq!["No desync method specified (--dpi-desync)"@]
            } else {
                Seq::empty()
            };
            assert(w12 =~= w1 + w2);
            assert(strings_view(warnings@) =~= warnings_for(fm));
        }
        let ghost e1 = strings_view(errors@);
        proof {
            assert(e1 =~= (if fm.ttl == Some(0u8) {
                seq!["TTL cannot be 0"@]
            } else {
                Seq::<Seq<char>>::empty()
            }));
        }
        Self::push_zero_port_errors(&f.tcp_ports, "Invalid TCP port: 0", errors);
        Self::push_zero_port_errors(&f.udp_ports, "Invalid UDP port: 0", errors);
    }

    /// Whether the strategy suits a service's port requirements.
    pub fn is_suitable_for_service(
        &self,
        analysis: &StrategyAnalysis,
        service_ports: &ServicePorts,
    ) -> (r: bool)
        ensures
            r == suitable(analysis.features@, service_ports.tcp@, service_ports.udp@),
    {
        if analysis.features.tcp_ports.len() == 0 && analysis.features.udp_ports.len() == 0 {
            return true;
        }
        all_contained(&service_ports.tcp, &analysis.features.tcp_ports) && all_contained(
            &service_ports.udp,
            &analysis.features.udp_ports,
        )
    }
}

} // verus!
