//! JSON strategy definitions and their conversion to winws command lines.
//!
//! Reading strategy files from disk belongs to the application; the library
//! holds the strategy model, category filtering and argument generation.
use vstd::prelude::*;
use crate::text::{
    chars_eq, chars_of, has_char, lowercased, owned, string_of, strings_view, to_lowercase,
};
use crate::decimal::{decimal, i64_to_chars, signed_decimal, u64_to_chars};

verus! {

// ===========================================================================
// Categories and desync modes
// ===========================================================================

/// Strategy category.
#[derive(PartialEq, Eq, Structural, Clone, Copy, Debug)]
pub enum StrategyCategory {
    YouTube,
    Discord,
    Telegram,
    General,
    Games,
    Warp,
    Custom,
}

/// Display name of a category (also its variant name).
pub open spec fn category_name(c: StrategyCategory) -> Seq<char> {
    match c {
        StrategyCategory::YouTube => "YouTube"@,
        StrategyCategory::Discord => "Discord"@,
        StrategyCategory::Telegram => "Telegram"@,
        StrategyCategory::General => "General"@,
        StrategyCategory::Games => "Games"@,
        StrategyCategory::Warp => "Warp"@,
        StrategyCategory::Custom => "Custom"@,
    }
}

impl StrategyCategory {
    /// The display name, such as `"YouTube"`.
    pub fn to_string(&self) -> (r: String)
        ensures
            r@ == category_name(*self),
    {
        match self {
            StrategyCategory::YouTube => owned("YouTube"),
            StrategyCategory::Discord => owned("Discord"),
            StrategyCategory::Telegram => owned("Telegram"),
            StrategyCategory::General => owned("General"),
            StrategyCategory::Games => owned("Games"),
            StrategyCategory::Warp => owned("Warp"),
            StrategyCategory::Custom => owned("Custom"),
        }
    }
}

/// DPI desynchronization mode supported by winws/nfqws.
#[derive(PartialEq, Eq, Structural, Clone, Copy, Debug)]
pub enum DesyncMode {
    Fake,
    FakeKnown,
    SynAck,
    SynData,
    Rst,
    RstAck,
    HopByHop,
    DestOpt,
    IpFrag1,
    IpFrag2,
    MultiSplit,
    MultiDisorder,
    FakedSplit,
    FakedDisorder,
    HostFakeSplit,
    UdpLen,
    Tamper,
    Split,
    Split2,
    Disorder,
    Disorder2,
}

/// The winws name of a mode, such as `"fakedsplit"`.
pub open spec fn mode_name(m: DesyncMode) -> Seq<char> {
    match m {
        DesyncMode::Fake => "fake"@,
        DesyncMode::FakeKnown => "fakeknown"@,
        DesyncMode::SynAck => "synack"@,
        DesyncMode::SynData => "syndata"@,
        DesyncMode::Rst => "rst"@,
        DesyncMode::RstAck => "rstack"@,
        DesyncMode::HopByHop => "hopbyhop"@,
        DesyncMode::DestOpt => "destopt"@,
        DesyncMode::IpFrag1 => "ipfrag1"@,
        DesyncMode::IpFrag2 => "ipfrag2"@,
        DesyncMode::MultiSplit => "multisplit"@,
        DesyncMode::MultiDisorder => "multidisorder"@,
        DesyncMode::FakedSplit => "fakedsplit"@,
        DesyncMode::FakedDisorder => "fakeddisorder"@,
        DesyncMode::HostFakeSplit => "hostfakesplit"@,
        DesyncMode::UdpLen => "udplen"@,
        DesyncMode::Tamper => "tamper"@,
        DesyncMode::Split => "split"@,
        DesyncMode::Split2 => "split2"@,
        DesyncMode::Disorder => "disorder"@,
        DesyncMode::Disorder2 => "disorder2"@,
    }
}

/// The mode whose winws name is `n`, if any.
pub open spec fn mode_named(n: Seq<char>) -> Option<DesyncMode> {
    if n == "fake"@ {
        Some(DesyncMode::Fake)
    } else if n == "fakeknown"@ {
        Some(DesyncMode::FakeKnown)
    } else if n == "synack"@ {
        Some(DesyncMode::SynAck)
    } else if n == "syndata"@ {
        Some(DesyncMode::SynData)
    } else if n == "rst"@ {
        Some(DesyncMode::Rst)
    } else if n == "rstack"@ {
        Some(DesyncMode::RstAck)
    } else if n == "hopbyhop"@ {
        Some(DesyncMode::HopByHop)
    } else if n == "destopt"@ {
        Some(DesyncMode::DestOpt)
    } else if n == "ipfrag1"@ {
        Some(DesyncMode::IpFrag1)
    } else if n == "ipfrag2"@ {
        Some(DesyncMode::IpFrag2)
    } else if n == "multisplit"@ {
        Some(DesyncMode::MultiSplit)
    } else if n == "multidisorder"@ {
        Some(DesyncMode::MultiDisorder)
    } else if n == "fakedsplit"@ {
        Some(DesyncMode::FakedSplit)
    } else if n == "fakeddisorder"@ {
        Some(DesyncMode::FakedDisorder)
    } else if n == "hostfakesplit"@ {
        Some(DesyncMode::HostFakeSplit)
    } else if n == "udplen"@ {
        Some(DesyncMode::UdpLen)
    } else if n == "tamper"@ {
        Some(DesyncMode::Tamper)
    } else if n == "split"@ {
        Some(DesyncMode::Split)
    } else if n == "split2"@ {
        Some(DesyncMode::Split2)
    } else if n == "disorder"@ {
        Some(DesyncMode::Disorder)
    } else if n == "disorder2"@ {
        Some(DesyncMode::Disorder2)
    } else {
        None
    }
}

impl DesyncMode {
    /// The winws name, such as `"fake"`.
    pub fn to_string(&self) -> (r: String)
        ensures
            r@ == mode_name(*self),
    {
        match self {
            DesyncMode::Fake => owned("fake"),
            DesyncMode::FakeKnown => owned("fakeknown"),
            DesyncMode::SynAck => owned("synack"),
            DesyncMode::SynData => owned("syndata"),
            DesyncMode::Rst => owned("rst"),
            DesyncMode::RstAck => owned("rstack"),
            DesyncMode::HopByHop => owned("hopbyhop"),
            DesyncMode::DestOpt => owned("destopt"),
            DesyncMode::IpFrag1 => owned("ipfrag1"),
            DesyncMode::IpFrag2 => owned("ipfrag2"),
            DesyncMode::MultiSplit => owned("multisplit"),
            DesyncMode::MultiDisorder => owned("multidisorder"),
            DesyncMode::FakedSplit => owned("fakedsplit"),
            DesyncMode::FakedDisorder => owned("fakeddisorder"),
            DesyncMode::HostFakeSplit => owned("hostfakesplit"),
            DesyncMode::UdpLen => owned("udplen"),
            DesyncMode::Tamper => owned("tamper"),
            DesyncMode::Split => owned("split"),
            DesyncMode::Split2 => owned("split2"),
            DesyncMode::Disorder => owned("disorder"),
            DesyncMode::Disorder2 => owned("disorder2"),
        }
    }
}

fn mode_from_name(n: &[char]) -> (r: Option<DesyncMode>)
    ensures
        r == mode_named(n@),
{
    if chars_eq(n, &chars_of("fake")) {
        Some(DesyncMode::Fake)
    } else if chars_eq(n, &chars_of("fakeknown")) {
        Some(DesyncMode::FakeKnown)
    } else if chars_eq(n, &chars_of("synack")) {
        Some(DesyncMode::SynAck)
    } else if chars_eq(n, &chars_of("syndata")) {
        Some(DesyncMode::SynData)
    } else if chars_eq(n, &chars_of("rst")) {
        Some(DesyncMode::Rst)
    } else if chars_eq(n, &chars_of("rstack")) {
        Some(DesyncMode::RstAck)
    } else if chars_eq(n, &chars_of("hopbyhop")) {
        Some(DesyncMode::HopByHop)
    } else if chars_eq(n, &chars_of("destopt")) {
        Some(DesyncMode::DestOpt)
    } else if chars_eq(n, &chars_of("ipfrag1")) {
        Some(DesyncMode::IpFrag1)
    } else if chars_eq(n, &chars_of("ipfrag2")) {
        Some(DesyncMode::IpFrag2)
    } else if chars_eq(n, &chars_of("multisplit")) {
        Some(DesyncMode::MultiSplit)
    } else if chars_eq(n, &chars_of("multidisorder")) {
        Some(DesyncMode::MultiDisorder)
    } else if chars_eq(n, &chars_of("fakedsplit")) {
        Some(DesyncMode::FakedSplit)
    } else if chars_eq(n, &chars_of("fakeddisorder")) {
        Some(DesyncMode::FakedDisorder)
    } else if chars_eq(n, &chars_of("hostfakesplit")) {
        Some(DesyncMode::HostFakeSplit)
    } else if chars_eq(n, &chars_of("udplen")) {
        Some(DesyncMode::UdpLen)
    } else if chars_eq(n, &chars_of("tamper")) {
        Some(DesyncMode::Tamper)
    } else if chars_eq(n, &chars_of("split")) {
        Some(DesyncMode::Split)
    } else if chars_eq(n, &chars_of("split2")) {
        Some(DesyncMode::Split2)
    } else if chars_eq(n, &chars_of("disorder")) {
        Some(DesyncMode::Disorder)
    } else if chars_eq(n, &chars_of("disorder2")) {
        Some(DesyncMode::Disorder2)
    } else {
        None
    }
}

/// A single desync mode, or several combined (such as `"fake,split2"`).
#[derive(PartialEq, Eq, Debug)]
pub enum DesyncConfig {
    /// One known mode.
    Single(DesyncMode),
    /// Combined or unknown modes, kept as written.
    Combined(String),
}

/// Model of a [`DesyncConfig`].
pub enum DesyncChoice {
    Single(DesyncMode),
    Combined(Seq<char>),
}

impl View for DesyncConfig {
    type V = DesyncChoice;

    open spec fn view(&self) -> DesyncChoice {
        match self {
            DesyncConfig::Single(m) => DesyncChoice::Single(*m),
            DesyncConfig::Combined(s) => DesyncChoice::Combined(s@),
        }
    }
}

/// How a desync string is read: with a comma it is a combination kept as
/// written; otherwise a known mode name (compared in lowercase) gives that
/// mode, and anything else is kept as written.
pub open spec fn desync_choice(s: Seq<char>) -> DesyncChoice {
    if s.contains(',') {
        DesyncChoice::Combined(s)
    } else {
        match mode_named(lowercased(s)) {
            Some(m) => DesyncChoice::Single(m),
            None => DesyncChoice::Combined(s),
        }
    }
}

/// Text of a desync configuration.
pub open spec fn desync_text(c: DesyncChoice) -> Seq<char> {
    match c {
        DesyncChoice::Single(m) => mode_name(m),
        DesyncChoice::Combined(s) => s,
    }
}

impl DesyncConfig {
    /// The default configuration: the single mode `fake`.
    pub fn default() -> (r: Self)
        ensures
            r@ == DesyncChoice::Single(DesyncMode::Fake),
    {
        DesyncConfig::Single(DesyncMode::Fake)
    }

    /// Reads a desync string (see [`desync_choice`]).
    pub fn parse(s: &str) -> (r: Self)
        ensures
            r@ == desync_choice(s@),
    {
        if crate::text::has_char(&chars_of(s), ',') {
            return DesyncConfig::Combined(owned(s));
        }
        let lower = to_lowercase(s);
        let lc = chars_of(lower.as_str());
        match mode_from_name(&lc) {
            Some(m) => DesyncConfig::Single(m),
            None => DesyncConfig::Combined(owned(s)),
        }
    }

    /// The text of the configuration: the mode name, or the combination as written.
    pub fn to_string(&self) -> (r: String)
        ensures
            r@ == desync_text(self@),
    {
        match self {
            DesyncConfig::Single(m) => m.to_string(),
            DesyncConfig::Combined(s) => s.clone(),
        }
    }
}

impl From<&str> for DesyncConfig {
    /// Reads a desync string (see [`desync_choice`]).
    fn from(s: &str) -> (r: Self)
        ensures
            r@ == desync_choice(s@),
    {
        DesyncConfig::parse(s)
    }
}

/// `from` on a string has no spec-level constructor (a `String` cannot be
/// built in a specification), so the generic conversion law is switched off
/// and the `From` impls state their result through [`desync_choice`].
impl vstd::std_specs::convert::FromSpecImpl<&str> for DesyncConfig {
    open spec fn obeys_from_spec() -> bool {
        false
    }

    open spec fn from_spec(s: &str) -> DesyncConfig {
        DesyncConfig::Single(DesyncMode::Fake)
    }
}

impl From<String> for DesyncConfig {
    /// Reads a desync string (see [`desync_choice`]).
    fn from(s: String) -> (r: Self)
        ensures
            r@ == desync_choice(s@),
    {
        DesyncConfig::parse(s.as_str())
    }
}

/// See the `&str` conversion: the impl's own `ensures` states the result.
impl vstd::std_specs::convert::FromSpecImpl<String> for DesyncConfig {
    open spec fn obeys_from_spec() -> bool {
        false
    }

    open spec fn from_spec(s: String) -> DesyncConfig {
        DesyncConfig::Single(DesyncMode::Fake)
    }
}

/// Reading the text of a single mode gives that mode back: the names are
/// distinct, lowercase ASCII and hold no comma.
pub proof fn lemma_desync_single_roundtrip(m: DesyncMode)
    ensures
        desync_choice(desync_text(DesyncChoice::Single(m))) == DesyncChoice::Single(m),
{
    reveal_strlit("fake");
    reveal_strlit("fakeknown");
    reveal_strlit("synack");
    reveal_strlit("syndata");
    reveal_strlit("rst");
    reveal_strlit("rstack");
    reveal_strlit("hopbyhop");
    reveal_strlit("destopt");
    reveal_strlit("ipfrag1");
    reveal_strlit("ipfrag2");
    reveal_strlit("multisplit");
    reveal_strlit("multidisorder");
    reveal_strlit("fakedsplit");
    reveal_strlit("fakeddisorder");
    reveal_strlit("hostfakesplit");
    reveal_strlit("udplen");
    reveal_strlit("tamper");
    reveal_strlit("split");
    reveal_strlit("split2");
    reveal_strlit("disorder");
    reveal_strlit("disorder2");
    let n = mode_name(m);
    assert(crate::text::is_ascii_text(n));
    assert(n.map_values(|c: char| crate::text::ascii_lower_char(c)) =~= n);
    assert(!n.contains(','));
    match m {
        DesyncMode::Fake => {
            assert(mode_named("fake"@) == Some(DesyncMode::Fake));
        },
        DesyncMode::FakeKnown => {
            assert(mode_named("fakeknown"@) == Some(DesyncMode::FakeKnown));
        },
        DesyncMode::SynAck => {
            assert(mode_named("synack"@) == Some(DesyncMode::SynAck));
        },
        DesyncMode::SynData => {
            assert(mode_named("syndata"@) == Some(DesyncMode::SynData));
        },
        DesyncMode::Rst => {
            assert(mode_named("rst"@) == Some(DesyncMode::Rst));
        },
        DesyncMode::RstAck => {
            assert("rstack"@[0] != "synack"@[0]);
            assert(mode_named("rstack"@) == Some(DesyncMode::RstAck));
        },
        DesyncMode::HopByHop => {
            assert(mode_named("hopbyhop"@) == Some(DesyncMode::HopByHop));
        },
        DesyncMode::DestOpt => {
            assert("destopt"@[0] != "syndata"@[0]);
            assert(mode_named("destopt"@) == Some(DesyncMode::DestOpt));
        },
        DesyncMode::IpFrag1 => {
            assert("ipfrag1"@[0] != "syndata"@[0]);
            assert("ipfrag1"@[0] != "destopt"@[0]);
            assert(mode_named("ipfrag1"@) == Some(DesyncMode::IpFrag1));
        },
        DesyncMode::IpFrag2 => {
            assert("ipfrag2"@[0] != "syndata"@[0]);
            assert("ipfrag2"@[0] != "destopt"@[0]);
            assert("ipfrag2"@[6] != "ipfrag1"@[6]);
            assert(mode_named("ipfrag2"@) == Some(DesyncMode::IpFrag2));
        },
        DesyncMode::MultiSplit => {
            assert(mode_named("multisplit"@) == Some(DesyncMode::MultiSplit));
        },
        DesyncMode::MultiDisorder => {
            assert(mode_named("multidisorder"@) == Some(DesyncMode::MultiDisorder));
        },
        DesyncMode::FakedSplit => {
            assert("fakedsplit"@[0] != "multisplit"@[0]);
            assert(mode_named("fakedsplit"@) == Some(DesyncMode::FakedSplit));
        },
        DesyncMode::FakedDisorder => {
            assert("fakeddisorder"@[0] != "multidisorder"@[0]);
            assert(mode_named("fakeddisorder"@) == Some(DesyncMode::FakedDisorder));
        },
        DesyncMode::HostFakeSplit => {
            assert("hostfakesplit"@[0] != "multidisorder"@[0]);
            assert("hostfakesplit"@[0] != "fakeddisorder"@[0]);
            assert(mode_named("hostfakesplit"@) == Some(DesyncMode::HostFakeSplit));
        },
        DesyncMode::UdpLen => {
            assert("udplen"@[0] != "synack"@[0]);
            assert("udplen"@[0] != "rstack"@[0]);
            assert(mode_named("udplen"@) == Some(DesyncMode::UdpLen));
        },
        DesyncMode::Tamper => {
            assert("tamper"@[0] != "synack"@[0]);
            assert("tamper"@[0] != "rstack"@[0]);
            assert("tamper"@[0] != "udplen"@[0]);
            assert(mode_named("tamper"@) == Some(DesyncMode::Tamper));
        },
        DesyncMode::Split => {
            assert(mode_named("split"@) == Some(DesyncMode::Split));
        },
        DesyncMode::Split2 => {
            assert("split2"@[1] != "synack"@[1]);
            assert("split2"@[0] != "rstack"@[0]);
            assert("split2"@[0] != "udplen"@[0]);
            assert("split2"@[0] != "tamper"@[0]);
            assert(mode_named("split2"@) == Some(DesyncMode::Split2));
        },
        DesyncMode::Disorder => {
            assert("disorder"@[0] != "hopbyhop"@[0]);
            assert(mode_named("disorder"@) == Some(DesyncMode::Disorder));
        },
        DesyncMode::Disorder2 => {
            assert("disorder2"@[0] != "fakeknown"@[0]);
            assert(mode_named("disorder2"@) == Some(DesyncMode::Disorder2));
        },
    }
}

// ===========================================================================
// Argument segments
// ===========================================================================

/// Name for the display form of `Path::new(dir).join(file)`.
pub uninterp spec fn joined_path(dir: Seq<char>, file: Seq<char>) -> Seq<char>;

/// Calls `Path::join`: the display form of `file` joined to `dir`. It
/// depends on the two paths and on the separator of the platform the
/// program is built for, which is fixed for a build; the text is not stated
/// further.
#[verifier::external_body]
pub(crate) fn join_path(dir: &str, file: &str) -> (r: String)
    ensures
        r@ == joined_path(dir@, file@),
{
    std::path::Path::new(dir).join(file).display().to_string()
}

/// `[flag, value]` when the value is set.
pub open spec fn opt_seg(flag: Seq<char>, v: Option<String>) -> Seq<Seq<char>> {
    match v {
        Some(x) => seq![flag, x@],
        None => Seq::empty(),
    }
}

/// `[flag, dir/value]` when the value is set.
pub open spec fn path_seg(flag: Seq<char>, dir: Seq<char>, v: Option<String>) -> Seq<Seq<char>> {
    match v {
        Some(x) => seq![flag, joined_path(dir, x@)],
        None => Seq::empty(),
    }
}

/// `[flag, decimal value]` when the value is set.
pub open spec fn u32_seg(flag: Seq<char>, v: Option<u32>) -> Seq<Seq<char>> {
    match v {
        Some(x) => seq![flag, decimal(x as nat)],
        None => Seq::empty(),
    }
}

/// `[flag, decimal value]` when the value is set.
pub open spec fn u8_seg(flag: Seq<char>, v: Option<u8>) -> Seq<Seq<char>> {
    match v {
        Some(x) => seq![flag, decimal(x as nat)],
        None => Seq::empty(),
    }
}

/// `[flag, signed decimal value]` when the value is set.
pub open spec fn i64_seg(flag: Seq<char>, v: Option<i64>) -> Seq<Seq<char>> {
    match v {
        Some(x) => seq![flag, signed_decimal(x as int)],
        None => Seq::empty(),
    }
}

/// `[flag]` when the switch is set to `true`.
pub open spec fn flag_seg(flag: Seq<char>, v: Option<bool>) -> Seq<Seq<char>> {
    match v {
        Some(true) => seq![flag],
        _ => Seq::empty(),
    }
}

pub(crate) fn push2(args: &mut Vec<String>, a: String, b: String)
    ensures
        strings_view(final(args)@) == strings_view(old(args)@) + seq![a@, b@],
{
    let ghost a0 = args@;
    args.push(a);
    args.push(b);
    proof {
        assert(strings_view(args@) =~= strings_view(a0) + seq![a@, b@]);
    }
}

pub(crate) fn push_always(args: &mut Vec<String>, flag: &str, v: &String)
    ensures
        strings_view(final(args)@) == strings_view(old(args)@) + seq![flag@, v@],
{
    push2(args, owned(flag), v.clone());
}

pub(crate) fn push_opt_str(args: &mut Vec<String>, flag: &str, v: &Option<String>)
    ensures
        strings_view(final(args)@) == strings_view(old(args)@) + opt_seg(flag@, *v),
{
    match v {
        Some(x) => push2(args, owned(flag), x.clone()),
        None => {
            proof {
                assert(strings_view(args@) + Seq::<Seq<char>>::empty() =~= strings_view(args@));
            }
        },
    }
}

pub(crate) fn push_opt_path(args: &mut Vec<String>, flag: &str, dir: &str, v: &Option<String>)
    ensures
        strings_view(final(args)@) == strings_view(old(args)@) + path_seg(flag@, dir@, *v),
{
    match v {
        Some(x) => push2(args, owned(flag), join_path(dir, x.as_str())),
        None => {
            proof {
                assert(strings_view(args@) + Seq::<Seq<char>>::empty() =~= strings_view(args@));
            }
        },
    }
}

pub(crate) fn push_opt_u32(args: &mut Vec<String>, flag: &str, v: Option<u32>)
    ensures
        strings_view(final(args)@) == strings_view(old(args)@) + u32_seg(flag@, v),
{
    match v {
        Some(x) => push2(args, owned(flag), string_of(&u64_to_chars(x as u64))),
        None => {
            proof {
                assert(strings_view(args@) + Seq::<Seq<char>>::empty() =~= strings_view(args@));
            }
        },
    }
}

fn push_opt_u8(args: &mut Vec<String>, flag: &str, v: Option<u8>)
    ensures
        strings_view(final(args)@) == strings_view(old(args)@) + u8_seg(flag@, v),
{
    match v {
        Some(x) => push2(args, owned(flag), string_of(&u64_to_chars(x as u64))),
        None => {
            proof {
                assert(strings_view(args@) + Seq::<Seq<char>>::empty() =~= strings_view(args@));
            }
        },
    }
}

fn push_opt_i64(args: &mut Vec<String>, flag: &str, v: Option<i64>)
    ensures
        strings_view(final(args)@) == strings_view(old(args)@) + i64_seg(flag@, v),
{
    match v {
        Some(x) => push2(args, owned(flag), string_of(&i64_to_chars(x))),
        None => {
            proof {
                assert(strings_view(args@) + Seq::<Seq<char>>::empty() =~= strings_view(args@));
            }
        },
    }
}

fn push_flag_if(args: &mut Vec<String>, flag: &str, v: Option<bool>)
    ensures
        strings_view(final(args)@) == strings_view(old(args)@) + flag_seg(flag@, v),
{
    let ghost a0 = args@;
    match v {
        Some(true) => {
            args.push(owned(flag));
            proof {
                assert(strings_view(args@) =~= strings_view(a0) + seq![flag@]);
            }
        },
        _ => {
            proof {
                assert(strings_view(args@) + Seq::<Seq<char>>::empty() =~= strings_view(args@));
            }
        },
    }
}

// ===========================================================================
// Strategies
// ===========================================================================

/// One DPI bypass profile of a strategy.
pub struct StrategyProfile {
    /// WinDivert filter expression.
    pub filter: String,
    /// Hostlist file, relative to the hostlists directory.
    pub hostlist: Option<String>,
    /// Hostlist exclude file.
    pub hostlist_exclude: Option<String>,
    /// Inline hostlist domains (comma-separated).
    pub hostlist_domains: Option<String>,
    /// IP set file.
    pub ipset: Option<String>,
    /// IP set exclude file.
    pub ipset_exclude: Option<String>,
    /// L7 protocol filter.
    pub l7: Option<String>,
    /// IP identification field value.
    pub ip_id: Option<String>,
    /// Desync attack type.
    pub desync: String,
    /// Number of fake packet repeats.
    pub repeats: Option<u32>,
    /// Split sequence overlap.
    pub split_seqovl: Option<u32>,
    /// Split position.
    pub split_pos: Option<String>,
    /// Split sequence overlap pattern.
    pub split_seqovl_pattern: Option<String>,
    /// Fooling method.
    pub fooling: Option<String>,
    /// Fake TLS ClientHello file, relative to the blobs directory.
    pub fake_tls: Option<String>,
    /// Fake QUIC Initial file.
    pub fake_quic: Option<String>,
    /// Fake TLS modification mode.
    pub fake_tls_mod: Option<String>,
    /// Fake WireGuard file.
    pub fake_wireguard: Option<String>,
    /// Fake DHT file.
    pub fake_dht: Option<String>,
    /// Fake unknown-UDP file.
    pub fake_unknown_udp: Option<String>,
    /// Fake TCP modification mode.
    pub fake_tcp_mod: Option<String>,
    /// Fake syndata file.
    pub fake_syndata: Option<String>,
    /// TTL for desync packets (IPv4).
    pub ttl: Option<u8>,
    /// Hop limit for desync packets (IPv6).
    pub ttl6: Option<u8>,
    /// Auto TTL configuration.
    pub autottl: Option<String>,
    /// Bad sequence number increment.
    pub badseq_increment: Option<i64>,
    /// Bad acknowledgment number increment.
    pub badack_increment: Option<i64>,
    /// TCP timestamp increment.
    pub ts_increment: Option<i64>,
    /// Cutoff configuration.
    pub cutoff: Option<String>,
    /// Hostfakesplit modifier.
    pub hostfakesplit_mod: Option<String>,
    /// Hostfakesplit middle host.
    pub hostfakesplit_midhost: Option<String>,
    /// Fakedsplit modifier.
    pub fakedsplit_mod: Option<String>,
    /// Window size.
    pub wsize: Option<String>,
    /// Server window size.
    pub wssize: Option<String>,
    /// Cutoff for the server window size.
    pub wssize_cutoff: Option<String>,
    /// L3 filter (ipv4|ipv6).
    pub filter_l3: Option<String>,
    /// WiFi SSID filter.
    pub filter_ssid: Option<String>,
    /// NLM filter.
    pub nlm_filter: Option<String>,
    /// Packet duplication.
    pub dup: Option<bool>,
    /// Replace the original packet with its duplicate.
    pub dup_replace: Option<bool>,
    /// TTL for duplicate packets.
    pub dup_ttl: Option<u8>,
    /// Auto TTL for duplicate packets.
    pub dup_autottl: Option<String>,
    /// Fooling method for duplicate packets.
    pub dup_fooling: Option<String>,
    /// Start position for duplication.
    pub dup_start: Option<String>,
    /// Cutoff position for duplication.
    pub dup_cutoff: Option<String>,
    /// TTL for original packets.
    pub orig_ttl: Option<u8>,
    /// Auto TTL for original packets.
    pub orig_autottl: Option<String>,
    /// TCP flags set on original packets.
    pub orig_tcp_flags_set: Option<String>,
    /// TCP flags cleared on original packets.
    pub orig_tcp_flags_unset: Option<String>,
    /// Start of the original-packet modification range.
    pub orig_mod_start: Option<String>,
    /// End of the original-packet modification range.
    pub orig_mod_cutoff: Option<String>,
}

/// Arguments of the profile's options, part 1 of 9, in emission order.
pub open spec fn profile_args_1(p: StrategyProfile, hostlists: Seq<char>, blobs: Seq<char>) -> Seq<Seq<char>> {
    seq!["--filter"@, p.filter@]
        + path_seg("--hostlist"@, hostlists, p.hostlist)
        + path_seg("--hostlist-exclude"@, hostlists, p.hostlist_exclude)
        + opt_seg("--hostlist-domains"@, p.hostlist_domains)
        + path_seg("--ipset"@, hostlists, p.ipset)
}

/// Arguments of the profile's options, part 2 of 9, in emission order.
pub open spec fn profile_args_2(p: StrategyProfile, hostlists: Seq<char>, blobs: Seq<char>) -> Seq<Seq<char>> {
    path_seg("--ipset-exclude"@, hostlists, p.ipset_exclude)
        + opt_seg("--dpi-desync-l7"@, p.l7)
        + opt_seg("--dpi-desync-ipid"@, p.ip_id)
        + seq!["--dpi-desync"@, p.desync@]
        + u32_seg("--dpi-desync-repeats"@, p.repeats)
}

/// Arguments of the profile's options, part 3 of 9, in emission order.
pub open spec fn profile_args_3(p: StrategyProfile, hostlists: Seq<char>, blobs: Seq<char>) -> Seq<Seq<char>> {
    u32_seg("--dpi-desync-split-seqovl"@, p.split_seqovl)
        + opt_seg("--dpi-desync-split-pos"@, p.split_pos)
        + opt_seg("--dpi-desync-split-seqovl-pattern"@, p.split_seqovl_pattern)
        + opt_seg("--dpi-desync-fooling"@, p.fooling)
        + path_seg("--dpi-desync-fake-tls"@, blobs, p.fake_tls)
}

/// Arguments of the profile's options, part 4 of 9, in emission order.
pub open spec fn profile_args_4(p: StrategyProfile, hostlists: Seq<char>, blobs: Seq<char>) -> Seq<Seq<char>> {
    path_seg("--dpi-desync-fake-quic"@, blobs, p.fake_quic)
        + opt_seg("--dpi-desync-fake-tls-mod"@, p.fake_tls_mod)
        + path_seg("--dpi-desync-fake-wireguard"@, blobs, p.fake_wireguard)
        + path_seg("--dpi-desync-fake-dht"@, blobs, p.fake_dht)
        + path_seg("--dpi-desync-fake-unknown-udp"@, blobs, p.fake_unknown_udp)
}

/// Arguments of the profile's options, part 5 of 9, in emission order.
pub open spec fn profile_args_5(p: StrategyProfile, hostlists: Seq<char>, blobs: Seq<char>) -> Seq<Seq<char>> {
    opt_seg("--dpi-desync-fake-tcp-mod"@, p.fake_tcp_mod)
        + path_seg("--dpi-desync-fake-syndata"@, blobs, p.fake_syndata)
        + u8_seg("--dpi-desync-ttl"@, p.ttl)
        + u8_seg("--dpi-desync-ttl6"@, p.ttl6)
        + opt_seg("--dpi-desync-autottl"@, p.autottl)
}

/// Arguments of the profile's options, part 6 of 9, in emission order.
pub open spec fn profile_args_6(p: StrategyProfile, hostlists: Seq<char>, blobs: Seq<char>) -> Seq<Seq<char>> {
    i64_seg("--dpi-desync-badseq-increment"@, p.badseq_increment)
        + i64_seg("--dpi-desync-badack-increment"@, p.badack_increment)
        + i64_seg("--dpi-desync-ts-increment"@, p.ts_increment)
        + opt_seg("--dpi-desync-cutoff"@, p.cutoff)
        + opt_seg("--dpi-desync-hostfakesplit-mod"@, p.hostfakesplit_mod)
}

/// Arguments of the profile's options, part 7 of 9, in emission order.
pub open spec fn profile_args_7(p: StrategyProfile, hostlists: Seq<char>, blobs: Seq<char>) -> Seq<Seq<char>> {
    opt_seg("--dpi-desync-hostfakesplit-midhost"@, p.hostfakesplit_midhost)
        + opt_seg("--dpi-desync-fakedsplit-mod"@, p.fakedsplit_mod)
        + opt_seg("--wsize"@, p.wsize)
        + opt_seg("--wssize"@, p.wssize)
        + opt_seg("--wssize-cutoff"@, p.wssize_cutoff)
}

/// Arguments of the profile's options, part 8 of 9, in emission order.
pub open spec fn profile_args_8(p: StrategyProfile, hostlists: Seq<char>, blobs: Seq<char>) -> Seq<Seq<char>> {
    opt_seg("--filter-l3"@, p.filter_l3)
        + opt_seg("--filter-ssid"@, p.filter_ssid)
        + opt_seg("--nlm-filter"@, p.nlm_filter)
        + flag_seg("--dpi-desync-dup"@, p.dup)
        + flag_seg("--dpi-desync-dup-replace"@, p.dup_replace)
}

/// Arguments of the profile's options, part 9 of 9, in emission order.
pub open spec fn profile_args_9(p: StrategyProfile, hostlists: Seq<char>, blobs: Seq<char>) -> Seq<Seq<char>> {
    u8_seg("--dpi-desync-dup-ttl"@, p.dup_ttl)
        + opt_seg("--dpi-desync-dup-autottl"@, p.dup_autottl)
        + opt_seg("--dpi-desync-dup-fooling"@, p.dup_fooling)
        + opt_seg("--dpi-desync-dup-start"@, p.dup_start)
        + opt_seg("--dpi-desync-dup-cutoff"@, p.dup_cutoff)
}

/// The winws arguments of one profile: each option that is set gives its
/// flag and value (paths joined to their directory), a `true` duplication
/// switch gives its flag alone, and the original-packet options give none.
pub open spec fn profile_args(p: StrategyProfile, hostlists: Seq<char>, blobs: Seq<char>) -> Seq<Seq<char>> {
    profile_args_1(p, hostlists, blobs)
        + profile_args_2(p, hostlists, blobs)
        + profile_args_3(p, hostlists, blobs)
        + profile_args_4(p, hostlists, blobs)
        + profile_args_5(p, hostlists, blobs)
        + profile_args_6(p, hostlists, blobs)
        + profile_args_7(p, hostlists, blobs)
        + profile_args_8(p, hostlists, blobs)
        + profile_args_9(p, hostlists, blobs)
}

fn push_profile_args_1(args: &mut Vec<String>, p: &StrategyProfile, hostlists_dir: &str, blobs_dir: &str)
    ensures
        strings_view(final(args)@) == strings_view(old(args)@) + profile_args_1(*p, hostlists_dir@, blobs_dir@),
{
    let ghost a0 = strings_view(args@);
    push_always(args, "--filter", &p.filter);
    push_opt_path(args, "--hostlist", hostlists_dir, &p.hostlist);
    push_opt_path(args, "--hostlist-exclude", hostlists_dir, &p.hostlist_exclude);
    push_opt_str(args, "--hostlist-domains", &p.hostlist_domains);
    push_opt_path(args, "--ipset", hostlists_dir, &p.ipset);
    proof {
        assert(strings_view(args@) =~= a0 + (seq!["--filter"@, (*p).filter@]
            + path_seg("--hostlist"@, hostlists_dir@, (*p).hostlist)
            + path_seg("--hostlist-exclude"@, hostlists_dir@, (*p).hostlist_exclude)
            + opt_seg("--hostlist-domains"@, (*p).hostlist_domains)
            + path_seg("--ipset"@, hostlists_dir@, (*p).ipset)));
    }
}

fn push_profile_args_2(args: &mut Vec<String>, p: &StrategyProfile, hostlists_dir: &str, blobs_dir: &str)
    ensures
        strings_view(final(args)@) == strings_view(old(args)@) + profile_args_2(*p, hostlists_dir@, blobs_dir@),
{
    let ghost a0 = strings_view(args@);
    push_opt_path(args, "--ipset-exclude", hostlists_dir, &p.ipset_exclude);
    push_opt_str(args, "--dpi-desync-l7", &p.l7);
    push_opt_str(args, "--dpi-desync-ipid", &p.ip_id);
    push_always(args, "--dpi-desync", &p.desync);
    push_opt_u32(args, "--dpi-desync-repeats", p.repeats);
    proof {
        assert(strings_view(args@) =~= a0 + (path_seg("--ipset-exclude"@, hostlists_dir@, (*p).ipset_exclude)
            + opt_seg("--dpi-desync-l7"@, (*p).l7)
            + opt_seg("--dpi-desync-ipid"@, (*p).ip_id)
            + seq!["--dpi-desync"@, (*p).desync@]
            + u32_seg("--dpi-desync-repeats"@, (*p).repeats)));
    }
}

fn push_profile_args_3(args: &mut Vec<String>, p: &StrategyProfile, hostlists_dir: &str, blobs_dir: &str)
    ensures
        strings_view(final(args)@) == strings_view(old(args)@) + profile_args_3(*p, hostlists_dir@, blobs_dir@),
{
    let ghost a0 = strings_view(args@);
    push_opt_u32(args, "--dpi-desync-split-seqovl", p.split_seqovl);
    push_opt_str(args, "--dpi-desync-split-pos", &p.split_pos);
    push_opt_str(args, "--dpi-desync-split-seqovl-pattern", &p.split_seqovl_pattern);
    push_opt_str(args, "--dpi-desync-fooling", &p.fooling);
    push_opt_path(args, "--dpi-desync-fake-tls", blobs_dir, &p.fake_tls);
    proof {
        assert(strings_view(args@) =~= a0 + (u32_seg("--dpi-desync-split-seqovl"@, (*p).split_seqovl)
            + opt_seg("--dpi-desync-split-pos"@, (*p).split_pos)
            + opt_seg("--dpi-desync-split-seqovl-pattern"@, (*p).split_seqovl_pattern)
            + opt_seg("--dpi-desync-fooling"@, (*p).fooling)
            + path_seg("--dpi-desync-fake-tls"@, blobs_dir@, (*p).fake_tls)));
    }
}

fn push_profile_args_4(args: &mut Vec<String>, p: &StrategyProfile, hostlists_dir: &str, blobs_dir: &str)
    ensures
        strings_view(final(args)@) == strings_view(old(args)@) + profile_args_4(*p, hostlists_dir@, blobs_dir@),
{
    let ghost a0 = strings_view(args@);
    push_opt_path(args, "--dpi-desync-fake-quic", blobs_dir, &p.fake_quic);
    push_opt_str(args, "--dpi-desync-fake-tls-mod", &p.fake_tls_mod);
    push_opt_path(args, "--dpi-desync-fake-wireguard", blobs_dir, &p.fake_wireguard);
    push_opt_path(args, "--dpi-desync-fake-dht", blobs_dir, &p.fake_dht);
    push_opt_path(args, "--dpi-desync-fake-unknown-udp", blobs_dir, &p.fake_unknown_udp);
    proof {
        assert(strings_view(args@) =~= a0 + (path_seg("--dpi-desync-fake-quic"@, blobs_dir@, (*p).fake_quic)
            + opt_seg("--dpi-desync-fake-tls-mod"@, (*p).fake_tls_mod)
            + path_seg("--dpi-desync-fake-wireguard"@, blobs_dir@, (*p).fake_wireguard)
            + path_seg("--dpi-desync-fake-dht"@, blobs_dir@, (*p).fake_dht)
            + path_seg("--dpi-desync-fake-unknown-udp"@, blobs_dir@, (*p).fake_unknown_udp)));
    }
}

fn push_profile_args_5(args: &mut Vec<String>, p: &StrategyProfile, hostlists_dir: &str, blobs_dir: &str)
    ensures
        strings_view(final(args)@) == strings_view(old(args)@) + profile_args_5(*p, hostlists_dir@, blobs_dir@),
{
    let ghost a0 = strings_view(args@);
    push_opt_str(args, "--dpi-desync-fake-tcp-mod", &p.fake_tcp_mod);
    push_opt_path(args, "--dpi-desync-fake-syndata", blobs_dir, &p.fake_syndata);
    push_opt_u8(args, "--dpi-desync-ttl", p.ttl);
    push_opt_u8(args, "--dpi-desync-ttl6", p.ttl6);
    push_opt_str(args, "--dpi-desync-autottl", &p.autottl);
    proof {
        assert(strings_view(args@) =~= a0 + (opt_seg("--dpi-desync-fake-tcp-mod"@, (*p).fake_tcp_mod)
            + path_seg("--dpi-desync-fake-syndata"@, blobs_dir@, (*p).fake_syndata)
            + u8_seg("--dpi-desync-ttl"@, (*p).ttl)
            + u8_seg("--dpi-desync-ttl6"@, (*p).ttl6)
            + opt_seg("--dpi-desync-autottl"@, (*p).autottl)));
    }
}

fn push_profile_args_6(args: &mut Vec<String>, p: &StrategyProfile, hostlists_dir: &str, blobs_dir: &str)
    ensures
        strings_view(final(args)@) == strings_view(old(args)@) + profile_args_6(*p, hostlists_dir@, blobs_dir@),
{
    let ghost a0 = strings_view(args@);
    push_opt_i64(args, "--dpi-desync-badseq-increment", p.badseq_increment);
    push_opt_i64(args, "--dpi-desync-badack-increment", p.badack_increment);
    push_opt_i64(args, "--dpi-desync-ts-increment", p.ts_increment);
    push_opt_str(args, "--dpi-desync-cutoff", &p.cutoff);
    push_opt_str(args, "--dpi-desync-hostfakesplit-mod", &p.hostfakesplit_mod);
    proof {
        assert(strings_view(args@) =~= a0 + (i64_seg("--dpi-desync-badseq-increment"@, (*p).badseq_increment)
            + i64_seg("--dpi-desync-badack-increment"@, (*p).badack_increment)
            + i64_seg("--dpi-desync-ts-increment"@, (*p).ts_increment)
            + opt_seg("--dpi-desync-cutoff"@, (*p).cutoff)
            + opt_seg("--dpi-desync-hostfakesplit-mod"@, (*p).hostfakesplit_mod)));
    }
}

fn push_profile_args_7(args: &mut Vec<String>, p: &StrategyProfile, hostlists_dir: &str, blobs_dir: &str)
    ensures
        strings_view(final(args)@) == strings_view(old(args)@) + profile_args_7(*p, hostlists_dir@, blobs_dir@),
{
    let ghost a0 = strings_view(args@);
    push_opt_str(args, "--dpi-desync-hostfakesplit-midhost", &p.hostfakesplit_midhost);
    push_opt_str(args, "--dpi-desync-fakedsplit-mod", &p.fakedsplit_mod);
    push_opt_str(args, "--wsize", &p.wsize);
    push_opt_str(args, "--wssize", &p.wssize);
    push_opt_str(args, "--wssize-cutoff", &p.wssize_cutoff);
    proof {
        assert(strings_view(args@) =~= a0 + (opt_seg("--dpi-desync-hostfakesplit-midhost"@, (*p).hostfakesplit_midhost)
            + opt_seg("--dpi-desync-fakedsplit-mod"@, (*p).fakedsplit_mod)
            + opt_seg("--wsize"@, (*p).wsize)
            + opt_seg("--wssize"@, (*p).wssize)
            + opt_seg("--wssize-cutoff"@, (*p).wssize_cutoff)));
    }
}

fn push_profile_args_8(args: &mut Vec<String>, p: &StrategyProfile, hostlists_dir: &str, blobs_dir: &str)
    ensures
        strings_view(final(args)@) == strings_view(old(args)@) + profile_args_8(*p, hostlists_dir@, blobs_dir@),
{
    let ghost a0 = strings_view(args@);
    push_opt_str(args, "--filter-l3", &p.filter_l3);
    push_opt_str(args, "--filter-ssid", &p.filter_ssid);
    push_opt_str(args, "--nlm-filter", &p.nlm_filter);
    push_flag_if(args, "--dpi-desync-dup", p.dup);
    push_flag_if(args, "--dpi-desync-dup-replace", p.dup_replace);
    proof {
        assert(strings_view(args@) =~= a0 + (opt_seg("--filter-l3"@, (*p).filter_l3)
            + opt_seg("--filter-ssid"@, (*p).filter_ssid)
            + opt_seg("--nlm-filter"@, (*p).nlm_filter)
            + flag_seg("--dpi-desync-dup"@, (*p).dup)
            + flag_seg("--dpi-desync-dup-replace"@, (*p).dup_replace)));
    }
}

fn push_profile_args_9(args: &mut Vec<String>, p: &StrategyProfile, hostlists_dir: &str, blobs_dir: &str)
    ensures
        strings_view(final(args)@) == strings_view(old(args)@) + profile_args_9(*p, hostlists_dir@, blobs_dir@),
{
    let ghost a0 = strings_view(args@);
    push_opt_u8(args, "--dpi-desync-dup-ttl", p.dup_ttl);
    push_opt_str(args, "--dpi-desync-dup-autottl", &p.dup_autottl);
    push_opt_str(args, "--dpi-desync-dup-fooling", &p.dup_fooling);
    push_opt_str(args, "--dpi-desync-dup-start", &p.dup_start);
    push_opt_str(args, "--dpi-desync-dup-cutoff", &p.dup_cutoff);
    proof {
        assert(strings_view(args@) =~= a0 + (u8_seg("--dpi-desync-dup-ttl"@, (*p).dup_ttl)
            + opt_seg("--dpi-desync-dup-autottl"@, (*p).dup_autottl)
            + opt_seg("--dpi-desync-dup-fooling"@, (*p).dup_fooling)
            + opt_seg("--dpi-desync-dup-start"@, (*p).dup_start)
            + opt_seg("--dpi-desync-dup-cutoff"@, (*p).dup_cutoff)));
    }
}

pub(crate) fn clone_opt_string(o: &Option<String>) -> (r: Option<String>)
    ensures
        r == *o,
{
    match o {
        Some(s) => Some(s.clone()),
        None => None,
    }
}

impl Clone for StrategyProfile {
    fn clone(&self) -> (r: Self)
        ensures
            r == *self,
    {
        StrategyProfile {
            filter: self.filter.clone(),
            hostlist: clone_opt_string(&self.hostlist),
            hostlist_exclude: clone_opt_string(&self.hostlist_exclude),
            hostlist_domains: clone_opt_string(&self.hostlist_domains),
            ipset: clone_opt_string(&self.ipset),
            ipset_exclude: clone_opt_string(&self.ipset_exclude),
            l7: clone_opt_string(&self.l7),
            ip_id: clone_opt_string(&self.ip_id),
            desync: self.desync.clone(),
            repeats: self.repeats,
            split_seqovl: self.split_seqovl,
            split_pos: clone_opt_string(&self.split_pos),
            split_seqovl_pattern: clone_opt_string(&self.split_seqovl_pattern),
            fooling: clone_opt_string(&self.fooling),
            fake_tls: clone_opt_string(&self.fake_tls),
            fake_quic: clone_opt_string(&self.fake_quic),
            fake_tls_mod: clone_opt_string(&self.fake_tls_mod),
            fake_wireguard: clone_opt_string(&self.fake_wireguard),
            fake_dht: clone_opt_string(&self.fake_dht),
            fake_unknown_udp: clone_opt_string(&self.fake_unknown_udp),
            fake_tcp_mod: clone_opt_string(&self.fake_tcp_mod),
            fake_syndata: clone_opt_string(&self.fake_syndata),
            ttl: self.ttl,
            ttl6: self.ttl6,
            autottl: clone_opt_string(&self.autottl),
            badseq_increment: self.badseq_increment,
            badack_increment: self.badack_increment,
            ts_increment: self.ts_increment,
            cutoff: clone_opt_string(&self.cutoff),
            hostfakesplit_mod: clone_opt_string(&self.hostfakesplit_mod),
            hostfakesplit_midhost: clone_opt_string(&self.hostfakesplit_midhost),
            fakedsplit_mod: clone_opt_string(&self.fakedsplit_mod),
            wsize: clone_opt_string(&self.wsize),
            wssize: clone_opt_string(&self.wssize),
            wssize_cutoff: clone_opt_string(&self.wssize_cutoff),
            filter_l3: clone_opt_string(&self.filter_l3),
            filter_ssid: clone_opt_string(&self.filter_ssid),
            nlm_filter: clone_opt_string(&self.nlm_filter),
            dup: self.dup,
            dup_replace: self.dup_replace,
            dup_ttl: self.dup_ttl,
            dup_autottl: clone_opt_string(&self.dup_autottl),
            dup_fooling: clone_opt_string(&self.dup_fooling),
            dup_start: clone_opt_string(&self.dup_start),
            dup_cutoff: clone_opt_string(&self.dup_cutoff),
            orig_ttl: self.orig_ttl,
            orig_autottl: clone_opt_string(&self.orig_autottl),
            orig_tcp_flags_set: clone_opt_string(&self.orig_tcp_flags_set),
            orig_tcp_flags_unset: clone_opt_string(&self.orig_tcp_flags_unset),
            orig_mod_start: clone_opt_string(&self.orig_mod_start),
            orig_mod_cutoff: clone_opt_string(&self.orig_mod_cutoff),
        }
    }
}

/// Port filters of a strategy.
pub struct StrategyPorts {
    /// TCP port filter (such as `"80,443"`).
    pub tcp: Option<String>,
    /// UDP port filter (such as `"443,50000-50100"`).
    pub udp: Option<String>,
}

impl StrategyPorts {
    /// No port filters.
    pub fn default() -> (r: Self)
        ensures
            r.tcp is None,
            r.udp is None,
    {
        StrategyPorts { tcp: None, udp: None }
    }
}

impl Clone for StrategyPorts {
    fn clone(&self) -> (r: Self)
        ensures
            r == *self,
    {
        StrategyPorts { tcp: clone_opt_string(&self.tcp), udp: clone_opt_string(&self.udp) }
    }
}

/// A strategy definition as found in a JSON strategy file.
pub struct JsonStrategy {
    /// Unique identifier.
    pub id: String,
    /// Human-readable name.
    pub name: String,
    /// Description.
    pub description: String,
    /// Category.
    pub category: StrategyCategory,
    /// Strategy family (zapret, vless, ...).
    pub family: String,
    /// Author.
    pub author: Option<String>,
    /// Label for the UI.
    pub label: Option<String>,
    /// Port filters.
    pub ports: StrategyPorts,
    /// DPI bypass profiles.
    pub profiles: Vec<StrategyProfile>,
}

/// Model of a [`JsonStrategy`]: the profile list seen as a sequence.
pub struct JsonStrategyView {
    pub id: String,
    pub name: String,
    pub description: String,
    pub category: StrategyCategory,
    pub family: String,
    pub author: Option<String>,
    pub label: Option<String>,
    pub ports: StrategyPorts,
    pub profiles: Seq<StrategyProfile>,
}

impl View for JsonStrategy {
    type V = JsonStrategyView;

    open spec fn view(&self) -> JsonStrategyView {
        JsonStrategyView {
            id: self.id,
            name: self.name,
            description: self.description,
            category: self.category,
            family: self.family,
            author: self.author,
            label: self.label,
            ports: self.ports,
            profiles: self.profiles@,
        }
    }
}

/// A list of strategies by their models.
pub open spec fn strategies_view(v: Seq<JsonStrategy>) -> Seq<JsonStrategyView> {
    v.map_values(|s: JsonStrategy| s@)
}

fn clone_profiles(v: &Vec<StrategyProfile>) -> (r: Vec<StrategyProfile>)
    ensures
        r@ == v@,
{
    let mut r: Vec<StrategyProfile> = Vec::new();
    let mut i: usize = 0;
    while i < v.len()
        invariant
            i <= v@.len(),
            r@ == v@.take(i as int),
        decreases v@.len() - i,
    {
        r.push(v[i].clone());
        proof {
            assert(v@.take(i as int + 1) =~= v@.take(i as int).push(v@[i as int]));
        }
        i = i + 1;
    }
    proof {
        assert(v@.take(i as int) =~= v@);
    }
    r
}

impl Clone for JsonStrategy {
    fn clone(&self) -> (r: Self)
        ensures
            r@ == self@,
    {
        let profiles = clone_profiles(&self.profiles);
        JsonStrategy {
            id: self.id.clone(),
            name: self.name.clone(),
            description: self.description.clone(),
            category: self.category,
            family: self.family.clone(),
            author: clone_opt_string(&self.author),
            label: clone_opt_string(&self.label),
            ports: self.ports.clone(),
            profiles,
        }
    }
}

/// Root of a JSON strategy file.
pub struct StrategyFile {
    /// File format version.
    pub version: String,
    /// Strategies in the file.
    pub strategies: Vec<JsonStrategy>,
}

/// Port filter arguments of a strategy.
pub open spec fn ports_args(ports: StrategyPorts) -> Seq<Seq<char>> {
    opt_seg("--wf-tcp"@, ports.tcp) + opt_seg("--wf-udp"@, ports.udp)
}

/// Arguments of a list of profiles, separated by `--new`.
pub open spec fn profiles_args(ps: Seq<StrategyProfile>, hostlists: Seq<char>, blobs: Seq<char>) -> Seq<Seq<char>>
    decreases ps.len(),
{
    if ps.len() == 0 {
        Seq::empty()
    } else if ps.len() == 1 {
        profile_args(ps[0], hostlists, blobs)
    } else {
        profiles_args(ps.drop_last(), hostlists, blobs) + seq!["--new"@] + profile_args(
            ps.last(),
            hostlists,
            blobs,
        )
    }
}

/// The winws command line of a strategy: its port filters, then its
/// profiles separated by `--new`.
pub open spec fn winws_args(s: JsonStrategy, hostlists: Seq<char>, blobs: Seq<char>) -> Seq<Seq<char>> {
    ports_args(s.ports) + profiles_args(s.profiles@, hostlists, blobs)
}

/// The strategies of one category, in order.
pub open spec fn of_category(ss: Seq<JsonStrategyView>, c: StrategyCategory) -> Seq<JsonStrategyView>
    decreases ss.len(),
{
    if ss.len() == 0 {
        Seq::empty()
    } else if ss.last().category == c {
        of_category(ss.drop_last(), c).push(ss.last())
    } else {
        of_category(ss.drop_last(), c)
    }
}

/// Filtering by category keeps exactly the strategies of that category:
/// every kept strategy has it, and no strategy of it is dropped.
pub proof fn lemma_of_category_exact(ss: Seq<JsonStrategyView>, c: StrategyCategory)
    ensures
        forall|i: int| 0 <= i < of_category(ss, c).len() ==> #[trigger] of_category(ss, c)[i].category == c,
        forall|x: JsonStrategyView| ss.contains(x) && x.category == c ==> of_category(ss, c).contains(x),
    decreases ss.len(),
{
    broadcast use vstd::seq_lib::group_seq_properties;

    if ss.len() > 0 {
        let t = ss.drop_last();
        lemma_of_category_exact(t, c);
        assert(ss =~= t.push(ss.last()));
        let r = of_category(ss, c);
        let rt = of_category(t, c);
        assert forall|i: int| 0 <= i < r.len() implies #[trigger] r[i].category == c by {
            if i < rt.len() {
                assert(r[i] == rt[i]);
            }
        }
    }
}

/// Appends the arguments of one profile.
pub fn push_profile_args(args: &mut Vec<String>, p: &StrategyProfile, hostlists_dir: &str, blobs_dir: &str)
    ensures
        strings_view(final(args)@) == strings_view(old(args)@) + profile_args(*p, hostlists_dir@, blobs_dir@),
{
    let ghost a0 = strings_view(args@);
    push_profile_args_1(args, p, hostlists_dir, blobs_dir);
    push_profile_args_2(args, p, hostlists_dir, blobs_dir);
    push_profile_args_3(args, p, hostlists_dir, blobs_dir);
    push_profile_args_4(args, p, hostlists_dir, blobs_dir);
    push_profile_args_5(args, p, hostlists_dir, blobs_dir);
    push_profile_args_6(args, p, hostlists_dir, blobs_dir);
    push_profile_args_7(args, p, hostlists_dir, blobs_dir);
    push_profile_args_8(args, p, hostlists_dir, blobs_dir);
    push_profile_args_9(args, p, hostlists_dir, blobs_dir);
    proof {
        let h = hostlists_dir@;
        let b = blobs_dir@;
        assert(strings_view(args@) =~= a0 + (profile_args_1(*p, h, b) + profile_args_2(*p, h, b) + profile_args_3(*p, h, b) + profile_args_4(*p, h, b) + profile_args_5(*p, h, b) + profile_args_6(*p, h, b) + profile_args_7(*p, h, b) + profile_args_8(*p, h, b) + profile_args_9(*p, h, b)));
    }
}

/// Loader of JSON strategy files from a directory (reading the files is
/// done by the application).
pub struct StrategyLoader {
    /// Directory holding the strategy files.
    pub strategies_dir: String,
}

impl StrategyLoader {
    /// A loader for the given directory.
    pub fn new(strategies_dir: &str) -> (r: Self)
        ensures
            r.strategies_dir@ == strategies_dir@,
    {
        StrategyLoader { strategies_dir: owned(strategies_dir) }
    }

    /// The strategies of the given category, in their order.
    pub fn filter_by_category(&self, strategies: &[JsonStrategy], category: StrategyCategory) -> (r:
        Vec<JsonStrategy>)
        ensures
            strategies_view(r@) == of_category(strategies_view(strategies@), category),
    {
        let ghost sv = strategies_view(strategies@);
        let mut r: Vec<JsonStrategy> = Vec::new();
        let mut i: usize = 0;
        proof {
            assert(strategies_view(r@) =~= Seq::<JsonStrategyView>::empty());
        }
        while i < strategies.len()
            invariant
                sv == strategies_view(strategies@),
                i <= strategies@.len(),
                strategies_view(r@) == of_category(sv.take(i as int), category),
            decreases strategies@.len() - i,
        {
            proof {
                assert(sv.take(i as int + 1).drop_last() =~= sv.take(i as int));
                assert(sv.take(i as int + 1).last() == strategies@[i as int]@);
            }
            if strategies[i].category == category {
                let ghost before = r@;
                r.push(strategies[i].clone());
                proof {
                    assert(strategies_view(r@) =~= strategies_view(before).push(strategies@[i as int]@));
                }
            }
            i = i + 1;
        }
        proof {
            assert(sv.take(i as int) =~= sv);
        }
        r
    }

    /// The winws arguments of a strategy (see [`winws_args`]); generation
    /// always succeeds.
    pub fn to_winws_args(&self, strategy: &JsonStrategy, hostlists_dir: &str, blobs_dir: &str) -> (r:
        Result<Vec<String>, crate::error::IsolateError>)
        ensures
            r matches Ok(v) && strings_view(v@) == winws_args(*strategy, hostlists_dir@, blobs_dir@),
    {
        let mut args: Vec<String> = Vec::new();
        proof {
            assert(strings_view(args@) =~= Seq::<Seq<char>>::empty());
        }
        push_opt_str(&mut args, "--wf-tcp", &strategy.ports.tcp);
        push_opt_str(&mut args, "--wf-udp", &strategy.ports.udp);
        proof {
            assert(strings_view(args@) =~= ports_args(strategy.ports));
        }
        let ghost base = strings_view(args@);
        let mut i: usize = 0;
        proof {
            assert(base + profiles_args(strategy.profiles@.take(0), hostlists_dir@, blobs_dir@) =~= base);
        }
        while i < strategy.profiles.len()
            invariant
                i <= strategy.profiles@.len(),
                strings_view(args@) == base + profiles_args(
                    strategy.profiles@.take(i as int),
                    hostlists_dir@,
                    blobs_dir@,
                ),
            decreases strategy.profiles@.len() - i,
        {
            let ghost before = strings_view(args@);
            proof {
                let t = strategy.profiles@.take(i as int + 1);
                assert(t.drop_last() =~= strategy.profiles@.take(i as int));
                assert(t.last() == strategy.profiles@[i as int]);
                if i == 0 {
                    assert(t[0] == strategy.profiles@[0]);
                }
            }
            if i > 0 {
                args.push(owned("--new"));
            }
            push_profile_args(&mut args, &strategy.profiles[i], hostlists_dir, blobs_dir);
            proof {
                let pa = profile_args(strategy.profiles@[i as int], hostlists_dir@, blobs_dir@);
                if i > 0 {
                    assert(strings_view(args@) =~= before + seq!["--new"@] + pa);
                } else {
                    assert(strings_view(args@) =~= before + pa);
                }
            }
            i = i + 1;
        }
        proof {
            assert(strategy.profiles@.take(i as int) =~= strategy.profiles@);
        }
        Ok(args)
    }

    /// Appends the arguments of one profile (see [`profile_args`]); this
    /// always succeeds.
    pub fn add_profile_args(
        &self,
        args: &mut Vec<String>,
        profile: &StrategyProfile,
        hostlists_dir: &str,
        blobs_dir: &str,
    ) -> (r: Result<(), crate::error::IsolateError>)
        ensures
            r is Ok,
            strings_view(final(args)@) == strings_view(old(args)@) + profile_args(
                *profile,
                hostlists_dir@,
                blobs_dir@,
            ),
    {
        push_profile_args(args, profile, hostlists_dir, blobs_dir);
        Ok(())
    }
}

// ===========================================================================
// What a command line carries
// ===========================================================================

/// `flag` stands somewhere in `args` immediately followed by `value`.
pub open spec fn flag_then(args: Seq<Seq<char>>, flag: Seq<char>, value: Seq<char>) -> bool {
    exists|i: int| 0 <= i && i + 1 < args.len() && #[trigger] args[i] == flag && args[i + 1] == value
}

/// `flag` stands somewhere in `args`.
pub open spec fn has_arg(args: Seq<Seq<char>>, flag: Seq<char>) -> bool {
    exists|i: int| 0 <= i < args.len() && #[trigger] args[i] == flag
}

proof fn lemma_flag_then_concat(a: Seq<Seq<char>>, c: Seq<Seq<char>>, f: Seq<char>, v: Seq<char>)
    ensures
        (flag_then(a, f, v) || flag_then(c, f, v)) ==> flag_then(a + c, f, v),
        (has_arg(a, f) || has_arg(c, f)) ==> has_arg(a + c, f),
{
    if flag_then(a, f, v) {
        let i = choose|i: int| 0 <= i && i + 1 < a.len() && #[trigger] a[i] == f && a[i + 1] == v;
        assert((a + c)[i] == a[i]);
        assert((a + c)[i + 1] == a[i + 1]);
    } else if flag_then(c, f, v) {
        let i = choose|i: int| 0 <= i && i + 1 < c.len() && #[trigger] c[i] == f && c[i + 1] == v;
        assert((a + c)[i + a.len()] == c[i]);
        assert((a + c)[i + 1 + a.len()] == c[i + 1]);
    }
    if has_arg(a, f) {
        let i = choose|i: int| 0 <= i < a.len() && #[trigger] a[i] == f;
        assert((a + c)[i] == a[i]);
    } else if has_arg(c, f) {
        let i = choose|i: int| 0 <= i < c.len() && #[trigger] c[i] == f;
        assert((a + c)[i + a.len()] == c[i]);
    }
}

/// Rules for finding an option in a command line built from segments.
pub(crate) proof fn lemma_segment_rules()
    ensures
        forall|a: Seq<Seq<char>>, c: Seq<Seq<char>>, f: Seq<char>, v: Seq<char>|
            (flag_then(a, f, v) || flag_then(c, f, v)) ==> #[trigger] flag_then(a + c, f, v),
        forall|a: Seq<Seq<char>>, c: Seq<Seq<char>>, f: Seq<char>|
            (has_arg(a, f) || has_arg(c, f)) ==> #[trigger] has_arg(a + c, f),
        forall|f: Seq<char>, o: Option<String>|
            o is Some ==> #[trigger] flag_then(opt_seg(f, o), f, o->0@),
        forall|f: Seq<char>, d: Seq<char>, o: Option<String>|
            o is Some ==> #[trigger] flag_then(path_seg(f, d, o), f, joined_path(d, o->0@)),
        forall|f: Seq<char>, o: Option<u32>|
            o is Some ==> #[trigger] flag_then(u32_seg(f, o), f, decimal(o->0 as nat)),
        forall|f: Seq<char>, o: Option<u8>|
            o is Some ==> #[trigger] flag_then(u8_seg(f, o), f, decimal(o->0 as nat)),
        forall|f: Seq<char>, o: Option<i64>|
            o is Some ==> #[trigger] flag_then(i64_seg(f, o), f, signed_decimal(o->0 as int)),
        forall|f: Seq<char>, o: Option<bool>|
            o == Some(true) ==> #[trigger] has_arg(flag_seg(f, o), f),
{
    assert forall|a: Seq<Seq<char>>, c: Seq<Seq<char>>, f: Seq<char>, v: Seq<char>|
        (flag_then(a, f, v) || flag_then(c, f, v)) implies #[trigger] flag_then(a + c, f, v) by {
        lemma_flag_then_concat(a, c, f, v);
    }
    assert forall|a: Seq<Seq<char>>, c: Seq<Seq<char>>, f: Seq<char>|
        (has_arg(a, f) || has_arg(c, f)) implies #[trigger] has_arg(a + c, f) by {
        lemma_flag_then_concat(a, c, f, Seq::empty());
    }
    assert forall|f: Seq<char>, o: Option<String>|
        o is Some implies #[trigger] flag_then(opt_seg(f, o), f, o->0@) by {
        assert(opt_seg(f, o)[0] == f);
        assert(opt_seg(f, o)[1] == o->0@);
    }
    assert forall|f: Seq<char>, d: Seq<char>, o: Option<String>|
        o is Some implies #[trigger] flag_then(path_seg(f, d, o), f, joined_path(d, o->0@)) by {
        assert(path_seg(f, d, o)[0] == f);
    }
    assert forall|f: Seq<char>, o: Option<u32>|
        o is Some implies #[trigger] flag_then(u32_seg(f, o), f, decimal(o->0 as nat)) by {
        assert(u32_seg(f, o)[0] == f);
    }
    assert forall|f: Seq<char>, o: Option<u8>|
        o is Some implies #[trigger] flag_then(u8_seg(f, o), f, decimal(o->0 as nat)) by {
        assert(u8_seg(f, o)[0] == f);
    }
    assert forall|f: Seq<char>, o: Option<i64>|
        o is Some implies #[trigger] flag_then(i64_seg(f, o), f, signed_decimal(o->0 as int)) by {
        assert(i64_seg(f, o)[0] == f);
    }
    assert forall|f: Seq<char>, o: Option<bool>|
        o == Some(true) implies #[trigger] has_arg(flag_seg(f, o), f) by {
        assert(flag_seg(f, o)[0] == f);
    }
}

/// Every text option of a profile that is set reaches the command line as
/// its winws flag immediately followed by its value; the filter and the
/// desync mode always do.
pub proof fn lemma_profile_args_carry_text_options(p: StrategyProfile, h: Seq<char>, b: Seq<char>)
    ensures
        flag_then(profile_args(p, h, b), "--filter"@, p.filter@),
        flag_then(profile_args(p, h, b), "--dpi-desync"@, p.desync@),
        p.hostlist_domains matches Some(x) ==> flag_then(profile_args(p, h, b), "--hostlist-domains"@, x@),
        p.l7 matches Some(x) ==> flag_then(profile_args(p, h, b), "--dpi-desync-l7"@, x@),
        p.ip_id matches Some(x) ==> flag_then(profile_args(p, h, b), "--dpi-desync-ipid"@, x@),
        p.split_pos matches Some(x) ==> flag_then(profile_args(p, h, b), "--dpi-desync-split-pos"@, x@),
        p.split_seqovl_pattern matches Some(x) ==> flag_then(
            profile_args(p, h, b),
            "--dpi-desync-split-seqovl-pattern"@,
            x@,
        ),
        p.fooling matches Some(x) ==> flag_then(profile_args(p, h, b), "--dpi-desync-fooling"@, x@),
        p.fake_tls_mod matches Some(x) ==> flag_then(profile_args(p, h, b), "--dpi-desync-fake-tls-mod"@, x@),
        p.fake_tcp_mod matches Some(x) ==> flag_then(profile_args(p, h, b), "--dpi-desync-fake-tcp-mod"@, x@),
        p.autottl matches Some(x) ==> flag_then(profile_args(p, h, b), "--dpi-desync-autottl"@, x@),
        p.cutoff matches Some(x) ==> flag_then(profile_args(p, h, b), "--dpi-desync-cutoff"@, x@),
        p.hostfakesplit_mod matches Some(x) ==> flag_then(
            profile_args(p, h, b),
            "--dpi-desync-hostfakesplit-mod"@,
            x@,
        ),
        p.hostfakesplit_midhost matches Some(x) ==> flag_then(
            profile_args(p, h, b),
            "--dpi-desync-hostfakesplit-midhost"@,
            x@,
        ),
        p.fakedsplit_mod matches Some(x) ==> flag_then(profile_args(p, h, b), "--dpi-desync-fakedsplit-mod"@, x@),
        p.wsize matches Some(x) ==> flag_then(profile_args(p, h, b), "--wsize"@, x@),
        p.wssize matches Some(x) ==> flag_then(profile_args(p, h, b), "--wssize"@, x@),
        p.wssize_cutoff matches Some(x) ==> flag_then(profile_args(p, h, b), "--wssize-cutoff"@, x@),
        p.filter_l3 matches Some(x) ==> flag_then(profile_args(p, h, b), "--filter-l3"@, x@),
        p.filter_ssid matches Some(x) ==> flag_then(profile_args(p, h, b), "--filter-ssid"@, x@),
        p.nlm_filter matches Some(x) ==> flag_then(profile_args(p, h, b), "--nlm-filter"@, x@),
        p.dup_autottl matches Some(x) ==> flag_then(profile_args(p, h, b), "--dpi-desync-dup-autottl"@, x@),
        p.dup_fooling matches Some(x) ==> flag_then(profile_args(p, h, b), "--dpi-desync-dup-fooling"@, x@),
        p.dup_start matches Some(x) ==> flag_then(profile_args(p, h, b), "--dpi-desync-dup-start"@, x@),
        p.dup_cutoff matches Some(x) ==> flag_then(profile_args(p, h, b), "--dpi-desync-dup-cutoff"@, x@),
{
    lemma_segment_rules();
}

/// Every file option of a profile that is set reaches the command line as
/// its winws flag immediately followed by the file's path in its directory
/// (hostlists and ipsets under `h`, fake payloads under `b`).
pub proof fn lemma_profile_args_carry_file_options(p: StrategyProfile, h: Seq<char>, b: Seq<char>)
    ensures
        p.hostlist matches Some(x) ==> flag_then(profile_args(p, h, b), "--hostlist"@, joined_path(h, x@)),
        p.hostlist_exclude matches Some(x) ==> flag_then(
            profile_args(p, h, b),
            "--hostlist-exclude"@,
            joined_path(h, x@),
        ),
        p.ipset matches Some(x) ==> flag_then(profile_args(p, h, b), "--ipset"@, joined_path(h, x@)),
        p.ipset_exclude matches Some(x) ==> flag_then(
            profile_args(p, h, b),
            "--ipset-exclude"@,
            joined_path(h, x@),
        ),
        p.fake_tls matches Some(x) ==> flag_then(
            profile_args(p, h, b),
            "--dpi-desync-fake-tls"@,
            joined_path(b, x@),
        ),
        p.fake_quic matches Some(x) ==> flag_then(
            profile_args(p, h, b),
            "--dpi-desync-fake-quic"@,
            joined_path(b, x@),
        ),
        p.fake_wireguard matches Some(x) ==> flag_then(
            profile_args(p, h, b),
            "--dpi-desync-fake-wireguard"@,
            joined_path(b, x@),
        ),
        p.fake_dht matches Some(x) ==> flag_then(
            profile_args(p, h, b),
            "--dpi-desync-fake-dht"@,
            joined_path(b, x@),
        ),
        p.fake_unknown_udp matches Some(x) ==> flag_then(
            profile_args(p, h, b),
            "--dpi-desync-fake-unknown-udp"@,
            joined_path(b, x@),
        ),
        p.fake_syndata matches Some(x) ==> flag_then(
            profile_args(p, h, b),
            "--dpi-desync-fake-syndata"@,
            joined_path(b, x@),
        ),
{
    lemma_segment_rules();
}

/// Every numeric option of a profile that is set reaches the command line
/// as its winws flag immediately followed by the number in decimal, and a
/// duplication switch set to `true` reaches it as its flag.
pub proof fn lemma_profile_args_carry_numeric_options(p: StrategyProfile, h: Seq<char>, b: Seq<char>)
    ensures
        p.repeats matches Some(x) ==> flag_then(profile_args(p, h, b), "--dpi-desync-repeats"@, decimal(x as nat)),
        p.split_seqovl matches Some(x) ==> flag_then(
            profile_args(p, h, b),
            "--dpi-desync-split-seqovl"@,
            decimal(x as nat),
        ),
        p.ttl matches Some(x) ==> flag_then(profile_args(p, h, b), "--dpi-desync-ttl"@, decimal(x as nat)),
        p.ttl6 matches Some(x) ==> flag_then(profile_args(p, h, b), "--dpi-desync-ttl6"@, decimal(x as nat)),
        p.badseq_increment matches Some(x) ==> flag_then(
            profile_args(p, h, b),
            "--dpi-desync-badseq-increment"@,
            signed_decimal(x as int),
        ),
        p.badack_increment matches Some(x) ==> flag_then(
            profile_args(p, h, b),
            "--dpi-desync-badack-increment"@,
            signed_decimal(x as int),
        ),
        p.ts_increment matches Some(x) ==> flag_then(
            profile_args(p, h, b),
            "--dpi-desync-ts-increment"@,
            signed_decimal(x as int),
        ),
        p.dup_ttl matches Some(x) ==> flag_then(profile_args(p, h, b), "--dpi-desync-dup-ttl"@, decimal(x as nat)),
        p.dup == Some(true) ==> has_arg(profile_args(p, h, b), "--dpi-desync-dup"@),
        p.dup_replace == Some(true) ==> has_arg(profile_args(p, h, b), "--dpi-desync-dup-replace"@),
{
    lemma_segment_rules();
}

/// A strategy's command line carries its port filters (`--wf-tcp`,
/// `--wf-udp` followed by the port lists that are set) and, for each of its
/// profiles, every flag and value that the profile's own arguments carry.
pub proof fn lemma_winws_args_carry_ports_and_profiles(
    s: JsonStrategy,
    h: Seq<char>,
    b: Seq<char>,
    k: int,
    f: Seq<char>,
    v: Seq<char>,
)
    ensures
        s.ports.tcp matches Some(x) ==> flag_then(winws_args(s, h, b), "--wf-tcp"@, x@),
        s.ports.udp matches Some(x) ==> flag_then(winws_args(s, h, b), "--wf-udp"@, x@),
        0 <= k < s.profiles@.len() && flag_then(profile_args(s.profiles@[k], h, b), f, v) ==> flag_then(
            winws_args(s, h, b),
            f,
            v,
        ),
{
    lemma_segment_rules();
    if 0 <= k < s.profiles@.len() && flag_then(profile_args(s.profiles@[k], h, b), f, v) {
        lemma_profiles_args_carry(s.profiles@, h, b, k, f, v);
    }
}

proof fn lemma_profiles_args_carry(
    ps: Seq<StrategyProfile>,
    h: Seq<char>,
    b: Seq<char>,
    k: int,
    f: Seq<char>,
    v: Seq<char>,
)
    requires
        0 <= k < ps.len(),
        flag_then(profile_args(ps[k], h, b), f, v),
    ensures
        flag_then(profiles_args(ps, h, b), f, v),
    decreases ps.len(),
{
    lemma_segment_rules();
    if ps.len() > 1 {
        if k < ps.len() - 1 {
            assert(ps.drop_last()[k] == ps[k]);
            lemma_profiles_args_carry(ps.drop_last(), h, b, k, f, v);
        }
    }
}

} // verus!
