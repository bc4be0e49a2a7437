//! Records kept by the application's storage.
use vstd::prelude::*;

verus! {

/// One check of a service's reachability.
pub struct ServiceHealthRecord {
    pub id: i64,
    pub service_id: String,
    pub timestamp: i64,
    pub accessible: bool,
    pub latency_ms: Option<u64>,
    pub error: Option<String>,
}

/// A strategy learned to work for a domain.
pub struct LearnedStrategy {
    pub domain: String,
    pub strategy_id: String,
    pub successes: u32,
    pub failures: u32,
    pub locked_at: Option<String>,
    pub updated_at: String,
}

/// A traffic routing rule.
pub struct RoutingRule {
    pub id: String,
    pub name: String,
    pub enabled: bool,
    /// What the rule matches on: `domain`, `app`, `ip` or `all`.
    pub source: String,
    pub source_value: Option<String>,
    /// What is done: `direct`, `proxy`, `block` or `dpi-bypass`.
    pub action: String,
    pub proxy_id: Option<String>,
    pub priority: i32,
}

/// Period of metrics history.
#[derive(PartialEq, Eq, Structural, Clone, Copy, Debug)]
pub enum HistoryPeriod {
    /// The last hour.
    Hour1,
    /// The last 24 hours.
    Hours24,
    /// The last 7 days.
    Days7,
    /// A number of hours.
    Custom(u32),
}

/// Length of a period in hours.
pub open spec fn period_hours(p: HistoryPeriod) -> u32 {
    match p {
        HistoryPeriod::Hour1 => 1,
        HistoryPeriod::Hours24 => 24,
        HistoryPeriod::Days7 => 168,
        HistoryPeriod::Custom(h) => h,
    }
}

impl HistoryPeriod {
    /// The length of the period in hours.
    pub fn hours(&self) -> (r: u32)
        ensures
            r == period_hours(*self),
    {
        match self {
            HistoryPeriod::Hour1 => 1,
            HistoryPeriod::Hours24 => 24,
            HistoryPeriod::Days7 => 24 * 7,
            HistoryPeriod::Custom(h) => *h,
        }
    }
}

} // verus!
