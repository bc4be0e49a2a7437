//! Testing a strategy against the DPI simulator: the configuration, the
//! command run on the test machine, how its output is read, and how the
//! result of a test run is put together. Running commands, waiting and
//! talking to the simulator are left to the application.
use vstd::prelude::*;
use crate::decimal::{decimal, parse_u16, parse_unsigned, u64_to_chars};
use crate::error::{ErrorKind, IsolateError};
use crate::models::Strategy;
use crate::text::{chars_of, contains_sub, owned, str_contains, string_of, trim, trim_chars};

verus! {

/// Configuration of the DPI simulator test bench.
pub struct DpiSimulatorConfig {
    /// SSH host of the test machine (`user@host`).
    pub ssh_host: String,
    /// URL of the simulator's API.
    pub api_url: String,
    /// Timeout of one test, in seconds.
    pub test_timeout_secs: u32,
    /// Domain to test.
    pub test_domain: String,
}

impl Default for DpiSimulatorConfig {
    fn default() -> (r: Self)
        ensures
            r.ssh_host@ == "VM-test@192.168.100.20"@,
            r.api_url@ == "http://localhost:8888"@,
            r.test_timeout_secs == 10,
            r.test_domain@ == "youtube.com"@,
    {
        DpiSimulatorConfig {
            ssh_host: owned("VM-test@192.168.100.20"),
            api_url: owned("http://localhost:8888"),
            test_timeout_secs: 10,
            test_domain: owned("youtube.com"),
        }
    }
}

/// Result of testing a strategy.
pub struct StrategyTestResult {
    pub strategy_id: String,
    pub success: bool,
    pub blocked_before: u32,
    pub blocked_after: u32,
    pub passed_after: u32,
    pub latency_ms: Option<u32>,
    pub error: Option<String>,
}

/// Packet counters of the DPI simulator.
pub struct DpiStats {
    pub total_packets: u32,
    pub blocked_sni: u32,
    pub blocked_http: u32,
    pub blocked_quic: u32,
    pub passed: u32,
}

/// The outcome of one HTTPS request made on the test machine.
pub struct CurlOutcome {
    /// Whether the status is below 400 and at least 200.
    pub success: bool,
    /// The HTTP status, 0 when none could be read.
    pub http_code: u16,
    /// Time taken, in milliseconds.
    pub latency_ms: u32,
}

/// Whether a strategy can be tested: the test needs the global mode.
pub open spec fn testable_error(s: Strategy) -> Option<Seq<char>> {
    if s.mode_capabilities.supports_global {
        None
    } else {
        Some("Strategy '"@ + s.id@ + "' does not support GLOBAL mode required for testing"@)
    }
}

/// Refuses a strategy that cannot be tested (see [`testable_error`]).
pub fn check_testable(strategy: &Strategy) -> (r: Result<(), IsolateError>)
    ensures
        match testable_error(*strategy) {
            Some(m) => r matches Err(e) && e@ == (ErrorKind::Config, m),
            None => r is Ok,
        },
{
    if strategy.mode_capabilities.supports_global {
        Ok(())
    } else {
        let mut v = chars_of("Strategy '");
        crate::text::extend_chars(&mut v, &chars_of(strategy.id.as_str()));
        crate::text::extend_chars(&mut v, &chars_of("' does not support GLOBAL mode required for testing"));
        Err(IsolateError::Config(string_of(&v)))
    }
}

/// The request run on the test machine: `curl.exe` with `NUL` on a Windows
/// machine (one whose host names `VM-test`), `curl` with `/dev/null`
/// otherwise; the connection timeout is two seconds under the test timeout.
pub open spec fn curl_command_text(ssh_host: Seq<char>, timeout_secs: u32, domain: Seq<char>) -> Seq<char> {
    let t = decimal((timeout_secs - 2) as nat);
    if contains_sub(ssh_host, "VM-test"@) {
        "curl.exe -s --connect-timeout "@ + t + " -o NUL -w \"%%{http_code}\" https://"@ + domain
    } else {
        "curl -s --connect-timeout "@ + t + " -o /dev/null -w '%{http_code}' https://"@ + domain
    }
}

/// The request command for a domain (see [`curl_command_text`]).
pub fn curl_command(config: &DpiSimulatorConfig, domain: &str) -> (r: String)
    requires
        config.test_timeout_secs >= 2,
    ensures
        r@ == curl_command_text(config.ssh_host@, config.test_timeout_secs, domain@),
{
    let t = u64_to_chars((config.test_timeout_secs - 2) as u64);
    let windows = str_contains(config.ssh_host.as_str(), "VM-test");
    let mut v: Vec<char>;
    if windows {
        v = chars_of("curl.exe -s --connect-timeout ");
        crate::text::extend_chars(&mut v, &t);
        crate::text::extend_chars(&mut v, &chars_of(" -o NUL -w \"%%{http_code}\" https://"));
    } else {
        v = chars_of("curl -s --connect-timeout ");
        crate::text::extend_chars(&mut v, &t);
        crate::text::extend_chars(&mut v, &chars_of(" -o /dev/null -w '%{http_code}' https://"));
    }
    crate::text::extend_chars(&mut v, &chars_of(domain));
    string_of(&v)
}

/// The HTTP status printed by the request: the trimmed output as a `u16`,
/// or 0 when it is not one.
pub open spec fn http_code_of(stdout: Seq<char>) -> u16 {
    match parse_unsigned(trim(stdout), 65535) {
        Some(n) => n as u16,
        None => 0,
    }
}

/// Reads the output of a request (see [`http_code_of`]); it succeeded when
/// the status is at least 200 and below 400.
pub fn read_curl_output(stdout: &str, latency_ms: u32) -> (r: CurlOutcome)
    ensures
        r.http_code == http_code_of(stdout@),
        r.success == (200 <= r.http_code && r.http_code < 400),
        r.latency_ms == latency_ms,
{
    let t = trim_chars(&chars_of(stdout));
    let code: u16 = match parse_u16(&t) {
        Some(n) => n,
        None => 0,
    };
    CurlOutcome { success: 200 <= code && code < 400, http_code: code, latency_ms }
}

/// The result of a test whose strategy could not be started.
pub fn start_failure_result(strategy_id: &str, blocked_before: u32, error: &str) -> (r: StrategyTestResult)
    ensures
        r.strategy_id@ == strategy_id@,
        !r.success,
        r.blocked_before == blocked_before,
        r.blocked_after == 0,
        r.passed_after == 0,
        r.latency_ms is None,
        r.error matches Some(m) && m@ == "Failed to start strategy: "@ + error@,
{
    let mut v = chars_of("Failed to start strategy: ");
    crate::text::extend_chars(&mut v, &chars_of(error));
    StrategyTestResult {
        strategy_id: owned(strategy_id),
        success: false,
        blocked_before,
        blocked_after: 0,
        passed_after: 0,
        latency_ms: None,
        error: Some(string_of(&v)),
    }
}

/// The error text of a request with the strategy running: none on success,
/// `"HTTP <status>"` otherwise, or the failure's text when the request
/// could not be made.
pub open spec fn test_error_text(test_with: Result<(bool, u16, u32), Seq<char>>) -> Option<Seq<char>> {
    match test_with {
        Ok((success, code, _)) => if success {
            None
        } else {
            Some("HTTP "@ + decimal(code as nat))
        },
        Err(m) => Some(m),
    }
}

/// The result of a test run: the request made with the strategy running
/// (`Ok((success, status, latency))`, or the failure's text), the blocked
/// count measured without it, and the simulator's counters afterwards.
pub fn engine_test_result(
    strategy_id: &str,
    blocked_before: u32,
    stats_after: &DpiStats,
    test_with: Result<(bool, u16, u32), String>,
) -> (r: StrategyTestResult)
    ensures
        r.strategy_id@ == strategy_id@,
        r.blocked_before == blocked_before,
        r.blocked_after == stats_after.blocked_sni,
        r.passed_after == stats_after.passed,
        r.success == (test_with matches Ok((s, _, _)) && s),
        r.latency_ms == match test_with {
            Ok((_, _, l)) => Some(l),
            Err(_) => None::<u32>,
        },
        match r.error {
            Some(m) => test_error_text(match test_with {
                Ok(t) => Ok(t),
                Err(m) => Err(m@),
            }) == Some(m@),
            None => test_error_text(match test_with {
                Ok(t) => Ok(t),
                Err(m) => Err(m@),
            }) is None,
        },
{
    let (success, latency_ms, error) = match test_with {
        Ok((s, code, l)) => {
            let e = if s {
                None
            } else {
                let mut v = chars_of("HTTP ");
                crate::text::extend_chars(&mut v, &u64_to_chars(code as u64));
                Some(string_of(&v))
            };
            (s, Some(l), e)
        },
        Err(m) => (false, None, Some(m)),
    };
    StrategyTestResult {
        strategy_id: owned(strategy_id),
        success,
        blocked_before,
        blocked_after: stats_after.blocked_sni,
        passed_after: stats_after.passed,
        latency_ms,
        error,
    }
}

/// The result of a test made without an engine, where the strategy could
/// not be applied: the second request decides success, and a failure
/// names its status.
pub fn no_engine_test_result(
    strategy_id: &str,
    blocked_before: u32,
    stats_after: &DpiStats,
    test_with: &CurlOutcome,
) -> (r: StrategyTestResult)
    ensures
        r.strategy_id@ == strategy_id@,
        r.success == test_with.success,
        r.blocked_before == blocked_before,
        r.blocked_after == stats_after.blocked_sni,
        r.passed_after == stats_after.passed,
        r.latency_ms == Some(test_with.latency_ms),
        test_with.success ==> r.error is None,
        !test_with.success ==> (r.error matches Some(m) && m@ == "HTTP "@ + decimal(test_with.http_code as nat)
            + " (no engine - strategy not applied)"@),
{
    let error = if test_with.success {
        None
    } else {
        let mut v = chars_of("HTTP ");
        crate::text::extend_chars(&mut v, &u64_to_chars(test_with.http_code as u64));
        crate::text::extend_chars(&mut v, &chars_of(" (no engine - strategy not applied)"));
        Some(string_of(&v))
    };
    StrategyTestResult {
        strategy_id: owned(strategy_id),
        success: test_with.success,
        blocked_before,
        blocked_after: stats_after.blocked_sni,
        passed_after: stats_after.passed,
        latency_ms: Some(test_with.latency_ms),
        error,
    }
}

/// How many more packets the simulator blocked between two readings of its
/// counter.
pub fn blocked_difference(blocked_after: u32, blocked_before: u32) -> (r: u32)
    requires
        blocked_before <= blocked_after,
    ensures
        r == blocked_after - blocked_before,
{
    blocked_after - blocked_before
}

/// Whether the simulator reports itself running.
pub fn status_running(status: &str) -> (r: bool)
    ensures
        r == contains_sub(status@, "running"@),
{
    str_contains(status, "running")
}

} // verus!
