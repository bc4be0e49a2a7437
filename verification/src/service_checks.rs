//! Checks run against services: the identifiers and results of HTTPS, TCP
//! and DNS checks, the classification of failures, and the SOCKS5 messages
//! used to connect through a proxy. Sending requests and opening
//! connections are left to the application.
use vstd::prelude::*;
use vstd::utf8::encode_utf8;
use crate::decimal::{decimal, u64_to_chars};
use crate::models::TestDefinition;
use crate::text::{chars_of, contains, contains_sub, lowercased, owned, string_of, to_lowercase};

verus! {

/// Longest time a single check may take, in milliseconds.
pub const MAX_TIMEOUT_MS: u32 = 5000;

/// Kind of a failed check.
#[derive(PartialEq, Eq, Structural, Clone, Copy, Debug)]
pub enum ErrorType {
    Timeout,
    Tcp,
    Dns,
    Tls,
    Http,
    Unknown,
}

/// Result of one check.
pub struct TestResult {
    pub test_id: String,
    pub success: bool,
    pub latency_ms: Option<u32>,
    pub error_type: Option<ErrorType>,
    pub error_message: Option<String>,
}

/// The timeout a check runs with: the one asked for, capped at
/// [`MAX_TIMEOUT_MS`].
pub fn effective_timeout_ms(timeout_ms: u32) -> (r: u32)
    ensures
        r == if timeout_ms < MAX_TIMEOUT_MS {
            timeout_ms
        } else {
            MAX_TIMEOUT_MS
        },
{
    if timeout_ms < MAX_TIMEOUT_MS {
        timeout_ms
    } else {
        MAX_TIMEOUT_MS
    }
}

/// The identifier of a check: `http_get:<url>`, `http_head:<url>` (also
/// for WebSocket checks, which are made as HEAD requests),
/// `tcp:<host>:<port>` or `dns:<domain>`.
pub open spec fn test_id_of(t: TestDefinition) -> Seq<char> {
    match t {
        TestDefinition::HttpsGet { url, .. } => "http_get:"@ + url@,
        TestDefinition::HttpsHead { url, .. } => "http_head:"@ + url@,
        TestDefinition::TcpConnect { host, port, .. } => "tcp:"@ + host@ + ":"@ + decimal(port as nat),
        TestDefinition::WebSocket { url, .. } => "http_head:"@ + url@,
        TestDefinition::Dns { domain, .. } => "dns:"@ + domain@,
    }
}

fn joined(a: &str, b: &str) -> (r: String)
    ensures
        r@ == a@ + b@,
{
    let mut v = chars_of(a);
    crate::text::extend_chars(&mut v, &chars_of(b));
    string_of(&v)
}

/// The identifier of a check (see [`test_id_of`]).
pub fn test_id(test: &TestDefinition) -> (r: String)
    ensures
        r@ == test_id_of(*test),
{
    match test {
        TestDefinition::HttpsGet { url, .. } => joined("http_get:", url.as_str()),
        TestDefinition::HttpsHead { url, .. } => joined("http_head:", url.as_str()),
        TestDefinition::TcpConnect { host, port, .. } => {
            let mut v = chars_of("tcp:");
            crate::text::extend_chars(&mut v, &chars_of(host.as_str()));
            crate::text::extend_chars(&mut v, &chars_of(":"));
            crate::text::extend_chars(&mut v, &u64_to_chars(*port as u64));
            string_of(&v)
        },
        TestDefinition::WebSocket { url, .. } => joined("http_head:", url.as_str()),
        TestDefinition::Dns { domain, .. } => joined("dns:", domain.as_str()),
    }
}

/// A successful check.
pub fn success_result(test_id: &str, latency_ms: u32) -> (r: TestResult)
    ensures
        r.test_id@ == test_id@,
        r.success,
        r.latency_ms == Some(latency_ms),
        r.error_type is None,
        r.error_message is None,
{
    TestResult {
        test_id: owned(test_id),
        success: true,
        latency_ms: Some(latency_ms),
        error_type: None,
        error_message: None,
    }
}

/// A failed check.
pub fn failure_result(test_id: &str, latency_ms: u32, error_type: ErrorType, message: String) -> (r:
    TestResult)
    ensures
        r.test_id@ == test_id@,
        !r.success,
        r.latency_ms == Some(latency_ms),
        r.error_type == Some(error_type),
        r.error_message == Some(message),
{
    TestResult {
        test_id: owned(test_id),
        success: false,
        latency_ms: Some(latency_ms),
        error_type: Some(error_type),
        error_message: Some(message),
    }
}

/// A check that ran out of time; its latency is the timeout asked for.
pub fn timeout_result(test_id: &str, timeout_ms: u32, message: &str) -> (r: TestResult)
    ensures
        r.test_id@ == test_id@,
        !r.success,
        r.latency_ms == Some(timeout_ms),
        r.error_type == Some(ErrorType::Timeout),
        r.error_message matches Some(m) && m@ == message@,
{
    failure_result(test_id, timeout_ms, ErrorType::Timeout, owned(message))
}

/// Whether an HTTP status is accepted: any when none is listed.
pub open spec fn status_accepted(status: u16, expected: Seq<u16>) -> bool {
    expected.len() == 0 || expected.contains(status)
}

/// The result of an HTTPS GET once its status is known: a failure for an
/// unexpected status, a success when no body size is required, and `None`
/// when the body must be read first.
pub fn get_status_result(
    test_id: &str,
    status: u16,
    expected: &[u16],
    min_body_size: Option<usize>,
    latency_ms: u32,
) -> (r: Option<TestResult>)
    ensures
        !status_accepted(status, expected@) ==> (r matches Some(t) && !t.success && t.test_id@
            == test_id@ && t.latency_ms == Some(latency_ms) && t.error_type == Some(ErrorType::Http)
            && (t.error_message matches Some(m) && m@ == "Unexpected status: "@ + decimal(
            status as nat,
        ))),
        status_accepted(status, expected@) && min_body_size is None ==> (r matches Some(t)
            && t.success && t.test_id@ == test_id@ && t.latency_ms == Some(latency_ms)
            && t.error_type is None && t.error_message is None),
        status_accepted(status, expected@) && min_body_size is Some ==> r is None,
{
    let mut found = expected.len() == 0;
    let mut i: usize = 0;
    while i < expected.len()
        invariant
            i <= expected@.len(),
            found == (expected@.len() == 0 || exists|k: int| 0 <= k < i && expected@[k] == status),
        decreases expected@.len() - i,
    {
        if expected[i] == status {
            found = true;
        }
        i = i + 1;
    }
    proof {
        if expected@.contains(status) {
            let k = choose|k: int| 0 <= k < expected@.len() && expected@[k] == status;
            assert(expected@[k] == status);
        }
        if found && expected@.len() > 0 {
            let k = choose|k: int| 0 <= k < i && expected@[k] == status;
            assert(expected@.contains(status));
        }
    }
    if !found {
        let msg = joined("Unexpected status: ", string_of(&u64_to_chars(status as u64)).as_str());
        return Some(failure_result(test_id, latency_ms, ErrorType::Http, msg));
    }
    match min_body_size {
        None => Some(success_result(test_id, latency_ms)),
        Some(_) => None,
    }
}

/// The result of an HTTPS GET from its body: the body's length, or the
/// failure's text when it could not be read; it must be at least
/// `min_size` bytes.
pub fn get_body_result(test_id: &str, latency_ms: u32, min_size: usize, body: Result<usize, String>) -> (r:
    TestResult)
    ensures
        r.test_id@ == test_id@,
        r.latency_ms == Some(latency_ms),
        r.success == (body matches Ok(n) && n >= min_size),
        r.success ==> r.error_type is None && r.error_message is None,
        !r.success ==> r.error_type == Some(ErrorType::Http),
        match body {
            Ok(n) => n < min_size ==> (r.error_message matches Some(m) && m@ == "Body too small: "@
                + decimal(n as nat) + " < "@ + decimal(min_size as nat)),
            Err(e) => r.error_message == Some(e),
        },
{
    match body {
        Ok(n) => {
            if n >= min_size {
                success_result(test_id, latency_ms)
            } else {
                let mut v = chars_of("Body too small: ");
                crate::text::extend_chars(&mut v, &u64_to_chars(n as u64));
                crate::text::extend_chars(&mut v, &chars_of(" < "));
                crate::text::extend_chars(&mut v, &u64_to_chars(min_size as u64));
                failure_result(test_id, latency_ms, ErrorType::Http, string_of(&v))
            }
        },
        Err(e) => failure_result(test_id, latency_ms, ErrorType::Http, e),
    }
}

/// The result of an HTTPS HEAD from its status (`status_text` is how the
/// status is displayed): a success for a 2xx or 3xx status.
pub fn head_result(test_id: &str, status: u16, status_text: &str, latency_ms: u32) -> (r: TestResult)
    ensures
        r.test_id@ == test_id@,
        r.latency_ms == Some(latency_ms),
        r.success == (200 <= status && status < 400),
        r.success ==> r.error_type is None && r.error_message is None,
        !r.success ==> (r.error_type == Some(ErrorType::Http) && (r.error_message matches Some(m)
            && m@ == "Status: "@ + status_text@)),
{
    if 200 <= status && status < 400 {
        success_result(test_id, latency_ms)
    } else {
        failure_result(test_id, latency_ms, ErrorType::Http, joined("Status: ", status_text))
    }
}

/// The result of a DNS lookup from the number of addresses it gave.
pub fn dns_result(test_id: &str, resolved: usize, latency_ms: u32) -> (r: TestResult)
    ensures
        r.test_id@ == test_id@,
        r.latency_ms == Some(latency_ms),
        r.success == (resolved > 0),
        !r.success ==> (r.error_type == Some(ErrorType::Dns) && (r.error_message matches Some(m)
            && m@ == "No addresses resolved"@)),
{
    if resolved == 0 {
        failure_result(test_id, latency_ms, ErrorType::Dns, owned("No addresses resolved"))
    } else {
        success_result(test_id, latency_ms)
    }
}

/// The kind of a failed request: a timeout, a failed connection, or, for a
/// request error, a DNS, TLS or HTTP failure by what its message mentions.
pub open spec fn request_error_type(is_timeout: bool, is_connect: bool, is_request: bool, message: Seq<
    char,
>) -> ErrorType {
    let m = lowercased(message);
    if is_timeout {
        ErrorType::Timeout
    } else if is_connect {
        ErrorType::Tcp
    } else if is_request {
        if contains_sub(m, "dns"@) || contains_sub(m, "resolve"@) {
            ErrorType::Dns
        } else if contains_sub(m, "tls"@) || contains_sub(m, "ssl"@) || contains_sub(
            m,
            "certificate"@,
        ) {
            ErrorType::Tls
        } else {
            ErrorType::Http
        }
    } else {
        ErrorType::Unknown
    }
}

/// How a failed request is classified: a timeout wins over everything, a
/// failed connection over what the message says; only a request error is
/// judged by its message (DNS when it mentions `dns` or `resolve`, else TLS
/// when it mentions `tls`, `ssl` or `certificate`, else HTTP), and anything
/// else is unknown.
pub proof fn lemma_request_error_classes(
    is_timeout: bool,
    is_connect: bool,
    is_request: bool,
    message: Seq<char>,
    other_message: Seq<char>,
)
    ensures
        (request_error_type(is_timeout, is_connect, is_request, message) == ErrorType::Timeout)
            == is_timeout,
        (request_error_type(is_timeout, is_connect, is_request, message) == ErrorType::Tcp) == (
        !is_timeout && is_connect),
        (request_error_type(is_timeout, is_connect, is_request, message) == ErrorType::Unknown) == (
        !is_timeout && !is_connect && !is_request),
        !(is_request && !is_timeout && !is_connect) ==> request_error_type(
            is_timeout,
            is_connect,
            is_request,
            message,
        ) == request_error_type(is_timeout, is_connect, is_request, other_message),
        is_request && !is_timeout && !is_connect ==> ((request_error_type(
            is_timeout,
            is_connect,
            is_request,
            message,
        ) == ErrorType::Dns) == (contains_sub(lowercased(message), "dns"@) || contains_sub(
            lowercased(message),
            "resolve"@,
        ))),
{
}

/// Classifies a failed request (see [`request_error_type`]).
pub fn classify_request_error(is_timeout: bool, is_connect: bool, is_request: bool, message: &str) -> (r:
    ErrorType)
    ensures
        r == request_error_type(is_timeout, is_connect, is_request, message@),
{
    if is_timeout {
        return ErrorType::Timeout;
    }
    if is_connect {
        return ErrorType::Tcp;
    }
    if !is_request {
        return ErrorType::Unknown;
    }
    let lower = to_lowercase(message);
    let m = chars_of(lower.as_str());
    if contains(&m, &chars_of("dns")) || contains(&m, &chars_of("resolve")) {
        ErrorType::Dns
    } else if contains(&m, &chars_of("tls")) || contains(&m, &chars_of("ssl")) || contains(
        &m,
        &chars_of("certificate"),
    ) {
        ErrorType::Tls
    } else {
        ErrorType::Http
    }
}

/// The kinds of I/O failure that a TCP check tells apart.
#[derive(PartialEq, Eq, Structural, Clone, Copy, Debug)]
pub enum IoFailure {
    TimedOut,
    ConnectionRefused,
    ConnectionReset,
    ConnectionAborted,
    NotFound,
    Other,
}

/// The kind of a failed connection: by its I/O kind, else TLS when the
/// message mentions TLS or SSL.
pub open spec fn io_error_type(kind: IoFailure, message: Seq<char>) -> ErrorType {
    let m = lowercased(message);
    match kind {
        IoFailure::TimedOut => ErrorType::Timeout,
        IoFailure::ConnectionRefused | IoFailure::ConnectionReset | IoFailure::ConnectionAborted => ErrorType::Tcp,
        IoFailure::NotFound => ErrorType::Dns,
        IoFailure::Other => if contains_sub(m, "tls"@) || contains_sub(m, "ssl"@) {
            ErrorType::Tls
        } else {
            ErrorType::Unknown
        },
    }
}

/// How a failed connection is classified: a timeout exactly when the I/O
/// kind is a timeout, a TCP failure exactly when the connection was
/// refused, reset or aborted, a DNS failure exactly when the host was not
/// found; the message only matters for other kinds, which are TLS failures
/// when it mentions TLS or SSL in any letter case and unknown otherwise.
pub proof fn lemma_io_error_classes(kind: IoFailure, message: Seq<char>, other_message: Seq<char>)
    ensures
        (io_error_type(kind, message) == ErrorType::Timeout) == (kind == IoFailure::TimedOut),
        (io_error_type(kind, message) == ErrorType::Tcp) == (kind == IoFailure::ConnectionRefused
            || kind == IoFailure::ConnectionReset || kind == IoFailure::ConnectionAborted),
        (io_error_type(kind, message) == ErrorType::Dns) == (kind == IoFailure::NotFound),
        io_error_type(kind, message) != ErrorType::Http,
        kind != IoFailure::Other ==> io_error_type(kind, message) == io_error_type(kind, other_message),
        kind == IoFailure::Other ==> (io_error_type(kind, message) == ErrorType::Tls) == (contains_sub(
            lowercased(message),
            "tls"@,
        ) || contains_sub(lowercased(message), "ssl"@)),
        kind == IoFailure::Other && io_error_type(kind, message) != ErrorType::Tls ==> io_error_type(
            kind,
            message,
        ) == ErrorType::Unknown,
{
}

/// Classifies a failed connection (see [`io_error_type`]).
pub fn classify_io_error(kind: IoFailure, message: &str) -> (r: ErrorType)
    ensures
        r == io_error_type(kind, message@),
{
    match kind {
        IoFailure::TimedOut => ErrorType::Timeout,
        IoFailure::ConnectionRefused | IoFailure::ConnectionReset | IoFailure::ConnectionAborted => ErrorType::Tcp,
        IoFailure::NotFound => ErrorType::Dns,
        IoFailure::Other => {
            let lower = to_lowercase(message);
            let m = chars_of(lower.as_str());
            if contains(&m, &chars_of("tls")) || contains(&m, &chars_of("ssl")) {
                ErrorType::Tls
            } else {
                ErrorType::Unknown
            }
        },
    }
}

// ===========================================================================
// SOCKS5
// ===========================================================================

/// The SOCKS5 greeting: version 5, one method, no authentication.
pub fn socks5_greeting() -> (r: Vec<u8>)
    ensures
        r@ == seq![5u8, 1u8, 0u8],
{
    vec![5u8, 1u8, 0u8]
}

/// Whether the server accepted the greeting: version 5, no authentication.
pub fn socks5_greeting_accepted(reply: &[u8]) -> (r: bool)
    requires
        reply@.len() >= 2,
    ensures
        r == (reply@[0] == 5 && reply@[1] == 0),
{
    reply[0] == 5 && reply[1] == 0
}

/// The SOCKS5 request to connect to a host by name: version 5, connect,
/// reserved, domain name, the name's length in bytes (kept to its low
/// byte), the name in UTF-8, and the port in network order.
pub open spec fn socks5_connect_bytes(host: Seq<char>, port: u16) -> Seq<u8> {
    seq![5u8, 1u8, 0u8, 3u8, (encode_utf8(host).len() % 256) as u8] + encode_utf8(host) + seq![
        (port / 256) as u8,
        (port % 256) as u8,
    ]
}

/// The SOCKS5 connect request (see [`socks5_connect_bytes`]).
pub fn socks5_connect_request(host: &str, port: u16) -> (r: Vec<u8>)
    ensures
        r@ == socks5_connect_bytes(host@, port),
{
    let bytes = host.as_bytes();
    let n = bytes.len();
    let mut r: Vec<u8> = vec![5u8, 1u8, 0u8, 3u8, (n % 256) as u8];
    let mut i: usize = 0;
    let ghost head = r@;
    while i < n
        invariant
            i <= n,
            n == bytes@.len(),
            r@ == head + bytes@.take(i as int),
        decreases n - i,
    {
        r.push(bytes[i]);
        proof {
            assert(bytes@.take(i as int + 1) =~= bytes@.take(i as int).push(bytes@[i as int]));
        }
        i = i + 1;
    }
    r.push((port / 256) as u8);
    r.push((port % 256) as u8);
    proof {
        assert(bytes@.take(i as int) =~= bytes@);
        assert(r@ =~= socks5_connect_bytes(host@, port));
    }
    r
}

/// The outcome of a SOCKS5 connect reply: accepted with version 5 and
/// status 0, else refused with the status in the message.
pub fn socks5_connect_outcome(reply: &[u8]) -> (r: Result<(), String>)
    requires
        reply@.len() >= 2,
    ensures
        (reply@[0] == 5 && reply@[1] == 0) ==> r is Ok,
        !(reply@[0] == 5 && reply@[1] == 0) ==> (r matches Err(m) && m@ == "SOCKS5 connect failed: "@
            + decimal(reply@[1] as nat)),
{
    if reply[0] == 5 && reply[1] == 0 {
        Ok(())
    } else {
        Err(joined("SOCKS5 connect failed: ", string_of(&u64_to_chars(reply[1] as u64)).as_str()))
    }
}

} // verus!
