//! Settings of HTTP probes and of the SOCKS proxy they go through, and how
//! a probe's outcome is judged. Making the requests is left to the
//! application.
use vstd::prelude::*;
use crate::decimal::{decimal, u64_to_chars};
use crate::text::{chars_of, owned, string_of};

verus! {

/// Timeouts of an HTTP probe, in milliseconds.
pub struct ProbeConfig {
    /// Whole request timeout, in milliseconds.
    pub timeout: u64,
    /// Connection timeout, in milliseconds.
    pub connect_timeout: u64,
}

impl Default for ProbeConfig {
    fn default() -> (r: Self)
        ensures
            r.timeout == 10_000,
            r.connect_timeout == 5_000,
    {
        ProbeConfig { timeout: 10_000, connect_timeout: 5_000 }
    }
}

impl ProbeConfig {
    /// Given timeouts.
    pub fn new(timeout: u64, connect_timeout: u64) -> (r: Self)
        ensures
            r.timeout == timeout,
            r.connect_timeout == connect_timeout,
    {
        ProbeConfig { timeout, connect_timeout }
    }

    /// Short timeouts for quick checks.
    pub fn fast() -> (r: Self)
        ensures
            r.timeout == 5_000,
            r.connect_timeout == 3_000,
    {
        ProbeConfig { timeout: 5_000, connect_timeout: 3_000 }
    }

    /// Long timeouts for unreliable networks.
    pub fn slow() -> (r: Self)
        ensures
            r.timeout == 30_000,
            r.connect_timeout == 15_000,
    {
        ProbeConfig { timeout: 30_000, connect_timeout: 15_000 }
    }
}

/// A SOCKS5 proxy.
pub struct ProxyConfig {
    pub host: String,
    pub port: u16,
}

impl ProxyConfig {
    /// A proxy at the given host and port.
    pub fn new(host: &str, port: u16) -> (r: Self)
        ensures
            r.host@ == host@,
            r.port == port,
    {
        ProxyConfig { host: owned(host), port }
    }

    /// The proxy URL, `socks5://host:port`.
    pub fn url(&self) -> (r: String)
        ensures
            r@ == "socks5://"@ + self.host@ + ":"@ + decimal(self.port as nat),
    {
        let mut v = chars_of("socks5://");
        crate::text::extend_chars(&mut v, &chars_of(self.host.as_str()));
        crate::text::extend_chars(&mut v, &chars_of(":"));
        crate::text::extend_chars(&mut v, &u64_to_chars(self.port as u64));
        string_of(&v)
    }
}


/// Statuses that show the connection works: 200, 204, the redirects 301
/// and 302, and the authorisation errors 401 and 403.
pub open spec fn probe_status_ok(status: u16) -> bool {
    status == 200 || status == 204 || status == 301 || status == 302 || status == 401 || status == 403
}

/// Whether a probe that got `status` back succeeded (see
/// [`probe_status_ok`]).
pub fn probe_status_accepted(status: u16) -> (r: bool)
    ensures
        r == probe_status_ok(status),
{
    let success_codes: [u16; 6] = [200, 204, 301, 302, 401, 403];
    let mut i: usize = 0;
    while i < 6
        invariant
            i <= 6,
            success_codes@ == seq![200u16, 204u16, 301u16, 302u16, 401u16, 403u16],
            forall|k: int| 0 <= k < i ==> success_codes@[k] != status,
        decreases 6 - i,
    {
        if success_codes[i] == status {
            return true;
        }
        i = i + 1;
    }
    proof {
        assert(success_codes@[0] != status && success_codes@[1] != status && success_codes@[2] != status);
        assert(success_codes@[3] != status && success_codes@[4] != status && success_codes@[5] != status);
    }
    false
}

/// The error of a probe answered with an unexpected status.
pub fn unexpected_status_message(status: u16) -> (r: String)
    ensures
        r@ == "Unexpected status code: "@ + decimal(status as nat),
{
    let mut v = chars_of("Unexpected status code: ");
    crate::text::extend_chars(&mut v, &u64_to_chars(status as u64));
    string_of(&v)
}

/// The error of a probe whose request failed, by the kind of failure: a
/// timeout, a failed connection, a malformed request, or anything else
/// (with the failure's text).
pub open spec fn probe_error_text(is_timeout: bool, is_connect: bool, is_request: bool, text: Seq<char>) -> Seq<
    char,
> {
    if is_timeout {
        "Connection timeout"@
    } else if is_connect {
        "Connection refused or failed"@
    } else if is_request {
        "Request error: "@ + text
    } else {
        "Error: "@ + text
    }
}

/// Formats the error of a failed probe request (see [`probe_error_text`]).
pub fn format_probe_error(is_timeout: bool, is_connect: bool, is_request: bool, text: &str) -> (r: String)
    ensures
        r@ == probe_error_text(is_timeout, is_connect, is_request, text@),
{
    if is_timeout {
        owned("Connection timeout")
    } else if is_connect {
        owned("Connection refused or failed")
    } else {
        let mut v = if is_request {
            chars_of("Request error: ")
        } else {
            chars_of("Error: ")
        };
        crate::text::extend_chars(&mut v, &chars_of(text));
        string_of(&v)
    }
}

/// The address of the local SOCKS5 proxy on `port`.
pub fn local_socks_url(port: u16) -> (r: String)
    ensures
        r@ == "socks5://127.0.0.1:"@ + decimal(port as nat),
{
    let mut v = chars_of("socks5://127.0.0.1:");
    crate::text::extend_chars(&mut v, &u64_to_chars(port as u64));
    string_of(&v)
}

} // verus!
