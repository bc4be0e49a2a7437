//! The Windows system proxy: the proxy string that WinINet is given, and
//! what a query of the settings comes to. Calling WinINet is left to the
//! application.
use vstd::prelude::*;
use crate::decimal::{decimal, u64_to_chars};
use crate::text::{chars_of, extend_chars, str_eq, string_of};

verus! {

/// The system proxy setting.
pub struct SystemProxyInfo {
    pub server: String,
    pub enabled: bool,
}

/// WinINet's flag for a direct connection.
pub const PROXY_TYPE_DIRECT: u32 = 1;

/// WinINet's flag for a connection through a proxy.
pub const PROXY_TYPE_PROXY: u32 = 2;

/// The proxy string for a scheme: `socks=host:port` for SOCKS,
/// `http://host:port` for HTTP, and `host:port` otherwise.
pub open spec fn proxy_string(host: Seq<char>, port: u16, scheme: Seq<char>) -> Seq<char> {
    let addr = host + ":"@ + decimal(port as nat);
    if scheme == "socks"@ || scheme == "socks5"@ {
        "socks="@ + addr
    } else if scheme == "http"@ {
        "http://"@ + addr
    } else {
        addr
    }
}

/// Builds the proxy string WinINet is given (see [`proxy_string`]).
pub fn windows_proxy_string(host: &str, port: u16, scheme: &str) -> (r: String)
    ensures
        r@ == proxy_string(host@, port, scheme@),
{
    let mut v = if str_eq(scheme, "socks") || str_eq(scheme, "socks5") {
        chars_of("socks=")
    } else if str_eq(scheme, "http") {
        chars_of("http://")
    } else {
        Vec::new()
    };
    extend_chars(&mut v, &chars_of(host));
    extend_chars(&mut v, &chars_of(":"));
    extend_chars(&mut v, &u64_to_chars(port as u64));
    proof {
        assert(Seq::<char>::empty() + host@ + ":"@ + decimal(port as nat) =~= host@ + ":"@ + decimal(
            port as nat,
        ));
    }
    string_of(&v)
}

/// The connection flags that turn the proxy on: direct and proxy.
pub fn proxy_enabled_flags() -> (r: u32)
    ensures
        r == 3,
{
    let r = PROXY_TYPE_DIRECT | PROXY_TYPE_PROXY;
    assert(1u32 | 2u32 == 3u32) by (bit_vector);
    r
}

/// Whether connection flags have the proxy flag set.
pub fn proxy_flag_set(flags: u32) -> (r: bool)
    ensures
        r == (flags & PROXY_TYPE_PROXY == PROXY_TYPE_PROXY),
{
    flags & PROXY_TYPE_PROXY == PROXY_TYPE_PROXY
}

/// What a query of the settings reports: the proxy when the flags enable it
/// and the server string is not empty, none otherwise.
pub fn proxy_info_from(flags: u32, server: String) -> (r: Option<SystemProxyInfo>)
    ensures
        match r {
            Some(info) => (flags & PROXY_TYPE_PROXY == PROXY_TYPE_PROXY) && server@.len() > 0 && info.server
                == server && info.enabled,
            None => !((flags & PROXY_TYPE_PROXY == PROXY_TYPE_PROXY) && server@.len() > 0),
        },
{
    if proxy_flag_set(flags) && chars_of(server.as_str()).len() > 0 {
        Some(SystemProxyInfo { server, enabled: true })
    } else {
        None
    }
}

} // verus!
