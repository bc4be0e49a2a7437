//! TCP timestamps: reading their state from the output of
//! `netsh int tcp show global`, and deciding what to run to change it.
//! Running `netsh` is left to the application.
use vstd::prelude::*;
use crate::error::{ErrorKind, IsolateError};
use crate::text::{
    chars_of, contains, contains_sub, lowercased, owned, split_chars, split_on, string_of,
    strings_view, to_lowercase,
};

verus! {

/// State of TCP timestamps.
#[derive(PartialEq, Eq, Structural, Clone, Copy, Debug)]
pub enum TcpTimestampsStatus {
    /// Timestamps are enabled.
    Enabled,
    /// Timestamps are disabled.
    Disabled,
    /// The state could not be determined.
    Unknown,
}

/// Display name of a state.
pub open spec fn status_name(s: TcpTimestampsStatus) -> Seq<char> {
    match s {
        TcpTimestampsStatus::Enabled => "enabled"@,
        TcpTimestampsStatus::Disabled => "disabled"@,
        TcpTimestampsStatus::Unknown => "unknown"@,
    }
}

impl TcpTimestampsStatus {
    /// The display name, such as `"enabled"`.
    pub fn to_string(&self) -> (r: String)
        ensures
            r@ == status_name(*self),
    {
        match self {
            TcpTimestampsStatus::Enabled => owned("enabled"),
            TcpTimestampsStatus::Disabled => owned("disabled"),
            TcpTimestampsStatus::Unknown => owned("unknown"),
        }
    }
}

/// The state given by the lines from `i` on: the first line that mentions
/// `timestamp` and says `enabled` or `disabled` decides.
pub open spec fn status_from_lines(lines: Seq<Seq<char>>, i: int) -> TcpTimestampsStatus
    decreases lines.len() - i,
{
    if i < 0 || i >= lines.len() {
        TcpTimestampsStatus::Unknown
    } else if contains_sub(lines[i], "timestamp"@) && contains_sub(lines[i], "enabled"@) {
        TcpTimestampsStatus::Enabled
    } else if contains_sub(lines[i], "timestamp"@) && contains_sub(lines[i], "disabled"@) {
        TcpTimestampsStatus::Disabled
    } else {
        status_from_lines(lines, i + 1)
    }
}

/// The state shown by `netsh` output: its lines, lowercased, are searched
/// in order (a line break's `\r` does not change which words a line holds).
pub open spec fn status_of_output(output: Seq<char>) -> TcpTimestampsStatus {
    status_from_lines(split_on(lowercased(output), '\n'), 0)
}

/// Reads the state of TCP timestamps from `netsh` output (see
/// [`status_of_output`]).
pub fn parse_timestamps_status(output: &str) -> (r: TcpTimestampsStatus)
    ensures
        r == status_of_output(output@),
{
    let lower = to_lowercase(output);
    let lc = chars_of(lower.as_str());
    let lines = split_chars(&lc, '\n');
    let ts = chars_of("timestamp");
    let en = chars_of("enabled");
    let dis = chars_of("disabled");
    let ghost ls = split_on(lc@, '\n');
    let mut i: usize = 0;
    while i < lines.len()
        invariant
            ls == split_on(lc@, '\n'),
            lc@ == lowercased(output@),
            lines@.len() == ls.len(),
            forall|k: int| 0 <= k < lines@.len() ==> #[trigger] lines@[k]@ == ls[k],
            ts@ == "timestamp"@,
            en@ == "enabled"@,
            dis@ == "disabled"@,
            i <= lines@.len(),
            status_from_lines(ls, 0) == status_from_lines(ls, i as int),
        decreases lines@.len() - i,
    {
        let line = &lines[i];
        proof {
            assert(line@ == ls[i as int]);
        }
        if contains(line, &ts) {
            if contains(line, &en) {
                return TcpTimestampsStatus::Enabled;
            } else if contains(line, &dis) {
                return TcpTimestampsStatus::Disabled;
            }
        }
        i = i + 1;
    }
    TcpTimestampsStatus::Unknown
}

/// The `netsh` arguments that set the state.
pub open spec fn set_args(enable: bool) -> Seq<Seq<char>> {
    seq![
        "int"@,
        "tcp"@,
        "set"@,
        "global"@,
        if enable {
            "timestamps=enabled"@
        } else {
            "timestamps=disabled"@
        },
    ]
}

/// What to run to reach a state: nothing when the state is already the
/// wanted one; otherwise the `netsh` arguments. Refused without
/// administrator privileges, before anything else.
pub fn timestamps_change(enable: bool, is_admin: bool, current: TcpTimestampsStatus) -> (r: Result<
    Option<Vec<String>>,
    IsolateError,
>)
    ensures
        !is_admin ==> (r matches Err(e) && e is RequiresAdmin),
        is_admin && current == (if enable {
            TcpTimestampsStatus::Enabled
        } else {
            TcpTimestampsStatus::Disabled
        }) ==> r matches Ok(None),
        is_admin && current != (if enable {
            TcpTimestampsStatus::Enabled
        } else {
            TcpTimestampsStatus::Disabled
        }) ==> (r matches Ok(Some(v)) && strings_view(v@) == set_args(enable)),
{
    if !is_admin {
        return Err(IsolateError::RequiresAdmin);
    }
    let target = if enable {
        TcpTimestampsStatus::Enabled
    } else {
        TcpTimestampsStatus::Disabled
    };
    if current == target {
        return Ok(None);
    }
    let last = if enable {
        owned("timestamps=enabled")
    } else {
        owned("timestamps=disabled")
    };
    let v = vec![owned("int"), owned("tcp"), owned("set"), owned("global"), last];
    proof {
        assert(strings_view(v@) =~= set_args(enable));
    }
    Ok(Some(v))
}

/// The outcome of running `netsh` to set the state: an error with its
/// output when it failed.
pub fn timestamps_change_result(enable: bool, success: bool, stdout: &str, stderr: &str) -> (r: Result<
    (),
    IsolateError,
>)
    ensures
        success ==> r is Ok,
        !success ==> (r matches Err(e) && e@ == (ErrorKind::Process, (if enable {
            "Failed to enable TCP timestamps: "@
        } else {
            "Failed to disable TCP timestamps: "@
        }) + stdout@ + " "@ + stderr@)),
{
    if success {
        return Ok(());
    }
    let mut v = if enable {
        chars_of("Failed to enable TCP timestamps: ")
    } else {
        chars_of("Failed to disable TCP timestamps: ")
    };
    crate::text::extend_chars(&mut v, &chars_of(stdout));
    crate::text::extend_chars(&mut v, &chars_of(" "));
    crate::text::extend_chars(&mut v, &chars_of(stderr));
    Err(IsolateError::Process(string_of(&v)))
}

} // verus!
