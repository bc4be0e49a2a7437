//! Opt-in telemetry: the batch of events waiting to be sent, and the
//! anonymisation of error messages before they are reported (file paths,
//! IP addresses, UUIDs and e-mail addresses are replaced by placeholders).
//! Making the events and sending them is left to the application.
use vstd::prelude::*;
use crate::decimal::parse_unsigned;
use crate::text::{
    chars_of, has_prefix, is_ascii_alpha, is_digit, is_hex, is_whitespace, is_ws, split_on,
    starts_with, string_of,
};

verus! {

/// Name for the result of `char::is_alphanumeric` on a character that is
/// not ASCII (Unicode `Alphabetic` or `Numeric`).
pub uninterp spec fn alphanumeric(c: char) -> bool;

/// What `char::is_alphanumeric` gives: on ASCII exactly the letters and the
/// decimal digits, otherwise the Unicode property (see [`alphanumeric`]).
pub open spec fn alnum(c: char) -> bool {
    if (c as u32) < 128 {
        is_ascii_alpha(c) || is_digit(c)
    } else {
        alphanumeric(c)
    }
}

/// Calls `char::is_alphanumeric`: on ASCII characters the result is true
/// exactly for the letters and the digits; on others it depends on the
/// character alone (Unicode tables, not stated further).
#[verifier::external_body]
fn is_alphanumeric(c: char) -> (r: bool)
    ensures
        r == alnum(c),
        (c as u32) >= 128 ==> r == alphanumeric(c),
{
    c.is_alphanumeric()
}

/// The first index at or after `i` holding whitespace, or the end.
pub open spec fn skip_to_ws(c: Seq<char>, i: int) -> int
    decreases c.len() - i,
{
    if i < 0 || i >= c.len() || is_ws(c[i]) {
        i
    } else {
        skip_to_ws(c, i + 1)
    }
}

/// The end of the run of digits and dots starting at `j`.
pub open spec fn digit_dot_end(c: Seq<char>, j: int) -> int
    decreases c.len() - j,
{
    if 0 <= j < c.len() && (is_digit(c[j]) || c[j] == '.') {
        digit_dot_end(c, j + 1)
    } else {
        j
    }
}

/// Number of occurrences of a character.
pub open spec fn count_char(s: Seq<char>, x: char) -> nat
    decreases s.len(),
{
    if s.len() == 0 {
        0
    } else {
        count_char(s.drop_last(), x) + if s.last() == x {
            1nat
        } else {
            0nat
        }
    }
}

/// An IP address part: it parses as a `u8`, or as a `u16` no larger than 255.
pub open spec fn ip_part_ok(p: Seq<char>) -> bool {
    parse_unsigned(p, 255) is Some || (parse_unsigned(p, 65535) matches Some(n) && n <= 255)
}

/// Windows path start: a letter, `:` and `\`.
pub open spec fn windows_path_at(c: Seq<char>, i: int) -> bool {
    i + 2 < c.len() && is_ascii_alpha(c[i]) && c[i + 1] == ':' && c[i + 2] == '\\'
}

/// Unix path start: `/home/`, `/Users/`, `/tmp/` or `/var/`.
pub open spec fn unix_path_at(c: Seq<char>, i: int) -> bool {
    let rest = c.skip(i);
    c[i] == '/' && (has_prefix(rest, "/home/"@) || has_prefix(rest, "/Users/"@) || has_prefix(
        rest,
        "/tmp/"@,
    ) || has_prefix(rest, "/var/"@))
}

/// The end `j` of a run of digits and dots starting at `i`, moved back over
/// the dots that close it (a sentence's full stop is no part of an
/// address).
pub open spec fn without_trailing_dots(c: Seq<char>, i: int, j: int) -> int
    decreases j - i,
{
    if j > i && 0 < j <= c.len() && c[j - 1] == '.' {
        without_trailing_dots(c, i, j - 1)
    } else {
        j
    }
}

/// The end of an IP address starting at `i`: a run of digits and dots,
/// without the dots that end it, with three dots, 7 to 15 characters long,
/// whose four parts are numbers up to 255.
pub open spec fn ip_end(c: Seq<char>, i: int) -> Option<int> {
    let j = without_trailing_dots(c, i, digit_dot_end(c, i));
    let s = c.subrange(i, j);
    if is_digit(c[i]) && count_char(s, '.') == 3 && 7 <= j - i <= 15 && split_on(s, '.').len() == 4
        && (forall|k: int| 0 <= k < 4 ==> #[trigger] ip_part_ok(split_on(s, '.')[k])) {
        Some(j)
    } else {
        None
    }
}

/// UUID layout: 36 characters, dashes at 8, 13, 18 and 23, hex digits
/// elsewhere.
pub open spec fn uuid_shape(s: Seq<char>) -> bool {
    &&& s.len() == 36
    &&& forall|k: int|
        0 <= k < 36 ==> if k == 8 || k == 13 || k == 18 || k == 23 {
            s[k] == '-'
        } else {
            is_hex(#[trigger] s[k])
        }
}

/// A character that may precede `@` in an e-mail address.
pub open spec fn email_local_char(ch: char) -> bool {
    alnum(ch) || ch == '.' || ch == '_' || ch == '-' || ch == '+'
}

/// A character that may follow `@` in an e-mail address.
pub open spec fn email_domain_char(ch: char) -> bool {
    alnum(ch) || ch == '.' || ch == '-'
}

/// Walking back from `k` over local-part characters.
pub open spec fn email_start(c: Seq<char>, k: int) -> int
    decreases k,
{
    if 0 < k <= c.len() && email_local_char(c[k - 1]) {
        email_start(c, k - 1)
    } else {
        k
    }
}

/// Walking forward from `k` over domain characters.
pub open spec fn email_end(c: Seq<char>, k: int) -> int
    decreases c.len() - k,
{
    if 0 <= k < c.len() && email_domain_char(c[k]) {
        email_end(c, k + 1)
    } else {
        k
    }
}

/// An e-mail address around the `@` at `i`: `(start, end)` when there is a
/// local part, and a domain with a dot of at least two characters.
pub open spec fn email_at(c: Seq<char>, i: int) -> Option<(int, int)> {
    let start = email_start(c, i);
    let end = email_end(c, i + 1);
    if c[i] == '@' && i > 0 && i + 1 < c.len() && start < i && c.subrange(i + 1, end).contains('.')
        && end > i + 2 {
        Some((start, end))
    } else {
        None
    }
}

/// One step of the scan at `i`: the text to emit, where to continue, and how
/// many characters of the output so far to take back (an e-mail address's
/// local part, already copied).
pub open spec fn anon_step(c: Seq<char>, i: int) -> (Seq<char>, int, nat) {
    if windows_path_at(c, i) || unix_path_at(c, i) {
        ("[PATH]"@, skip_to_ws(c, i), 0)
    } else {
        match ip_end(c, i) {
            Some(j) => ("[IP]"@, j, 0),
            None => if is_hex(c[i]) && i + 36 <= c.len() && uuid_shape(c.subrange(i, i + 36)) {
                ("[UUID]"@, i + 36, 0)
            } else {
                match email_at(c, i) {
                    Some((start, end)) => ("[EMAIL]"@, end, (i - start) as nat),
                    None => (seq![c[i]], i + 1, 0),
                }
            },
        }
    }
}

/// The output without its last `k` characters (all of it when shorter).
pub open spec fn drop_tail(s: Seq<char>, k: nat) -> Seq<char> {
    if k >= s.len() {
        Seq::empty()
    } else {
        s.take(s.len() - k)
    }
}

/// The anonymised text from position `i` on, given the output so far.
pub open spec fn anon_from(c: Seq<char>, i: int, out: Seq<char>) -> Seq<char>
    decreases c.len() - i,
{
    if i < 0 || i >= c.len() {
        out
    } else {
        let (tok, next, back) = anon_step(c, i);
        if next <= i || next > c.len() {
            out
        } else {
            anon_from(c, next, drop_tail(out, back) + tok)
        }
    }
}

/// The anonymised message.
pub open spec fn anonymized(message: Seq<char>) -> Seq<char> {
    anon_from(message, 0, Seq::empty())
}

fn skip_to_ws_exec(c: &Vec<char>, i: usize) -> (r: usize)
    requires
        i <= c@.len(),
    ensures
        r == skip_to_ws(c@, i as int),
        i <= r <= c@.len(),
        i < c@.len() && !is_ws(c@[i as int]) ==> r > i,
{
    let mut k = i;
    while k < c.len() && !is_whitespace(c[k])
        invariant
            i <= k <= c@.len(),
            skip_to_ws(c@, i as int) == skip_to_ws(c@, k as int),
        decreases c@.len() - k,
    {
        k = k + 1;
    }
    k
}

fn digit_dot_end_exec(c: &Vec<char>, i: usize) -> (r: usize)
    requires
        i <= c@.len(),
    ensures
        r == digit_dot_end(c@, i as int),
        i <= r <= c@.len(),
        count_char(c@.subrange(i as int, r as int), '.') <= r - i,
{
    let mut j = i;
    proof {
        assert(c@.subrange(i as int, i as int) =~= Seq::<char>::empty());
    }
    while j < c.len() && (('0' <= c[j] && c[j] <= '9') || c[j] == '.')
        invariant
            i <= j <= c@.len(),
            digit_dot_end(c@, i as int) == digit_dot_end(c@, j as int),
            count_char(c@.subrange(i as int, j as int), '.') <= j - i,
        decreases c@.len() - j,
    {
        proof {
            assert(c@.subrange(i as int, j + 1).drop_last() =~= c@.subrange(i as int, j as int));
        }
        j = j + 1;
    }
    j
}

fn count_dots(s: &[char]) -> (n: usize)
    ensures
        n == count_char(s@, '.'),
{
    let mut n: usize = 0;
    let mut i: usize = 0;
    while i < s.len()
        invariant
            i <= s@.len(),
            n == count_char(s@.take(i as int), '.'),
            n <= i,
        decreases s@.len() - i,
    {
        proof {
            assert(s@.take(i as int + 1).drop_last() =~= s@.take(i as int));
        }
        if s[i] == '.' {
            n = n + 1;
        }
        i = i + 1;
    }
    proof {
        assert(s@.take(i as int) =~= s@);
    }
    n
}

fn ip_part_ok_exec(p: &[char]) -> (r: bool)
    ensures
        r == ip_part_ok(p@),
{
    if crate::decimal::parse_u8(p).is_some() {
        return true;
    }
    match crate::decimal::parse_u16(p) {
        Some(n) => n <= 255,
        None => false,
    }
}

fn ip_end_exec(c: &Vec<char>, i: usize) -> (r: Option<usize>)
    requires
        i < c@.len(),
    ensures
        match r {
            Some(j) => ip_end(c@, i as int) == Some(j as int) && i < j <= c@.len(),
            None => ip_end(c@, i as int) is None,
        },
{
    if !('0' <= c[i] && c[i] <= '9') {
        return None;
    }
    let run_end = digit_dot_end_exec(c, i);
    let mut j = run_end;
    while j > i && c[j - 1] == '.'
        invariant
            i < c@.len(),
            i <= j <= run_end <= c@.len(),
            without_trailing_dots(c@, i as int, run_end as int) == without_trailing_dots(c@, i as int, j as int),
        decreases j - i,
    {
        j = j - 1;
    }
    let s = crate::text::slice_chars(c.as_slice(), i, j);
    let dots = count_dots(&s);
    if dots != 3 || j - i < 7 || j - i > 15 {
        return None;
    }
    let parts = crate::text::split_chars(&s, '.');
    if parts.len() != 4 {
        return None;
    }
    let mut k: usize = 0;
    while k < 4
        invariant
            parts@.len() == 4,
            i < c@.len(),
            i <= j <= c@.len(),
            j == without_trailing_dots(c@, i as int, digit_dot_end(c@, i as int)),
            is_digit(c@[i as int]),
            count_char(s@, '.') == 3,
            7 <= j - i <= 15,
            s@ == c@.subrange(i as int, j as int),
            parts@.len() == split_on(s@, '.').len(),
            forall|t: int| 0 <= t < parts@.len() ==> #[trigger] parts@[t]@ == split_on(s@, '.')[t],
            k <= 4,
            forall|t: int| 0 <= t < k ==> #[trigger] ip_part_ok(split_on(s@, '.')[t]),
        decreases 4 - k,
    {
        if !ip_part_ok_exec(parts[k].as_slice()) {
            proof {
                assert(!ip_part_ok(split_on(s@, '.')[k as int]));
            }
            return None;
        }
        k = k + 1;
    }
    Some(j)
}

fn uuid_shape_exec(s: &[char]) -> (r: bool)
    ensures
        r == uuid_shape(s@),
{
    if s.len() != 36 {
        return false;
    }
    let mut k: usize = 0;
    while k < 36
        invariant
            s@.len() == 36,
            k <= 36,
            forall|t: int|
                0 <= t < k ==> if t == 8 || t == 13 || t == 18 || t == 23 {
                    s@[t] == '-'
                } else {
                    is_hex(#[trigger] s@[t])
                },
        decreases 36 - k,
    {
        let ch = s[k];
        if k == 8 || k == 13 || k == 18 || k == 23 {
            if ch != '-' {
                return false;
            }
        } else if !(('0' <= ch && ch <= '9') || ('a' <= ch && ch <= 'f') || ('A' <= ch && ch <= 'F')) {
            proof {
                assert(!is_hex(s@[k as int]));
            }
            return false;
        }
        k = k + 1;
    }
    true
}

/// Whether a string has the UUID layout (8-4-4-4-12 hex digits).
pub fn is_uuid(s: &str) -> (r: bool)
    ensures
        r == uuid_shape(s@),
{
    uuid_shape_exec(&chars_of(s))
}

fn email_at_exec(c: &Vec<char>, i: usize) -> (r: Option<(usize, usize)>)
    requires
        i < c@.len(),
    ensures
        match r {
            Some((s, e)) => email_at(c@, i as int) == Some((s as int, e as int)) && e <= c@.len(),
            None => email_at(c@, i as int) is None,
        },
{
    if !(c[i] == '@' && i > 0 && i < c.len() - 1) {
        return None;
    }
    let mut start = i;
    while start > 0
        invariant
            start <= i < c@.len(),
            c@[i as int] == '@',
            0 < i,
            i + 1 < c@.len(),
            email_start(c@, i as int) == email_start(c@, start as int),
        ensures
            start <= i,
            email_start(c@, i as int) == start,
        decreases start,
    {
        let prev = c[start - 1];
        if is_alphanumeric(prev) || prev == '.' || prev == '_' || prev == '-' || prev == '+' {
            start = start - 1;
        } else {
            break;
        }
    }
    let mut end = i + 1;
    let mut has_dot = false;
    proof {
        assert(c@.subrange(i + 1, i + 1) =~= Seq::<char>::empty());
    }
    while end < c.len()
        invariant
            i + 1 <= end <= c@.len(),
            c@[i as int] == '@',
            0 < i,
            i + 1 < c@.len(),
            start <= i,
            email_start(c@, i as int) == start,
            email_end(c@, i + 1) == email_end(c@, end as int),
            has_dot == c@.subrange(i + 1, end as int).contains('.'),
        ensures
            i + 1 <= end <= c@.len(),
            email_end(c@, i + 1) == end,
            has_dot == c@.subrange(i + 1, end as int).contains('.'),
        decreases c@.len() - end,
    {
        let ch = c[end];
        if is_alphanumeric(ch) || ch == '.' || ch == '-' {
            proof {
                assert(c@.subrange(i + 1, end + 1) =~= c@.subrange(i + 1, end as int).push(ch));
                broadcast use vstd::seq_lib::group_seq_properties;
            }
            if ch == '.' {
                has_dot = true;
            }
            end = end + 1;
        } else {
            break;
        }
    }
    if start < i && has_dot && end > i + 2 {
        Some((start, end))
    } else {
        None
    }
}

fn push_literal(out: &mut Vec<char>, s: &str)
    ensures
        final(out)@ == old(out)@ + s@,
{
    crate::text::extend_chars(out, &chars_of(s));
}

/// Replaces file paths (`C:\...`, `/home/...`, `/Users/...`, `/tmp/...`,
/// `/var/...`, up to the next whitespace) by `[PATH]`, IP addresses by
/// `[IP]`, UUIDs by `[UUID]` and e-mail addresses by `[EMAIL]` (see
/// [`anonymized`]).
pub fn anonymize_error_message(message: &str) -> (r: String)
    ensures
        r@ == anonymized(message@),
{
    let c = chars_of(message);
    let mut out: Vec<char> = Vec::new();
    let mut i: usize = 0;
    while i < c.len()
        invariant
            i <= c@.len(),
            c@ == message@,
            anon_from(c@, 0, Seq::empty()) == anon_from(c@, i as int, out@),
        decreases c@.len() - i,
    {
        let ghost step = anon_step(c@, i as int);
        let ghost o0 = out@;
        let n = c.len();
        let ch = c[i];
        let next: usize;
        let is_win = n > 2 && i < n - 2 && (('a' <= ch && ch <= 'z') || ('A' <= ch && ch <= 'Z'))
            && c[i + 1] == ':' && c[i + 2] == '\\';
        proof {
            assert(is_win == windows_path_at(c@, i as int));
        }
        let mut is_unix = false;
        if ch == '/' {
            let rest = crate::text::slice_chars(c.as_slice(), i, n);
            proof {
                assert(rest@ =~= c@.skip(i as int));
            }
            is_unix = starts_with(&rest, &chars_of("/home/")) || starts_with(&rest, &chars_of("/Users/"))
                || starts_with(&rest, &chars_of("/tmp/")) || starts_with(&rest, &chars_of("/var/"));
        }
        proof {
            assert(is_unix == unix_path_at(c@, i as int));
        }
        if is_win || is_unix {
            push_literal(&mut out, "[PATH]");
            next = skip_to_ws_exec(&c, i);
            proof {
                assert(!is_ws(c@[i as int]));
                assert(out@ =~= drop_tail(o0, 0) + "[PATH]"@);
            }
        } else {
            match ip_end_exec(&c, i) {
                Some(j) => {
                    push_literal(&mut out, "[IP]");
                    next = j;
                    proof {
                        assert(out@ =~= drop_tail(o0, 0) + "[IP]"@);
                    }
                },
                None => {
                    let hex = ('0' <= ch && ch <= '9') || ('a' <= ch && ch <= 'f') || ('A' <= ch && ch
                        <= 'F');
                    let mut is_uuid_here = false;
                    if hex && n >= 36 && i <= n - 36 {
                        let window = crate::text::slice_chars(c.as_slice(), i, i + 36);
                        is_uuid_here = uuid_shape_exec(window.as_slice());
                    }
                    proof {
                        assert(hex == is_hex(c@[i as int]));
                    }
                    if is_uuid_here {
                        push_literal(&mut out, "[UUID]");
                        next = i + 36;
                        proof {
                            assert(out@ =~= drop_tail(o0, 0) + "[UUID]"@);
                        }
                    } else {
                        match email_at_exec(&c, i) {
                            Some((s, e)) => {
                                let back = i - s;
                                let mut k: usize = 0;
                                proof {
                                    assert(drop_tail(o0, 0) =~= o0);
                                }
                                while k < back
                                    invariant
                                        k <= back,
                                        out@ == drop_tail(o0, k as nat),
                                    decreases back - k,
                                {
                                    out.pop();
                                    proof {
                                        if k as nat >= o0.len() {
                                            assert(drop_tail(o0, (k + 1) as nat) =~= drop_tail(o0, k as nat));
                                        } else {
                                            assert(drop_tail(o0, (k + 1) as nat) =~= drop_tail(
                                                o0,
                                                k as nat,
                                            ).drop_last());
                                        }
                                    }
                                    k = k + 1;
                                }
                                push_literal(&mut out, "[EMAIL]");
                                next = e;
                            },
                            None => {
                                out.push(ch);
                                next = i + 1;
                                proof {
                                    assert(out@ =~= drop_tail(o0, 0) + seq![ch]);
                                }
                            },
                        }
                    }
                },
            }
        }
        proof {
            assert(step.1 == next as int);
            assert(out@ == drop_tail(o0, step.2) + step.0);
            assert(i < next <= c@.len());
        }
        i = next;
    }
    string_of(&out)
}


/// No character that can start a path, an IP address, a UUID or an e-mail
/// address: no `/`, `:`, `-`, `@` or decimal digit.
pub open spec fn plain_text(c: Seq<char>) -> bool {
    forall|k: int|
        0 <= k < c.len() ==> !(#[trigger] c[k] == '/' || c[k] == ':' || c[k] == '-' || c[k] == '@' || is_digit(
            c[k],
        ))
}

proof fn lemma_anon_plain_from(c: Seq<char>, i: int, out: Seq<char>)
    requires
        plain_text(c),
        0 <= i <= c.len(),
    ensures
        anon_from(c, i, out) == out + c.skip(i),
    decreases c.len() - i,
{
    if i == c.len() {
        assert(out + c.skip(i) =~= out);
    } else {
        assert(!(c[i] == '/' || c[i] == ':' || c[i] == '-' || c[i] == '@' || is_digit(c[i])));
        if i + 1 < c.len() {
            assert(!(c[i + 1] == '/' || c[i + 1] == ':' || c[i + 1] == '-' || c[i + 1] == '@' || is_digit(c[i + 1])));
        }
        assert(!windows_path_at(c, i));
        assert(!unix_path_at(c, i));
        assert(ip_end(c, i) is None);
        if is_hex(c[i]) && i + 36 <= c.len() {
            assert(!(c[i + 8] == '/' || c[i + 8] == ':' || c[i + 8] == '-' || c[i + 8] == '@' || is_digit(c[i + 8])));
            assert(c.subrange(i, i + 36)[8] == c[i + 8]);
            assert(!uuid_shape(c.subrange(i, i + 36)));
        }
        assert(email_at(c, i) is None);
        assert(drop_tail(out, 0) =~= out);
        lemma_anon_plain_from(c, i + 1, out + seq![c[i]]);
        assert(out + seq![c[i]] + c.skip(i + 1) =~= out + c.skip(i));
    }
}

/// Anonymisation removes only what may be personal data: a message with no
/// character that can start a path, an IP address, a UUID or an e-mail
/// address comes out unchanged.
pub proof fn lemma_plain_text_unchanged(message: Seq<char>)
    requires
        plain_text(message),
    ensures
        anonymized(message) == message,
{
    lemma_anon_plain_from(message, 0, Seq::empty());
    assert(Seq::<char>::empty() + message.skip(0) =~= message);
}

// ===========================================================================
// Event batch
// ===========================================================================

/// Most events kept for a retry after a failed send.
pub const MAX_PENDING_EVENTS: usize = 1000;

/// Seconds between automatic flushes.
pub const FLUSH_INTERVAL_SECS: u64 = 300;

/// The batch after a failed send: the events recorded meanwhile, then the
/// events that failed; beyond the limit the oldest are dropped.
pub open spec fn requeued<E>(batch: Seq<E>, failed: Seq<E>) -> Seq<E> {
    let all = batch + failed;
    if all.len() > MAX_PENDING_EVENTS {
        all.skip(all.len() - MAX_PENDING_EVENTS)
    } else {
        all
    }
}

/// The telemetry service's state as values.
pub struct TelemetryView<E> {
    /// Whether the user opted in.
    pub enabled: bool,
    /// Events waiting to be sent, oldest first.
    pub batch: Seq<E>,
    /// Where the events are sent.
    pub endpoint: Seq<char>,
    /// Seconds between automatic flushes.
    pub flush_interval_secs: u64,
}

/// Collects telemetry events while the user has opted in, and hands them
/// out to be sent. Disabled until enabled.
pub struct TelemetryService<E> {
    enabled: bool,
    endpoint: String,
    batch: Vec<E>,
    flush_interval_secs: u64,
}

impl<E> View for TelemetryService<E> {
    type V = TelemetryView<E>;

    closed spec fn view(&self) -> TelemetryView<E> {
        TelemetryView {
            enabled: self.enabled,
            batch: self.batch@,
            endpoint: self.endpoint@,
            flush_interval_secs: self.flush_interval_secs,
        }
    }
}

impl<E> TelemetryService<E> {
    /// A disabled service with no events.
    pub fn new() -> (r: Self)
        ensures
            !r@.enabled,
            r@.batch.len() == 0,
            r@.endpoint == "https://telemetry.isolate.app/v1/events"@,
            r@.flush_interval_secs == FLUSH_INTERVAL_SECS,
    {
        TelemetryService {
            enabled: false,
            endpoint: crate::text::owned("https://telemetry.isolate.app/v1/events"),
            batch: Vec::new(),
            flush_interval_secs: FLUSH_INTERVAL_SECS,
        }
    }

    /// Where the events are sent.
    pub fn endpoint(&self) -> (r: &str)
        ensures
            self@.endpoint == r@,
    {
        self.endpoint.as_str()
    }

    /// Seconds between automatic flushes.
    pub fn flush_interval_secs(&self) -> (r: u64)
        ensures
            r == self@.flush_interval_secs,
    {
        self.flush_interval_secs
    }

    /// Opts in or out; the events already collected stay until the next
    /// flush.
    pub fn set_enabled(&mut self, enabled: bool)
        ensures
            final(self)@ == (TelemetryView { enabled, ..old(self)@ }),
    {
        self.enabled = enabled;
    }

    /// Whether the user opted in.
    pub fn is_enabled(&self) -> (r: bool)
        ensures
            r == self@.enabled,
    {
        self.enabled
    }

    /// Adds an event when the user opted in, and tells whether it did.
    pub fn record(&mut self, event: E) -> (r: bool)
        ensures
            r == old(self)@.enabled,
            r ==> final(self)@ == (TelemetryView { batch: old(self)@.batch.push(event), ..old(self)@ }),
            !r ==> final(self)@ == old(self)@,
    {
        if !self.enabled {
            return false;
        }
        self.batch.push(event);
        true
    }

    /// The number of events waiting.
    pub fn pending_events(&self) -> (r: usize)
        ensures
            r == self@.batch.len(),
    {
        self.batch.len()
    }

    /// Drops the events without sending them.
    pub fn clear(&mut self)
        ensures
            final(self)@ == (TelemetryView { batch: Seq::<E>::empty(), ..old(self)@ }),
    {
        self.batch.clear();
    }

    /// Starts a flush: a disabled service drops its events; an enabled one
    /// hands out all of them, oldest first, to be sent (none when there
    /// are none). Either way no event is left waiting.
    pub fn begin_flush(&mut self) -> (r: Option<Vec<E>>)
        ensures
            final(self)@ == (TelemetryView { batch: Seq::<E>::empty(), ..old(self)@ }),
            r is Some <==> (old(self)@.enabled && old(self)@.batch.len() > 0),
            r matches Some(v) ==> v@ == old(self)@.batch,
    {
        if !self.enabled {
            self.batch.clear();
            return None;
        }
        let mut events: Vec<E> = Vec::new();
        std::mem::swap(&mut events, &mut self.batch);
        if events.len() == 0 {
            return None;
        }
        Some(events)
    }

    /// Puts back events whose send failed (see [`requeued`]).
    pub fn flush_failed(&mut self, events: Vec<E>)
        ensures
            final(self)@ == (TelemetryView { batch: requeued(old(self)@.batch, events@), ..old(self)@ }),
    {
        let ghost all = self@.batch + events@;
        let mut events = events;
        self.batch.append(&mut events);
        let n = self.batch.len();
        if n > MAX_PENDING_EVENTS {
            let kept = self.batch.split_off(n - MAX_PENDING_EVENTS);
            self.batch = kept;
            proof {
                assert(self.batch@ =~= all.skip(all.len() - MAX_PENDING_EVENTS));
            }
        }
    }
}

/// A failed send loses nothing while the batch is within the limit: when
/// no event was recorded meanwhile, putting the failed events back gives
/// the batch as it was before the flush; and the batch never grows beyond
/// the limit through a retry.
pub proof fn lemma_failed_flush_restores<E>(before: Seq<E>, meanwhile: Seq<E>)
    ensures
        before.len() <= MAX_PENDING_EVENTS ==> requeued(Seq::<E>::empty(), before) == before,
        requeued(meanwhile, before).len() <= MAX_PENDING_EVENTS || requeued(meanwhile, before).len() == (meanwhile
            + before).len(),
        (meanwhile + before).len() > MAX_PENDING_EVENTS ==> requeued(meanwhile, before).len() == MAX_PENDING_EVENTS,
{
    assert(Seq::<E>::empty() + before =~= before);
}

} // verus!
