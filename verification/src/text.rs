//! Character-level text utilities shared by the parsers and argument builders.
//!
//! Text is handled as `Vec<char>` in executable code and as `Seq<char>` in
//! contracts; conversions to and from `str`/`String` are provided here.
use vstd::prelude::*;

verus! {

/// A list of strings as character sequences.
pub open spec fn strings_view(v: Seq<String>) -> Seq<Seq<char>> {
    v.map_values(|s: String| s@)
}

/// Unicode `White_Space` property, the set that `char::is_whitespace` tests.
pub open spec fn is_ws(c: char) -> bool {
    ||| ('\u{9}' <= c && c <= '\u{d}')
    ||| c == ' '
    ||| c == '\u{85}'
    ||| c == '\u{a0}'
    ||| c == '\u{1680}'
    ||| ('\u{2000}' <= c && c <= '\u{200a}')
    ||| c == '\u{2028}'
    ||| c == '\u{2029}'
    ||| c == '\u{202f}'
    ||| c == '\u{205f}'
    ||| c == '\u{3000}'
}

/// Executable whitespace test (same set as `char::is_whitespace`).
pub fn is_whitespace(c: char) -> (r: bool)
    ensures
        r == is_ws(c),
{
    ('\u{9}' <= c && c <= '\u{d}') || c == ' ' || c == '\u{85}' || c == '\u{a0}' || c == '\u{1680}'
        || ('\u{2000}' <= c && c <= '\u{200a}') || c == '\u{2028}' || c == '\u{2029}' || c
        == '\u{202f}' || c == '\u{205f}' || c == '\u{3000}'
}

pub open spec fn is_digit(c: char) -> bool {
    '0' <= c && c <= '9'
}

pub open spec fn is_hex(c: char) -> bool {
    ||| ('0' <= c && c <= '9')
    ||| ('a' <= c && c <= 'f')
    ||| ('A' <= c && c <= 'F')
}

pub open spec fn is_ascii_alpha(c: char) -> bool {
    ('a' <= c && c <= 'z') || ('A' <= c && c <= 'Z')
}

/// Name for the result of `str::to_lowercase` on text that is not all
/// ASCII (Unicode lowercase mapping).
pub uninterp spec fn lowercase_of(s: Seq<char>) -> Seq<char>;

/// Every character is ASCII.
pub open spec fn is_ascii_text(s: Seq<char>) -> bool {
    forall|i: int| 0 <= i < s.len() ==> (#[trigger] s[i] as u32) < 128
}

/// ASCII lowercase of a character: `A`..`Z` become `a`..`z`.
pub open spec fn ascii_lower_char(c: char) -> char {
    if 'A' <= c && c <= 'Z' {
        ((c as u32) + 32) as char
    } else {
        c
    }
}

/// What `str::to_lowercase` gives: on ASCII text, each letter lowercased
/// and everything else kept; otherwise the Unicode mapping.
pub open spec fn lowercased(s: Seq<char>) -> Seq<char> {
    if is_ascii_text(s) {
        s.map_values(|c: char| ascii_lower_char(c))
    } else {
        lowercase_of(s)
    }
}

/// Calls `str::to_lowercase`: on ASCII text the result is the ASCII
/// lowercase of each character; otherwise it is the Unicode lowercase
/// mapping, which depends on the text alone and is not stated further.
#[verifier::external_body]
pub(crate) fn to_lowercase(s: &str) -> (r: String)
    ensures
        r@ == lowercased(s@),
        !is_ascii_text(s@) ==> r@ == lowercase_of(s@),
{
    s.to_lowercase()
}

/// Calls `String::push`: appends one character.
#[verifier::external_body]
pub(crate) fn push_char(s: &mut String, c: char)
    ensures
        final(s)@ == old(s)@.push(c),
{
    s.push(c)
}

/// The characters of a string slice.
pub fn chars_of(s: &str) -> (r: Vec<char>)
    ensures
        r@ == s@,
{
    let mut r: Vec<char> = Vec::new();
    proof {
        vstd::string::axiom_spec_iter(s);
    }
    for c in it: s.chars()
        invariant
            it.seq() == s@,
            r@ == it.seq().take(it.index() as int),
    {
        proof {
            assert(it.seq().take(it.index() as int + 1) =~= it.seq().take(it.index() as int).push(c));
        }
        r.push(c);
    }
    proof {
        assert(r@ =~= s@);
    }
    r
}

/// A `String` holding exactly the given characters.
pub fn string_of(v: &[char]) -> (r: String)
    ensures
        r@ == v@,
{
    let mut r = String::new();
    let mut i: usize = 0;
    while i < v.len()
        invariant
            i <= v@.len(),
            r@ == v@.take(i as int),
        decreases v@.len() - i,
    {
        push_char(&mut r, v[i]);
        proof {
            assert(v@.take(i as int + 1) =~= v@.take(i as int).push(v@[i as int]));
        }
        i = i + 1;
    }
    proof {
        assert(v@.take(i as int) =~= v@);
    }
    r
}

/// A `String` copy of a string slice.
pub fn owned(s: &str) -> (r: String)
    ensures
        r@ == s@,
{
    s.to_owned()
}

/// Appends the characters of `s` to `v`.
pub fn extend_chars(v: &mut Vec<char>, s: &[char])
    ensures
        final(v)@ == old(v)@ + s@,
{
    let mut i: usize = 0;
    while i < s.len()
        invariant
            i <= s@.len(),
            v@ == old(v)@ + s@.take(i as int),
        decreases s@.len() - i,
    {
        v.push(s[i]);
        proof {
            assert(s@.take(i as int + 1) =~= s@.take(i as int).push(s@[i as int]));
        }
        i = i + 1;
    }
    proof {
        assert(s@.take(i as int) =~= s@);
    }
}

/// Copies a slice of characters.
pub fn copy_chars(s: &[char]) -> (r: Vec<char>)
    ensures
        r@ == s@,
{
    let mut r: Vec<char> = Vec::new();
    extend_chars(&mut r, s);
    proof {
        assert(Seq::<char>::empty() + s@ =~= s@);
    }
    r
}

/// The characters `s[lo..hi]`.
pub fn slice_chars(s: &[char], lo: usize, hi: usize) -> (r: Vec<char>)
    requires
        lo <= hi <= s@.len(),
    ensures
        r@ == s@.subrange(lo as int, hi as int),
{
    let mut r: Vec<char> = Vec::new();
    let mut i = lo;
    while i < hi
        invariant
            lo <= i <= hi <= s@.len(),
            r@ == s@.subrange(lo as int, i as int),
        decreases hi - i,
    {
        r.push(s[i]);
        proof {
            assert(s@.subrange(lo as int, i as int + 1) =~= s@.subrange(lo as int, i as int).push(
                s@[i as int],
            ));
        }
        i = i + 1;
    }
    r
}

// ---------------------------------------------------------------------------
// Equality, prefixes, suffixes and substrings
// ---------------------------------------------------------------------------

/// Character-wise equality of two sequences.
pub fn chars_eq(a: &[char], b: &[char]) -> (r: bool)
    ensures
        r == (a@ == b@),
{
    if a.len() != b.len() {
        return false;
    }
    let mut i: usize = 0;
    while i < a.len()
        invariant
            a@.len() == b@.len(),
            i <= a@.len(),
            forall|k: int| 0 <= k < i ==> a@[k] == b@[k],
        decreases a@.len() - i,
    {
        if a[i] != b[i] {
            return false;
        }
        i = i + 1;
    }
    proof {
        assert(a@ =~= b@);
    }
    true
}

/// `p` occurs in `s` starting at index `i`.
pub open spec fn occurs_at(s: Seq<char>, p: Seq<char>, i: int) -> bool {
    0 <= i && i + p.len() <= s.len() && s.subrange(i, i + p.len()) == p
}

pub open spec fn has_prefix(s: Seq<char>, p: Seq<char>) -> bool {
    occurs_at(s, p, 0)
}

pub open spec fn has_suffix(s: Seq<char>, p: Seq<char>) -> bool {
    occurs_at(s, p, s.len() - p.len())
}

/// `p` is a substring of `s` (the empty string is a substring of every string).
pub open spec fn contains_sub(s: Seq<char>, p: Seq<char>) -> bool {
    exists|i: int| occurs_at(s, p, i)
}

/// Whether `p` occurs in `s` at index `i`.
pub fn matches_at(s: &[char], p: &[char], i: usize) -> (r: bool)
    ensures
        r == occurs_at(s@, p@, i as int),
{
    if i > s.len() || p.len() > s.len() - i {
        return false;
    }
    let mut k: usize = 0;
    while k < p.len()
        invariant
            i + p@.len() <= s@.len(),
            s@.len() == s.len(),
            k <= p@.len(),
            forall|j: int| 0 <= j < k ==> s@[i + j] == p@[j],
        decreases p@.len() - k,
    {
        if s[i + k] != p[k] {
            proof {
                assert(s@.subrange(i as int, i + p@.len())[k as int] != p@[k as int]);
            }
            return false;
        }
        k = k + 1;
    }
    proof {
        assert(s@.subrange(i as int, i + p@.len()) =~= p@);
    }
    true
}

pub fn starts_with(s: &[char], p: &[char]) -> (r: bool)
    ensures
        r == has_prefix(s@, p@),
{
    matches_at(s, p, 0)
}

pub fn ends_with(s: &[char], p: &[char]) -> (r: bool)
    ensures
        r == has_suffix(s@, p@),
{
    if p.len() > s.len() {
        return false;
    }
    matches_at(s, p, s.len() - p.len())
}

/// Smallest index `>= from` at which `p` occurs in `s`, if any.
pub open spec fn first_occurrence_from(s: Seq<char>, p: Seq<char>, from: int, r: Option<int>) -> bool {
    match r {
        Some(i) => from <= i && occurs_at(s, p, i) && forall|j: int|
            from <= j < i ==> !occurs_at(s, p, j),
        None => forall|j: int| from <= j ==> !occurs_at(s, p, j),
    }
}

/// Index of the first occurrence of `p` in `s` at or after `from`.
pub open spec fn find_first(s: Seq<char>, p: Seq<char>, from: int) -> Option<int>
    decreases s.len() + 1 - from,
{
    if from < 0 || from + p.len() > s.len() {
        None
    } else if occurs_at(s, p, from) {
        Some(from)
    } else {
        find_first(s, p, from + 1)
    }
}

proof fn lemma_find_first(s: Seq<char>, p: Seq<char>, from: int, r: Option<int>)
    requires
        from >= 0,
        first_occurrence_from(s, p, from, r),
    ensures
        r == find_first(s, p, from),
    decreases s.len() + 1 - from,
{
    if from + p.len() > s.len() {
        match r {
            Some(i) => {
                assert(occurs_at(s, p, i));
            },
            None => {},
        }
    } else if occurs_at(s, p, from) {
        match r {
            Some(i) => {
                if i > from {
                    assert(!occurs_at(s, p, from));
                }
            },
            None => {
                assert(!occurs_at(s, p, from));
            },
        }
    } else {
        match r {
            Some(i) => {
                assert(i != from);
            },
            None => {},
        }
        lemma_find_first(s, p, from + 1, r);
    }
}

/// Finds the first occurrence of `p` in `s` at or after `from`.
pub fn find_from(s: &[char], p: &[char], from: usize) -> (r: Option<usize>)
    ensures
        find_first(
            s@,
            p@,
            from as int,
        ) == match r {
            Some(i) => Some(i as int),
            None => None,
        },
        first_occurrence_from(
            s@,
            p@,
            from as int,
            match r {
                Some(i) => Some(i as int),
                None => None,
            },
        ),
{
    if from > s.len() {
        proof {
            assert forall|j: int| from <= j implies !occurs_at(s@, p@, j) by {}
            lemma_find_first(s@, p@, from as int, None);
        }
        return None;
    }
    let mut i = from;
    while i < s.len()
        invariant
            from <= i <= s@.len(),
            forall|j: int| from <= j < i ==> !occurs_at(s@, p@, j),
        decreases s@.len() - i,
    {
        if matches_at(s, p, i) {
            proof {
                lemma_find_first(s@, p@, from as int, Some(i as int));
            }
            return Some(i);
        }
        i = i + 1;
    }
    if matches_at(s, p, i) {
        proof {
            lemma_find_first(s@, p@, from as int, Some(i as int));
        }
        return Some(i);
    }
    proof {
        assert forall|j: int| from <= j implies !occurs_at(s@, p@, j) by {
            if j > i {
                assert(j + p@.len() > s@.len());
            }
        }
        lemma_find_first(s@, p@, from as int, None);
    }
    None
}

pub fn contains(s: &[char], p: &[char]) -> (r: bool)
    ensures
        r == contains_sub(s@, p@),
{
    match find_from(s, p, 0) {
        Some(i) => true,
        None => {
            proof {
                assert forall|j: int| !occurs_at(s@, p@, j) by {
                    if j < 0 {
                    }
                }
            }
            false
        },
    }
}

/// Whether the character `c` occurs in `s`.
pub fn has_char(s: &[char], c: char) -> (r: bool)
    ensures
        r == s@.contains(c),
{
    let mut i: usize = 0;
    while i < s.len()
        invariant
            i <= s@.len(),
            forall|k: int| 0 <= k < i ==> s@[k] != c,
        decreases s@.len() - i,
    {
        if s[i] == c {
            return true;
        }
        i = i + 1;
    }
    false
}

/// Character-wise equality of two string slices.
pub fn str_eq(a: &str, b: &str) -> (r: bool)
    ensures
        r == (a@ == b@),
{
    let av = chars_of(a);
    let bv = chars_of(b);
    chars_eq(&av, &bv)
}

/// Concatenation of three character sequences as a `String`.
pub fn concat3(a: &[char], b: &[char], c: &[char]) -> (r: String)
    ensures
        r@ == a@ + b@ + c@,
{
    let mut v = copy_chars(a);
    extend_chars(&mut v, b);
    extend_chars(&mut v, c);
    string_of(&v)
}

/// Whether the string slice `s`, as characters, contains `p`.
pub fn str_contains(s: &str, p: &str) -> (r: bool)
    ensures
        r == contains_sub(s@, p@),
{
    let sv = chars_of(s);
    let pv = chars_of(p);
    contains(&sv, &pv)
}

// ---------------------------------------------------------------------------
// Trimming
// ---------------------------------------------------------------------------

pub open spec fn trim_start(s: Seq<char>) -> Seq<char>
    decreases s.len(),
{
    if s.len() > 0 && is_ws(s[0]) {
        trim_start(s.drop_first())
    } else {
        s
    }
}

pub open spec fn trim_end(s: Seq<char>) -> Seq<char>
    decreases s.len(),
{
    if s.len() > 0 && is_ws(s.last()) {
        trim_end(s.drop_last())
    } else {
        s
    }
}

/// What `str::trim` gives: leading and trailing whitespace removed.
pub open spec fn trim(s: Seq<char>) -> Seq<char> {
    trim_end(trim_start(s))
}

proof fn lemma_trim_start_skip(s: Seq<char>, i: int)
    requires
        0 <= i <= s.len(),
        forall|k: int| 0 <= k < i ==> is_ws(s[k]),
    ensures
        trim_start(s) == trim_start(s.skip(i)),
    decreases i,
{
    if i > 0 {
        assert(s.drop_first().skip(i - 1) =~= s.skip(i));
        lemma_trim_start_skip(s.drop_first(), i - 1);
    } else {
        assert(s.skip(0) =~= s);
    }
}

proof fn lemma_trim_end_take(s: Seq<char>, i: int)
    requires
        0 <= i <= s.len(),
        forall|k: int| i <= k < s.len() ==> is_ws(s[k]),
    ensures
        trim_end(s) == trim_end(s.take(i)),
    decreases s.len() - i,
{
    if i < s.len() {
        assert(s.drop_last().take(i) =~= s.take(i));
        lemma_trim_end_take(s.drop_last(), i);
    } else {
        assert(s.take(i) =~= s);
    }
}

/// `str::trim` on characters.
pub fn trim_chars(s: &[char]) -> (r: Vec<char>)
    ensures
        r@ == trim(s@),
{
    let mut lo: usize = 0;
    while lo < s.len() && is_whitespace(s[lo])
        invariant
            lo <= s@.len(),
            forall|k: int| 0 <= k < lo ==> is_ws(s@[k]),
        decreases s@.len() - lo,
    {
        lo = lo + 1;
    }
    let mut hi: usize = s.len();
    while hi > lo && is_whitespace(s[hi - 1])
        invariant
            lo <= hi <= s@.len(),
            forall|k: int| hi <= k < s@.len() ==> is_ws(s@[k]),
        decreases hi,
    {
        hi = hi - 1;
    }
    proof {
        lemma_trim_start_skip(s@, lo as int);
        let t = s@.skip(lo as int);
        if lo < s@.len() {
            assert(!is_ws(t[0]));
        }
        assert(trim_start(t) == t);
        lemma_trim_end_take(t, (hi - lo) as int);
        let u = t.take((hi - lo) as int);
        assert(u =~= s@.subrange(lo as int, hi as int));
        if hi > lo {
            assert(!is_ws(u.last()));
        }
        assert(trim_end(u) == u);
    }
    slice_chars(s, lo, hi)
}

// ---------------------------------------------------------------------------
// Splitting
// ---------------------------------------------------------------------------

/// What `str::split(sep)` yields: the pieces between separators, in order;
/// there is always at least one piece (`""` splits into `[""]`).
pub open spec fn split_on(s: Seq<char>, sep: char) -> Seq<Seq<char>>
    decreases s.len(),
{
    if s.len() == 0 {
        seq![Seq::empty()]
    } else {
        let prev = split_on(s.drop_last(), sep);
        if s.last() == sep {
            prev.push(Seq::empty())
        } else {
            prev.update(prev.len() - 1, prev.last().push(s.last()))
        }
    }
}

pub proof fn lemma_split_nonempty(s: Seq<char>, sep: char)
    ensures
        split_on(s, sep).len() >= 1,
    decreases s.len(),
{
    if s.len() > 0 {
        lemma_split_nonempty(s.drop_last(), sep);
    }
}

/// With a separator present, splitting gives at least two pieces.
/// Every piece of a split is a substring of the split text, and the last
/// piece ends it.
pub proof fn lemma_split_pieces_occur(s: Seq<char>, sep: char, k: int)
    requires
        0 <= k < split_on(s, sep).len(),
    ensures
        contains_sub(s, split_on(s, sep)[k]),
        has_suffix(s, split_on(s, sep).last()),
    decreases s.len(),
{
    lemma_split_nonempty(s, sep);
    if s.len() == 0 {
        assert(occurs_at(s, split_on(s, sep)[k], 0)) by {
            assert(s.subrange(0, 0) =~= split_on(s, sep)[k]);
        }
        assert(s.subrange(0, 0) =~= split_on(s, sep).last());
    } else {
        let d = s.drop_last();
        let prev = split_on(d, sep);
        lemma_split_nonempty(d, sep);
        let kk = if k < prev.len() { k } else { prev.len() - 1 };
        lemma_split_pieces_occur(d, sep, kk);
        let lastp = prev.last();
        assert(occurs_at(d, lastp, d.len() - lastp.len()));
        if s.last() == sep {
            assert(s.subrange(s.len() as int, s.len() as int) =~= split_on(s, sep).last());
            if k < prev.len() {
                let i = choose|i: int| occurs_at(d, prev[k], i);
                assert(s.subrange(i, i + prev[k].len()) =~= d.subrange(i, i + prev[k].len()));
                assert(occurs_at(s, split_on(s, sep)[k], i));
            } else {
                assert(occurs_at(s, split_on(s, sep)[k], s.len() as int)) by {
                    assert(s.subrange(s.len() as int, s.len() as int) =~= split_on(s, sep)[k]);
                }
            }
        } else {
            let np = lastp.push(s.last());
            let st = d.len() - lastp.len();
            assert(s.subrange(st, s.len() as int) =~= np) by {
                assert(d.subrange(st, d.len() as int) =~= lastp);
            }
            assert(split_on(s, sep).last() == np);
            assert(occurs_at(s, np, st));
            if k < prev.len() - 1 {
                let i = choose|i: int| occurs_at(d, prev[k], i);
                assert(s.subrange(i, i + prev[k].len()) =~= d.subrange(i, i + prev[k].len()));
                assert(occurs_at(s, split_on(s, sep)[k], i));
            } else {
                assert(occurs_at(s, split_on(s, sep)[k], st));
            }
        }
    }
}

/// Appending text without the separator extends the last piece.
pub proof fn lemma_split_append_plain(a: Seq<char>, b: Seq<char>, sep: char)
    requires
        !b.contains(sep),
    ensures
        split_on(a + b, sep) == split_on(a, sep).update(
            split_on(a, sep).len() - 1,
            split_on(a, sep).last() + b,
        ),
    decreases b.len(),
{
    lemma_split_nonempty(a, sep);
    let pa = split_on(a, sep);
    if b.len() == 0 {
        assert(a + b =~= a);
        assert(pa.last() + b =~= pa.last());
        assert(pa.update(pa.len() - 1, pa.last() + b) =~= pa);
    } else {
        let bd = b.drop_last();
        assert(!bd.contains(sep)) by {
            if bd.contains(sep) {
                let k = choose|k: int| 0 <= k < bd.len() && bd[k] == sep;
                assert(b[k] == sep);
            }
        }
        lemma_split_append_plain(a, bd, sep);
        assert((a + b).drop_last() =~= a + bd);
        assert((a + b).last() == b.last());
        assert(b.last() != sep) by {
            assert(b[b.len() - 1] == b.last());
        }
        let prev = split_on(a + bd, sep);
        assert(prev.last() == pa.last() + bd);
        assert((pa.last() + bd).push(b.last()) =~= pa.last() + b);
        assert(prev.update(prev.len() - 1, prev.last().push(b.last())) =~= pa.update(
            pa.len() - 1,
            pa.last() + b,
        ));
    }
}

/// Appending the separator starts a new, empty piece.
pub proof fn lemma_split_append_sep(a: Seq<char>, sep: char)
    ensures
        split_on(a.push(sep), sep) == split_on(a, sep).push(Seq::empty()),
{
    assert(a.push(sep).drop_last() =~= a);
    assert(a.push(sep).last() == sep);
}

pub proof fn lemma_split_two(s: Seq<char>, sep: char)
    requires
        s.contains(sep),
    ensures
        split_on(s, sep).len() >= 2,
    decreases s.len(),
{
    lemma_split_nonempty(s, sep);
    if s.len() > 0 {
        lemma_split_nonempty(s.drop_last(), sep);
        if s.last() != sep {
            let k = choose|k: int| 0 <= k < s.len() && s[k] == sep;
            assert(k != s.len() - 1);
            assert(s.drop_last()[k] == sep);
            lemma_split_two(s.drop_last(), sep);
        }
    }
}

/// Splits characters at every `sep`, as `str::split` does.
pub fn split_chars(s: &[char], sep: char) -> (r: Vec<Vec<char>>)
    ensures
        r@.len() == split_on(s@, sep).len(),
        forall|k: int| 0 <= k < r@.len() ==> #[trigger] r@[k]@ == split_on(s@, sep)[k],
{
    let mut parts: Vec<Vec<char>> = Vec::new();
    let mut cur: Vec<char> = Vec::new();
    let mut i: usize = 0;
    while i < s.len()
        invariant
            i <= s@.len(),
            parts@.len() + 1 == split_on(s@.take(i as int), sep).len(),
            forall|k: int|
                0 <= k < parts@.len() ==> #[trigger] parts@[k]@ == split_on(s@.take(i as int), sep)[k],
            cur@ == split_on(s@.take(i as int), sep).last(),
        decreases s@.len() - i,
    {
        proof {
            let t = s@.take(i as int + 1);
            assert(t.drop_last() =~= s@.take(i as int));
            assert(t.last() == s@[i as int]);
            lemma_split_nonempty(s@.take(i as int), sep);
        }
        if s[i] == sep {
            let done = cur;
            parts.push(done);
            cur = Vec::new();
        } else {
            cur.push(s[i]);
        }
        i = i + 1;
    }
    parts.push(cur);
    proof {
        assert(s@.take(i as int) =~= s@);
        lemma_split_nonempty(s@, sep);
    }
    parts
}

// ---------------------------------------------------------------------------
// Whitespace-separated tokens
// ---------------------------------------------------------------------------

/// What `str::split_whitespace` yields: the maximal runs of non-whitespace
/// characters, in order.
pub open spec fn words(s: Seq<char>) -> Seq<Seq<char>>
    decreases s.len(),
{
    words_acc(s, Seq::empty())
}

/// Tokens of `s` when the characters before `s` end in the (non-empty or empty) run `cur`.
pub open spec fn words_acc(s: Seq<char>, cur: Seq<char>) -> Seq<Seq<char>>
    decreases s.len(),
{
    if s.len() == 0 {
        if cur.len() == 0 {
            Seq::empty()
        } else {
            seq![cur]
        }
    } else if is_ws(s[0]) {
        if cur.len() == 0 {
            words_acc(s.drop_first(), cur)
        } else {
            seq![cur] + words_acc(s.drop_first(), Seq::empty())
        }
    } else {
        words_acc(s.drop_first(), cur.push(s[0]))
    }
}

/// Splits characters into whitespace-separated tokens.
pub fn split_words(s: &[char]) -> (r: Vec<Vec<char>>)
    ensures
        r@.len() == words(s@).len(),
        forall|k: int| 0 <= k < r@.len() ==> #[trigger] r@[k]@ == words(s@)[k],
{
    let mut toks: Vec<Vec<char>> = Vec::new();
    let mut cur: Vec<char> = Vec::new();
    let mut i: usize = 0;
    proof {
        assert(s@.skip(0) =~= s@);
        assert(toks@.map_values(|t: Vec<char>| t@) + words_acc(s@, cur@) =~= words_acc(s@, cur@));
    }
    while i < s.len()
        invariant
            i <= s@.len(),
            forall|k: int| 0 <= k < toks@.len() ==> #[trigger] toks@[k]@ == (toks@.map_values(
                |t: Vec<char>| t@,
            ))[k],
            toks@.map_values(|t: Vec<char>| t@) + words_acc(s@.skip(i as int), cur@) == words(s@),
        decreases s@.len() - i,
    {
        let ghost rest = s@.skip(i as int);
        proof {
            assert(rest.drop_first() =~= s@.skip(i as int + 1));
            assert(rest[0] == s@[i as int]);
        }
        if is_whitespace(s[i]) {
            if cur.len() > 0 {
                let ghost old_toks = toks@.map_values(|t: Vec<char>| t@);
                let done = cur;
                toks.push(done);
                cur = Vec::new();
                proof {
                    assert(toks@.map_values(|t: Vec<char>| t@) =~= old_toks.push(done@));
                    assert(old_toks + (seq![done@] + words_acc(s@.skip(i as int + 1), Seq::empty()))
                        =~= old_toks.push(done@) + words_acc(s@.skip(i as int + 1), Seq::empty()));
                }
            }
        } else {
            cur.push(s[i]);
        }
        i = i + 1;
    }
    proof {
        assert(s@.skip(i as int) =~= Seq::<char>::empty());
    }
    if cur.len() > 0 {
        let ghost old_toks = toks@.map_values(|t: Vec<char>| t@);
        toks.push(cur);
        proof {
            assert(toks@.map_values(|t: Vec<char>| t@) =~= old_toks + words_acc(
                Seq::<char>::empty(),
                toks@.last()@,
            ));
        }
    } else {
        proof {
            assert(toks@.map_values(|t: Vec<char>| t@) =~= toks@.map_values(|t: Vec<char>| t@)
                + words_acc(Seq::<char>::empty(), cur@));
        }
    }
    proof {
        assert(toks@.map_values(|t: Vec<char>| t@) =~= words(s@));
    }
    toks
}

} // verus!
