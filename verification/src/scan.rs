//! Low-level scanners over character sequences: whitespace skipping,
//! identifier scanning, string-literal scanning with escapes, and trimming.
//! Each scanner exists twice, as a specification function over `Seq<char>`
//! and as an executable mirror proved to return exactly what the
//! specification describes.

use vstd::prelude::*;

use crate::text::{is_ident_char, is_ident_start, is_ws};

verus! {

/// The first position at or after `i` holding a non-whitespace character,
/// or the length of `s` if there is none.
pub open spec fn skip_ws(s: Seq<char>, i: int) -> int
    decreases s.len() - i,
{
    if 0 <= i < s.len() && is_ws(s[i]) {
        skip_ws(s, i + 1)
    } else {
        i
    }
}

/// `skip_ws` lands between `i` and the end, on a non-whitespace character
/// unless it is the end, and skips only whitespace.
pub proof fn lemma_skip_ws_bounds(s: Seq<char>, i: int)
    requires
        0 <= i <= s.len(),
    ensures
        i <= skip_ws(s, i) <= s.len(),
        skip_ws(s, i) < s.len() ==> !is_ws(s[skip_ws(s, i)]),
        forall|k: int| i <= k < skip_ws(s, i) ==> is_ws(#[trigger] s[k]),
    decreases s.len() - i,
{
    if 0 <= i < s.len() && is_ws(s[i]) {
        lemma_skip_ws_bounds(s, i + 1);
    }
}

/// Where a whitespace run is known to end, `skip_ws` lands exactly there.
pub proof fn lemma_skip_ws_range(s: Seq<char>, i: int, j: int)
    requires
        0 <= i <= j <= s.len(),
        forall|k: int| i <= k < j ==> is_ws(#[trigger] s[k]),
        j == s.len() || !is_ws(s[j]),
    ensures
        skip_ws(s, i) == j,
    decreases j - i,
{
    if i < j {
        lemma_skip_ws_range(s, i + 1, j);
    }
}

/// Runtime mirror of `skip_ws`.
pub fn skip_ws_exec(v: &Vec<char>, i: usize) -> (r: usize)
    requires
        i <= v@.len(),
    ensures
        r == skip_ws(v@, i as int),
        i <= r <= v@.len(),
{
    proof {
        lemma_skip_ws_bounds(v@, i as int);
    }
    let mut k: usize = i;
    while k < v.len() && crate::text::ws_char(v[k])
        invariant
            i <= k <= v@.len(),
            skip_ws(v@, i as int) == skip_ws(v@, k as int),
        decreases v@.len() - k,
    {
        k = k + 1;
    }
    k
}

/// The end of the identifier-character run starting at `i`.
pub open spec fn scan_ident_end(s: Seq<char>, i: int) -> int
    decreases s.len() - i,
{
    if 0 <= i < s.len() && is_ident_char(s[i]) {
        scan_ident_end(s, i + 1)
    } else {
        i
    }
}

/// `scan_ident_end` lands between `i` and the end, just after the run of
/// identifier characters.
pub proof fn lemma_scan_ident_bounds(s: Seq<char>, i: int)
    requires
        0 <= i <= s.len(),
    ensures
        i <= scan_ident_end(s, i) <= s.len(),
        scan_ident_end(s, i) < s.len() ==> !is_ident_char(s[scan_ident_end(s, i)]),
        forall|k: int| i <= k < scan_ident_end(s, i) ==> is_ident_char(#[trigger] s[k]),
    decreases s.len() - i,
{
    if 0 <= i < s.len() && is_ident_char(s[i]) {
        lemma_scan_ident_bounds(s, i + 1);
    }
}

/// Where an identifier-character run is known to end, `scan_ident_end`
/// lands exactly there.
pub proof fn lemma_scan_ident_range(s: Seq<char>, i: int, j: int)
    requires
        0 <= i <= j <= s.len(),
        forall|k: int| i <= k < j ==> is_ident_char(#[trigger] s[k]),
        j == s.len() || !is_ident_char(s[j]),
    ensures
        scan_ident_end(s, i) == j,
    decreases j - i,
{
    if i < j {
        lemma_scan_ident_range(s, i + 1, j);
    }
}

/// Runtime mirror of `scan_ident_end`.
pub fn scan_ident_end_exec(v: &Vec<char>, i: usize) -> (r: usize)
    requires
        i <= v@.len(),
    ensures
        r == scan_ident_end(v@, i as int),
        i <= r <= v@.len(),
{
    proof {
        lemma_scan_ident_bounds(v@, i as int);
    }
    let mut k: usize = i;
    while k < v.len() && crate::text::ident_char(v[k])
        invariant
            i <= k <= v@.len(),
            scan_ident_end(v@, i as int) == scan_ident_end(v@, k as int),
        decreases v@.len() - k,
    {
        k = k + 1;
    }
    k
}

/// The position one past the last non-whitespace character at or before
/// position `i - 1`, or zero if all of them are whitespace.
pub open spec fn trim_end_from(s: Seq<char>, i: int) -> int
    decreases i,
{
    if 0 < i <= s.len() && is_ws(s[i - 1]) {
        trim_end_from(s, i - 1)
    } else {
        i
    }
}

/// `trim_end_from` lands at or before `i`, right after a non-whitespace
/// character unless it is zero, and cuts only whitespace.
pub proof fn lemma_trim_end_bounds(s: Seq<char>, i: int)
    requires
        0 <= i <= s.len(),
    ensures
        0 <= trim_end_from(s, i) <= i,
        trim_end_from(s, i) > 0 ==> !is_ws(s[trim_end_from(s, i) - 1]),
        forall|k: int| trim_end_from(s, i) <= k < i ==> is_ws(#[trigger] s[k]),
    decreases i,
{
    if 0 < i <= s.len() && is_ws(s[i - 1]) {
        lemma_trim_end_bounds(s, i - 1);
    }
}

/// Where a trailing whitespace run is known to start, `trim_end_from`
/// lands exactly there.
pub proof fn lemma_trim_end_range(s: Seq<char>, i: int, j: int)
    requires
        0 <= j <= i <= s.len(),
        forall|k: int| j <= k < i ==> is_ws(#[trigger] s[k]),
        j == 0 || !is_ws(s[j - 1]),
    ensures
        trim_end_from(s, i) == j,
    decreases i - j,
{
    if j < i {
        lemma_trim_end_range(s, i - 1, j);
    }
}

/// Runtime mirror of `trim_end_from`, from the end of the vector.
pub fn trim_end_exec(v: &Vec<char>, i: usize) -> (r: usize)
    requires
        i <= v@.len(),
    ensures
        r == trim_end_from(v@, i as int),
        r <= i,
{
    proof {
        lemma_trim_end_bounds(v@, i as int);
    }
    let mut k: usize = i;
    while k > 0 && crate::text::ws_char(v[k - 1])
        invariant
            k <= i <= v@.len(),
            trim_end_from(v@, i as int) == trim_end_from(v@, k as int),
        decreases k,
    {
        k = k - 1;
    }
    k
}

/// The text with leading and trailing whitespace removed.
pub open spec fn trim(s: Seq<char>) -> Seq<char> {
    let start = skip_ws(s, 0);
    let end = trim_end_from(s, s.len() as int);
    if start <= end {
        s.subrange(start, end)
    } else {
        Seq::empty()
    }
}

/// If the text holds a non-whitespace character, trimming keeps a non-empty
/// middle part: the leading run ends at or before the trailing run begins.
pub proof fn lemma_trim_nonempty(s: Seq<char>)
    requires
        skip_ws(s, 0) < s.len(),
    ensures
        skip_ws(s, 0) < trim_end_from(s, s.len() as int),
        trim(s).len() > 0,
        !is_ws(trim(s)[0]),
        !is_ws(trim(s)[trim(s).len() - 1]),
        trim(s) == s.subrange(skip_ws(s, 0), trim_end_from(s, s.len() as int)),
{
    let start = skip_ws(s, 0);
    let end = trim_end_from(s, s.len() as int);
    lemma_skip_ws_bounds(s, 0);
    lemma_trim_end_bounds(s, s.len() as int);
    assert(!is_ws(s[start]));
    if end <= start {
        assert(is_ws(s[start]));
        assert(false);
    }
}

/// Runtime trimming of a character vector.
pub fn trim_exec(v: &Vec<char>) -> (r: Vec<char>)
    ensures
        r@ == trim(v@),
{
    let start = skip_ws_exec(v, 0);
    let end = trim_end_exec(v, v.len());
    let mut r: Vec<char> = Vec::new();
    if start >= end {
        proof {
            lemma_skip_ws_bounds(v@, 0);
            lemma_trim_end_bounds(v@, v@.len() as int);
            if start < v@.len() {
                lemma_trim_nonempty(v@);
                assert(false);
            }
            assert(r@ =~= trim(v@));
        }
        return r;
    }
    let mut k: usize = start;
    while k < end
        invariant
            start <= k <= end <= v@.len(),
            r@ == v@.subrange(start as int, k as int),
        decreases end - k,
    {
        r.push(v[k]);
        proof {
            assert(r@ =~= v@.subrange(start as int, k as int + 1));
        }
        k = k + 1;
    }
    proof {
        assert(r@ =~= trim(v@));
    }
    r
}

/// What scanning a string-literal body yields, on the text after the
/// opening quote: the unescaped value and the number of characters
/// consumed, the closing quote included. `None` when the literal never
/// closes or holds an unsupported escape.
pub open spec fn scan_string(s: Seq<char>) -> Option<(Seq<char>, int)>
    decreases s.len(),
{
    if s.len() == 0 {
        None
    } else if s[0] == '"' {
        Some((Seq::empty(), 1))
    } else if s[0] == '\\' {
        if s.len() >= 2 {
            match unescape_char(s[1]) {
                Some(c) => match scan_string(s.skip(2)) {
                    Some((value, used)) => Some((seq![c] + value, used + 2)),
                    None => None,
                },
                None => None,
            }
        } else {
            None
        }
    } else {
        match scan_string(s.skip(1)) {
            Some((value, used)) => Some((seq![s[0]] + value, used + 1)),
            None => None,
        }
    }
}

/// The character an escape sequence stands for, if the escape is
/// supported.
pub open spec fn unescape_char(c: char) -> Option<char> {
    if c == '"' {
        Some('"')
    } else if c == '\\' {
        Some('\\')
    } else if c == 'n' {
        Some('\n')
    } else if c == 'r' {
        Some('\r')
    } else if c == 't' {
        Some('\t')
    } else if c == '0' {
        Some('\0')
    } else if c == '\'' {
        Some('\'')
    } else {
        None
    }
}

/// A successful scan consumes at least the closing quote and no more than
/// the whole text.
pub proof fn lemma_scan_string_bounds(s: Seq<char>)
    ensures
        scan_string(s) matches Some((value, used)) ==> 1 <= used <= s.len(),
    decreases s.len(),
{
    if s.len() == 0 {
    } else if s[0] == '"' {
    } else if s[0] == '\\' {
        if s.len() >= 2 {
            lemma_scan_string_bounds(s.skip(2));
        }
    } else {
        lemma_scan_string_bounds(s.skip(1));
    }
}

/// Runtime mirror of `scan_string`, scanning `v` from position `i` (just
/// after the opening quote). Returns the value and the position just after
/// the closing quote.
pub fn scan_string_exec(v: &Vec<char>, i: usize) -> (r: Option<(Vec<char>, usize)>)
    requires
        i <= v@.len(),
    ensures
        match r {
            Some((value, end)) => {
                &&& scan_string(v@.skip(i as int)) == Some((value@, (end - i) as int))
                &&& i <= end <= v@.len()
            }
            None => scan_string(v@.skip(i as int)) is None,
        },
{
    let mut value: Vec<char> = Vec::new();
    let mut k: usize = i;
    loop
        invariant
            i <= k <= v@.len(),
            match scan_string(v@.skip(i as int)) {
                Some(p) => scan_string(v@.skip(k as int)) matches Some(q) && p.0 == value@ + q.0
                    && p.1 == q.1 + (k - i),
                None => scan_string(v@.skip(k as int)) is None,
            },
        decreases v@.len() - k,
    {
        proof {
            assert(v@.skip(k as int).len() == v@.len() - k);
            lemma_scan_string_bounds(v@.skip(k as int));
        }
        if k >= v.len() {
            proof {
                assert(v@.skip(k as int).len() == 0);
            }
            return None;
        }
        let c = v[k];
        proof {
            assert(v@.skip(k as int)[0] == v@[k as int]);
        }
        if c == '"' {
            proof {
                assert(scan_string(v@.skip(k as int)) == Some((Seq::<char>::empty(), 1int)));
                assert(value@ + Seq::<char>::empty() =~= value@);
            }
            return Some((value, k + 1));
        } else if c == '\\' {
            if k + 1 >= v.len() {
                proof {
                    assert(v@.skip(k as int).len() < 2);
                    assert(scan_string(v@.skip(k as int)) is None);
                }
                return None;
            }
            let e = v[k + 1];
            proof {
                assert(v@.skip(k as int)[1] == v@[k as int + 1]);
                assert(v@.skip(k as int).skip(2) =~= v@.skip(k as int + 2));
            }
            let u: char = if e == '"' {
                '"'
            } else if e == '\\' {
                '\\'
            } else if e == 'n' {
                '\n'
            } else if e == 'r' {
                '\r'
            } else if e == 't' {
                '\t'
            } else if e == '0' {
                '\0'
            } else if e == '\'' {
                '\''
            } else {
                proof {
                    assert(unescape_char(v@[k as int + 1]) is None);
                    assert(scan_string(v@.skip(k as int)) is None);
                }
                return None;
            };
            proof {
                assert(unescape_char(v@[k as int + 1]) == Some(u));
            }
            let ghost old_value = value@;
            value.push(u);
            proof {
                match scan_string(v@.skip(k as int + 2)) {
                    Some(q2) => {
                        assert(scan_string(v@.skip(k as int)) == Some(
                            (seq![u] + q2.0, q2.1 + 2),
                        ));
                        assert(old_value + (seq![u] + q2.0) =~= value@ + q2.0);
                    }
                    None => {
                        assert(scan_string(v@.skip(k as int)) is None);
                    }
                }
            }
            k = k + 2;
        } else {
            proof {
                assert(v@.skip(k as int).skip(1) =~= v@.skip(k as int + 1));
            }
            let ghost old_value = value@;
            value.push(c);
            proof {
                match scan_string(v@.skip(k as int + 1)) {
                    Some(q2) => {
                        assert(scan_string(v@.skip(k as int)) == Some(
                            (seq![c] + q2.0, q2.1 + 1),
                        ));
                        assert(old_value + (seq![c] + q2.0) =~= value@ + q2.0);
                    }
                    None => {
                        assert(scan_string(v@.skip(k as int)) is None);
                    }
                }
            }
            k = k + 1;
        }
    }
}

} // verus!
