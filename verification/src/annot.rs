//! The parsers for the call and declaration annotation surfaces: assurance
//! annotations (a precondition plus a justification), forwarding targets
//! (`path`, `from -> to`, or `impl path`), the contents of a declaration
//! annotation (a precondition, a bare enabling marker, or one of the two
//! flags), and comma-separated precondition lists. Commas inside brackets
//! or string literals never split a list.

use vstd::prelude::*;

use crate::call::{Path, PathModel};
use crate::forward::{ForwardTarget, ForwardTargetModel};
use crate::parse::{
    parse_precondition_chars, spec_parse_precondition, wf_clause, ParseError,
};
use crate::precondition::{CfgPrecondition, Clause, Precondition};
use crate::rewrite::{Assurance, AssuranceModel};
use crate::scan::{
    lemma_scan_ident_bounds, scan_ident_end, scan_ident_end_exec, scan_string, scan_string_exec,
    skip_ws, skip_ws_exec,
};
use crate::text::{chars_to_string, ident_start_char, is_ident_start, str_chars, str_eq_chars};

verus! {

/// The position of the first comma at bracket depth zero and outside any
/// string literal, from position `i` on, with the current depth and
/// string state.
pub open spec fn find_top_comma(s: Seq<char>, i: int, depth: int, in_str: bool, esc: bool) -> Option<
    int,
>
    decreases s.len() - i,
{
    if i < 0 || i >= s.len() {
        None
    } else if in_str {
        if esc {
            find_top_comma(s, i + 1, depth, true, false)
        } else if s[i] == '\\' {
            find_top_comma(s, i + 1, depth, true, true)
        } else if s[i] == '"' {
            find_top_comma(s, i + 1, depth, false, false)
        } else {
            find_top_comma(s, i + 1, depth, true, false)
        }
    } else if s[i] == '"' {
        find_top_comma(s, i + 1, depth, true, false)
    } else if s[i] == '(' || s[i] == '[' || s[i] == '{' {
        find_top_comma(s, i + 1, depth + 1, false, false)
    } else if s[i] == ')' || s[i] == ']' || s[i] == '}' {
        find_top_comma(s, i + 1, depth - 1, false, false)
    } else if s[i] == ',' && depth == 0 {
        Some(i)
    } else {
        find_top_comma(s, i + 1, depth, false, false)
    }
}

/// A found top-level comma lies in bounds and is a comma.
pub proof fn lemma_find_top_comma_bounds(
    s: Seq<char>,
    i: int,
    depth: int,
    in_str: bool,
    esc: bool,
)
    ensures
        find_top_comma(s, i, depth, in_str, esc) matches Some(k) ==> i <= k < s.len() && s[k]
            == ',',
    decreases s.len() - i,
{
    if i < 0 || i >= s.len() {
    } else {
        lemma_find_top_comma_bounds(s, i + 1, depth, in_str, false);
        lemma_find_top_comma_bounds(s, i + 1, depth, true, true);
        lemma_find_top_comma_bounds(s, i + 1, depth, true, false);
        lemma_find_top_comma_bounds(s, i + 1, depth, false, false);
        lemma_find_top_comma_bounds(s, i + 1, depth + 1, false, false);
        lemma_find_top_comma_bounds(s, i + 1, depth - 1, false, false);
    }
}

/// Runtime mirror of `find_top_comma`, from position `i` with depth zero
/// and outside any string.
pub fn find_top_comma_exec(v: &Vec<char>, i: usize) -> (r: Option<usize>)
    requires
        i <= v@.len(),
    ensures
        match r {
            Some(k) => {
                &&& find_top_comma(v@, i as int, 0, false, false) == Some(k as int)
                &&& i <= k < v@.len()
            }
            None => find_top_comma(v@, i as int, 0, false, false) is None,
        },
{
    proof {
        lemma_find_top_comma_bounds(v@, i as int, 0, false, false);
    }
    let mut k: usize = i;
    let mut depth: i128 = 0;
    let mut in_str: bool = false;
    let mut esc: bool = false;
    loop
        invariant
            i <= k <= v@.len(),
            -(k as int) <= depth <= k as int,
            !in_str ==> !esc,
            find_top_comma(v@, i as int, 0, false, false) == find_top_comma(
                v@,
                k as int,
                depth as int,
                in_str,
                esc,
            ),
        decreases v@.len() - k,
    {
        if k >= v.len() {
            return None;
        }
        let c = v[k];
        if in_str {
            if esc {
                esc = false;
            } else if c == '\\' {
                esc = true;
            } else if c == '"' {
                in_str = false;
            }
        } else if c == '"' {
            in_str = true;
        } else if c == '(' || c == '[' || c == '{' {
            depth = depth + 1;
        } else if c == ')' || c == ']' || c == '}' {
            depth = depth - 1;
        } else if c == ',' && depth == 0 {
            proof {
                lemma_find_top_comma_bounds(v@, i as int, 0, false, false);
            }
            return Some(k);
        }
        k = k + 1;
    }
}

/// What parsing a run of `::`-separated path segments yields: the segment
/// texts and the position just after the last one.
pub open spec fn spec_parse_segments(s: Seq<char>, i: int) -> Result<(Seq<Seq<char>>, int), ParseError>
    decreases s.len() - i,
{
    let b = skip_ws(s, i);
    if b < s.len() && is_ident_start(s[b]) {
        let c = scan_ident_end(s, b);
        let p = skip_ws(s, c);
        if p + 1 < s.len() && s[p] == ':' && s[p + 1] == ':' {
            if p + 2 > i {
                match spec_parse_segments(s, p + 2) {
                    Ok((segs, end)) => Ok((seq![s.subrange(b, c)] + segs, end)),
                    Err(e) => Err(e),
                }
            } else {
                Err(ParseError::Malformed)
            }
        } else {
            Ok((seq![s.subrange(b, c)], c))
        }
    } else {
        Err(ParseError::Malformed)
    }
}

/// What parsing a path from position `i` yields: the path and the position
/// just after its last segment.
pub open spec fn spec_parse_path(s: Seq<char>, i: int) -> Result<(PathModel, int), ParseError> {
    let a = skip_ws(s, i);
    if a + 1 < s.len() && s[a] == ':' && s[a + 1] == ':' {
        match spec_parse_segments(s, a + 2) {
            Ok((segs, end)) => Ok((PathModel { leading_colon: true, segments: segs }, end)),
            Err(e) => Err(e),
        }
    } else {
        match spec_parse_segments(s, a) {
            Ok((segs, end)) => Ok((PathModel { leading_colon: false, segments: segs }, end)),
            Err(e) => Err(e),
        }
    }
}

/// Runtime mirror of `spec_parse_segments`.
pub fn parse_segments_exec(v: &Vec<char>, i: usize) -> (r: Result<(Vec<String>, usize), ParseError>)
    requires
        i <= v@.len(),
    ensures
        match r {
            Ok((segs, end)) => {
                &&& spec_parse_segments(v@, i as int) == Ok::<_, ParseError>(
                    (crate::call::segs_model(segs@), end as int),
                )
                &&& end <= v@.len()
                &&& segs@.len() > 0
            }
            Err(e) => spec_parse_segments(v@, i as int) == Err::<(Seq<Seq<char>>, int), _>(e),
        },
    decreases v@.len() - i,
{
    let b = skip_ws_exec(v, i);
    if !(b < v.len() && ident_start_char(v[b])) {
        return Err(ParseError::Malformed);
    }
    let c = scan_ident_end_exec(v, b);
    let seg = crate::parse::subvec(v, b, c);
    let seg_string = chars_to_string(&seg);
    let p = skip_ws_exec(v, c);
    if p < v.len() && v[p] == ':' && p + 1 < v.len() && v[p + 1] == ':' {
        proof {
            lemma_scan_ident_bounds(v@, b as int);
            assert(p + 2 > i);
        }
        match parse_segments_exec(v, p + 2) {
            Ok((rest, end)) => {
                let mut segs: Vec<String> = Vec::new();
                segs.push(seg_string);
                let mut rest_mut = rest;
                let ghost rest_model = crate::call::segs_model(rest_mut@);
                segs.append(&mut rest_mut);
                proof {
                    assert(crate::call::segs_model(segs@) =~= seq![v@.subrange(
                        b as int,
                        c as int,
                    )] + rest_model);
                }
                Ok((segs, end))
            }
            Err(e) => Err(e),
        }
    } else {
        let mut segs: Vec<String> = Vec::new();
        segs.push(seg_string);
        proof {
            assert(crate::call::segs_model(segs@) =~= seq![v@.subrange(b as int, c as int)]);
        }
        Ok((segs, c))
    }
}

/// Runtime mirror of `spec_parse_path`.
pub fn parse_path_at(v: &Vec<char>, i: usize) -> (r: Result<(Path, usize), ParseError>)
    requires
        i <= v@.len(),
    ensures
        match r {
            Ok((path, end)) => {
                &&& spec_parse_path(v@, i as int) == Ok::<_, ParseError>((path@, end as int))
                &&& end <= v@.len()
                &&& path@.segments.len() > 0
            }
            Err(e) => spec_parse_path(v@, i as int) == Err::<(PathModel, int), _>(e),
        },
{
    let a = skip_ws_exec(v, i);
    if a < v.len() && v[a] == ':' && a + 1 < v.len() && v[a + 1] == ':' {
        match parse_segments_exec(v, a + 2) {
            Ok((segs, end)) => Ok((Path { leading_colon: true, segments: segs }, end)),
            Err(e) => Err(e),
        }
    } else {
        match parse_segments_exec(v, a) {
            Ok((segs, end)) => Ok((Path { leading_colon: false, segments: segs }, end)),
            Err(e) => Err(e),
        }
    }
}

/// What parsing a forwarding annotation yields. A leading `impl` keyword
/// marks an impl-block target; two paths around an arrow make a prefix
/// replacement (the `impl` keyword, if any, is then without effect, as a
/// replacement has no impl form); a single path alone is a direct target.
pub open spec fn spec_parse_forward(s: Seq<char>) -> Result<ForwardTargetModel, ParseError> {
    let i = skip_ws(s, 0);
    let has_impl = i < s.len() && is_ident_start(s[i]) && s.subrange(i, scan_ident_end(s, i))
        == "impl"@;
    let start = if has_impl {
        scan_ident_end(s, i)
    } else {
        0
    };
    match spec_parse_path(s, start) {
        Ok((first, end)) => {
            let j = skip_ws(s, end);
            if j == s.len() {
                if has_impl {
                    Ok(ForwardTargetModel::ImplBlock { path: first })
                } else {
                    Ok(ForwardTargetModel::Direct { path: first })
                }
            } else if j + 1 < s.len() && s[j] == '-' && s[j + 1] == '>' {
                match spec_parse_path(s, j + 2) {
                    Ok((second, end2)) => {
                        if skip_ws(s, end2) == s.len() {
                            Ok(ForwardTargetModel::Replace { from: first, to: second })
                        } else {
                            Err(ParseError::UnexpectedToken)
                        }
                    }
                    Err(e) => Err(e),
                }
            } else {
                Err(ParseError::UnexpectedToken)
            }
        }
        Err(e) => Err(e),
    }
}

/// Parses a forwarding annotation, as `spec_parse_forward` describes.
pub fn parse_forward(s: &str) -> (r: Result<ForwardTarget, ParseError>)
    ensures
        match r {
            Ok(t) => spec_parse_forward(s@) == Ok::<_, ParseError>(t@),
            Err(e) => spec_parse_forward(s@) == Err::<ForwardTargetModel, _>(e),
        },
{
    let v = str_chars(s);
    let i = skip_ws_exec(&v, 0);
    let mut has_impl = false;
    let mut start: usize = 0;
    if i < v.len() && ident_start_char(v[i]) {
        let j = scan_ident_end_exec(&v, i);
        let word = crate::parse::subvec(&v, i, j);
        if str_eq_chars("impl", &word) {
            has_impl = true;
            start = j;
        }
    }
    match parse_path_at(&v, start) {
        Ok((first, end)) => {
            let j = skip_ws_exec(&v, end);
            if j == v.len() {
                if has_impl {
                    Ok(ForwardTarget::ImplBlock { path: first })
                } else {
                    Ok(ForwardTarget::Direct { path: first })
                }
            } else if j + 1 < v.len() && v[j] == '-' && v[j + 1] == '>' {
                match parse_path_at(&v, j + 2) {
                    Ok((second, end2)) => {
                        let t = skip_ws_exec(&v, end2);
                        if t == v.len() {
                            Ok(ForwardTarget::Replace { from: first, to: second })
                        } else {
                            Err(ParseError::UnexpectedToken)
                        }
                    }
                    Err(e) => Err(e),
                }
            } else {
                Err(ParseError::UnexpectedToken)
            }
        }
        Err(e) => Err(e),
    }
}

/// What parsing the justification part of an assurance yields: the word
/// `reason`, an equals sign, and a string literal, with nothing after it.
pub open spec fn spec_parse_reason(s: Seq<char>) -> Result<Seq<char>, ParseError> {
    let i = skip_ws(s, 0);
    if i < s.len() && is_ident_start(s[i]) && s.subrange(i, scan_ident_end(s, i)) == "reason"@ {
        let j = skip_ws(s, scan_ident_end(s, i));
        if j < s.len() && s[j] == '=' {
            let k = skip_ws(s, j + 1);
            if k < s.len() && s[k] == '"' {
                match scan_string(s.skip(k + 1)) {
                    Some((value, used)) => {
                        if skip_ws(s, k + 1 + used) == s.len() {
                            Ok(value)
                        } else {
                            Err(ParseError::UnexpectedToken)
                        }
                    }
                    None => Err(ParseError::Malformed),
                }
            } else {
                Err(ParseError::Malformed)
            }
        } else {
            Err(ParseError::Malformed)
        }
    } else {
        Err(ParseError::Malformed)
    }
}

/// Parses the justification part of an assurance.
fn parse_reason_chars(v: &Vec<char>) -> (r: Result<String, ParseError>)
    ensures
        match r {
            Ok(value) => spec_parse_reason(v@) == Ok::<_, ParseError>(value@),
            Err(e) => spec_parse_reason(v@) == Err::<Seq<char>, _>(e),
        },
{
    let i = skip_ws_exec(v, 0);
    if !(i < v.len() && ident_start_char(v[i])) {
        return Err(ParseError::Malformed);
    }
    let w = scan_ident_end_exec(v, i);
    let word = crate::parse::subvec(v, i, w);
    if !str_eq_chars("reason", &word) {
        return Err(ParseError::Malformed);
    }
    let j = skip_ws_exec(v, w);
    if !(j < v.len() && v[j] == '=') {
        return Err(ParseError::Malformed);
    }
    let k = skip_ws_exec(v, j + 1);
    if !(k < v.len() && v[k] == '"') {
        return Err(ParseError::Malformed);
    }
    match scan_string_exec(v, k + 1) {
        Some((value, end)) => {
            let rest = skip_ws_exec(v, end);
            proof {
                assert(k as int + 1 + (end - k - 1) == end as int);
            }
            if rest == v.len() {
                Ok(chars_to_string(&value))
            } else {
                Err(ParseError::UnexpectedToken)
            }
        }
        None => Err(ParseError::Malformed),
    }
}

/// The model of a parsed assurance annotation: its clause and optional
/// justification; the conditional-compilation predicate is attached later
/// by the annotation's carrier.
pub open spec fn spec_parse_assure(s: Seq<char>) -> Result<AssuranceModel, ParseError> {
    match find_top_comma(s, 0, 0, false, false) {
        None => match spec_parse_precondition(s) {
            Ok(c) => Ok(
                AssuranceModel {
                    clause: crate::precondition::CfgClause { clause: c, cfg: None },
                    reason: None,
                },
            ),
            Err(e) => Err(e),
        },
        Some(k) => {
            if 0 <= k < s.len() {
                match spec_parse_precondition(s.take(k)) {
                    Ok(c) => match spec_parse_reason(s.skip(k + 1)) {
                        Ok(reason) => Ok(
                            AssuranceModel {
                                clause: crate::precondition::CfgClause { clause: c, cfg: None },
                                reason: Some(reason),
                            },
                        ),
                        Err(e) => Err(e),
                    },
                    Err(e) => Err(e),
                }
            } else {
                Err(ParseError::Malformed)
            }
        }
    }
}

/// Parses an assurance annotation: a precondition, optionally followed by
/// a comma and its justification. The justification may be missing only
/// syntactically; its absence becomes a hard error when the call is
/// rewritten.
pub fn parse_assure(s: &str) -> (r: Result<Assurance, ParseError>)
    ensures
        match r {
            Ok(a) => {
                &&& spec_parse_assure(s@) == Ok::<_, ParseError>(a@)
                &&& wf_clause(a@.clause.clause)
            }
            Err(e) => spec_parse_assure(s@) == Err::<AssuranceModel, _>(e),
        },
{
    let v = str_chars(s);
    match find_top_comma_exec(&v, 0) {
        None => match parse_precondition_chars(&v) {
            Ok(p) => Ok(
                Assurance {
                    precondition: CfgPrecondition { precondition: p, cfg: None },
                    reason: None,
                },
            ),
            Err(e) => Err(e),
        },
        Some(k) => {
            let head = crate::parse::subvec(&v, 0, k);
            let tail = crate::parse::subvec(&v, k + 1, v.len());
            proof {
                assert(head@ == v@.take(k as int));
                assert(tail@ == v@.skip(k as int + 1));
            }
            match parse_precondition_chars(&head) {
                Ok(p) => match parse_reason_chars(&tail) {
                    Ok(reason) => Ok(
                        Assurance {
                            precondition: CfgPrecondition { precondition: p, cfg: None },
                            reason: Some(reason),
                        },
                    ),
                    Err(e) => Err(e),
                },
                Err(e) => Err(e),
            }
        }
    }
}

/// The content of a declaration (`pre`) annotation.
#[derive(Debug)]
pub enum PreAttr {
    /// An empty annotation: enables processing of call-site assurances in
    /// the declaration's body and contributes no precondition.
    Empty,
    /// A request not to generate documentation for the declaration.
    NoDoc,
    /// A request not to generate runtime self-checks for boolean clauses.
    NoDebugAssert,
    /// One precondition clause.
    Precondition(Precondition),
}

/// The model of a declaration annotation's content.
pub enum PreAttrModel {
    /// An empty annotation.
    Empty,
    /// Documentation suppressed.
    NoDoc,
    /// Runtime self-checks suppressed.
    NoDebugAssert,
    /// One clause.
    Precondition(Clause),
}

impl View for PreAttr {
    type V = PreAttrModel;

    open spec fn view(&self) -> PreAttrModel {
        match self {
            PreAttr::Empty => PreAttrModel::Empty,
            PreAttr::NoDoc => PreAttrModel::NoDoc,
            PreAttr::NoDebugAssert => PreAttrModel::NoDebugAssert,
            PreAttr::Precondition(p) => PreAttrModel::Precondition(p@),
        }
    }
}

/// What parsing a declaration annotation's content yields: nothing, one of
/// the two flags, or a precondition clause.
pub open spec fn spec_parse_pre_attr(s: Seq<char>) -> Result<PreAttrModel, ParseError> {
    let i = skip_ws(s, 0);
    if i == s.len() {
        Ok(PreAttrModel::Empty)
    } else if is_ident_start(s[i]) && s.subrange(i, scan_ident_end(s, i)) == "no_doc"@ {
        if skip_ws(s, scan_ident_end(s, i)) == s.len() {
            Ok(PreAttrModel::NoDoc)
        } else {
            Err(ParseError::UnexpectedToken)
        }
    } else if is_ident_start(s[i]) && s.subrange(i, scan_ident_end(s, i)) == "no_debug_assert"@ {
        if skip_ws(s, scan_ident_end(s, i)) == s.len() {
            Ok(PreAttrModel::NoDebugAssert)
        } else {
            Err(ParseError::UnexpectedToken)
        }
    } else {
        match spec_parse_precondition(s) {
            Ok(c) => Ok(PreAttrModel::Precondition(c)),
            Err(e) => Err(e),
        }
    }
}

/// Parses a declaration annotation's content, as `spec_parse_pre_attr`
/// describes.
pub fn parse_pre_attr(s: &str) -> (r: Result<PreAttr, ParseError>)
    ensures
        match r {
            Ok(a) => {
                &&& spec_parse_pre_attr(s@) == Ok::<_, ParseError>(a@)
                &&& a@ matches PreAttrModel::Precondition(c) ==> wf_clause(c)
            }
            Err(e) => spec_parse_pre_attr(s@) == Err::<PreAttrModel, _>(e),
        },
{
    let v = str_chars(s);
    let i = skip_ws_exec(&v, 0);
    if i == v.len() {
        return Ok(PreAttr::Empty);
    }
    if ident_start_char(v[i]) {
        let j = scan_ident_end_exec(&v, i);
        let word = crate::parse::subvec(&v, i, j);
        if str_eq_chars("no_doc", &word) {
            let rest = skip_ws_exec(&v, j);
            if rest == v.len() {
                return Ok(PreAttr::NoDoc);
            } else {
                return Err(ParseError::UnexpectedToken);
            }
        }
        if str_eq_chars("no_debug_assert", &word) {
            let rest = skip_ws_exec(&v, j);
            if rest == v.len() {
                return Ok(PreAttr::NoDebugAssert);
            } else {
                return Err(ParseError::UnexpectedToken);
            }
        }
    }
    match parse_precondition_chars(&v) {
        Ok(p) => Ok(PreAttr::Precondition(p)),
        Err(e) => Err(e),
    }
}

/// What parsing a comma-separated precondition list yields: the clauses in
/// the order they were written. A trailing comma is allowed; whitespace
/// alone is the empty list.
pub open spec fn spec_parse_precondition_list(s: Seq<char>) -> Result<Seq<Clause>, ParseError>
    decreases s.len(),
{
    if skip_ws(s, 0) == s.len() {
        Ok(Seq::empty())
    } else {
        match find_top_comma(s, 0, 0, false, false) {
            None => match spec_parse_precondition(s) {
                Ok(c) => Ok(seq![c]),
                Err(e) => Err(e),
            },
            Some(k) => {
                if 0 <= k < s.len() {
                    match spec_parse_precondition(s.take(k)) {
                        Ok(c) => match spec_parse_precondition_list(s.skip(k + 1)) {
                            Ok(rest) => Ok(seq![c] + rest),
                            Err(e) => Err(e),
                        },
                        Err(e) => Err(e),
                    }
                } else {
                    Err(ParseError::Malformed)
                }
            }
        }
    }
}

/// Parses a comma-separated precondition list, as
/// `spec_parse_precondition_list` describes.
pub fn parse_precondition_list(s: &str) -> (r: Result<Vec<Precondition>, ParseError>)
    ensures
        match r {
            Ok(ps) => spec_parse_precondition_list(s@) == Ok::<_, ParseError>(
                ps@.map_values(|p: Precondition| p@),
            ),
            Err(e) => spec_parse_precondition_list(s@) == Err::<Seq<Clause>, _>(e),
        },
{
    let v = str_chars(s);
    parse_precondition_list_chars(&v)
}

/// Parses a comma-separated precondition list, given as characters.
pub fn parse_precondition_list_chars(v: &Vec<char>) -> (r: Result<Vec<Precondition>, ParseError>)
    ensures
        match r {
            Ok(ps) => spec_parse_precondition_list(v@) == Ok::<_, ParseError>(
                ps@.map_values(|p: Precondition| p@),
            ),
            Err(e) => spec_parse_precondition_list(v@) == Err::<Seq<Clause>, _>(e),
        },
    decreases v@.len(),
{
    let start = skip_ws_exec(v, 0);
    if start == v.len() {
        let ps: Vec<Precondition> = Vec::new();
        proof {
            assert(ps@.map_values(|p: Precondition| p@) =~= Seq::<Clause>::empty());
        }
        return Ok(ps);
    }
    match find_top_comma_exec(v, 0) {
        None => match parse_precondition_chars(v) {
            Ok(p) => {
                let mut ps: Vec<Precondition> = Vec::new();
                ps.push(p);
                proof {
                    assert(ps@.map_values(|q: Precondition| q@) =~= seq![ps@[0]@]);
                }
                Ok(ps)
            }
            Err(e) => Err(e),
        },
        Some(k) => {
            let head = crate::parse::subvec(v, 0, k);
            let tail = crate::parse::subvec(v, k + 1, v.len());
            proof {
                assert(head@ == v@.take(k as int));
                assert(tail@ == v@.skip(k as int + 1));
            }
            match parse_precondition_chars(&head) {
                Ok(p) => match parse_precondition_list_chars(&tail) {
                    Ok(rest) => {
                        let mut ps: Vec<Precondition> = Vec::new();
                        ps.push(p);
                        let ghost first_clause = ps@[0]@;
                        let mut rest_mut = rest;
                        let ghost rest_model = rest_mut@.map_values(|q: Precondition| q@);
                        ps.append(&mut rest_mut);
                        proof {
                            assert(ps@.map_values(|q: Precondition| q@) =~= seq![first_clause]
                                + rest_model);
                        }
                        Ok(ps)
                    }
                    Err(e) => Err(e),
                },
                Err(e) => Err(e),
            }
        }
    }
}

} // verus!
