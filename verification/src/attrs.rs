//! The attribute carriers the engine reads its annotations from: matching
//! an attribute path against an annotation name (bare, or qualified by the
//! host crate's alias), extracting the parenthesized content, unwrapping a
//! `cfg_attr` carrier, splitting a multi-annotation `cfg_attr` into one
//! carrier per annotation, and the scans that collect and remove the
//! engine's annotations from an attribute list.

use vstd::prelude::*;

use crate::annot::{find_top_comma, spec_parse_assure, spec_parse_forward};
use crate::diag::Diagnostic;
use crate::forward::{ForwardTarget, ForwardTargetModel};
use crate::rewrite::{Assurance, AssuranceModel, CallAnnotations};
use crate::scan::{skip_ws, skip_ws_exec, trim, trim_exec};
use crate::text::{chars_to_string, str_chars, str_eq_chars};

verus! {

/// An attribute as the host syntax hands it over: its path segments and
/// the token text following the path, the delimiters included.
#[derive(Debug)]
pub struct RawAttr {
    /// The attribute path's segments.
    pub segments: Vec<String>,
    /// The tokens after the path, as text; for the attributes the engine
    /// reads this is a parenthesized group.
    pub tokens: String,
}

/// The model of a raw attribute.
pub struct RawAttrModel {
    /// The path segments.
    pub segments: Seq<Seq<char>>,
    /// The token text.
    pub tokens: Seq<char>,
}

impl View for RawAttr {
    type V = RawAttrModel;

    open spec fn view(&self) -> RawAttrModel {
        RawAttrModel {
            segments: crate::call::segs_model(self.segments@),
            tokens: self.tokens@,
        }
    }
}

impl RawAttr {
    /// A copy of this attribute with the same model.
    pub fn duplicate(&self) -> (r: Self)
        ensures
            r@ == self@,
    {
        let mut segments: Vec<String> = Vec::new();
        let mut i: usize = 0;
        while i < self.segments.len()
            invariant
                i <= self.segments@.len(),
                crate::call::segs_model(segments@) == crate::call::segs_model(
                    self.segments@,
                ).take(i as int),
            decreases self.segments@.len() - i,
        {
            let ghost old_segments = segments@;
            segments.push(self.segments[i].clone());
            proof {
                assert(crate::call::segs_model(segments@) =~= crate::call::segs_model(
                    old_segments,
                ).push(self.segments@[i as int]@));
                assert(crate::call::segs_model(self.segments@).take(i as int + 1)
                    =~= crate::call::segs_model(self.segments@).take(i as int).push(
                    crate::call::segs_model(self.segments@)[i as int],
                ));
            }
            i = i + 1;
        }
        proof {
            assert(crate::call::segs_model(self.segments@).take(self.segments@.len() as int)
                =~= crate::call::segs_model(self.segments@));
        }
        RawAttr { segments, tokens: self.tokens.clone() }
    }
}

/// Whether an attribute path names the given annotation: the bare name, or
/// the host crate's alias followed by the name. A leading `::` plays no
/// part, as the segments alone are compared.
pub open spec fn spec_is_attr(name: Seq<char>, alias: Seq<char>, segments: Seq<Seq<char>>) -> bool {
    ||| segments == seq![name]
    ||| segments == seq![alias, name]
}

/// Runtime check of `spec_is_attr` over a segment list.
pub fn is_attr(name: &str, alias: &str, segments: &Vec<String>) -> (r: bool)
    ensures
        r == spec_is_attr(name@, alias@, crate::call::segs_model(segments@)),
{
    let ghost model = crate::call::segs_model(segments@);
    if segments.len() == 1 {
        let s0 = str_chars(segments[0].as_str());
        let r = str_eq_chars(name, &s0);
        proof {
            if r {
                assert(model =~= seq![name@]);
            } else {
                assert(model[0] != name@);
                assert(model.len() != 2);
            }
        }
        r
    } else if segments.len() == 2 {
        let s0 = str_chars(segments[0].as_str());
        let s1 = str_chars(segments[1].as_str());
        let r = str_eq_chars(alias, &s0) && str_eq_chars(name, &s1);
        proof {
            if r {
                assert(model =~= seq![alias@, name@]);
            } else {
                assert(model.len() != 1);
                assert(model[0] != alias@ || model[1] != name@);
            }
        }
        r
    } else {
        proof {
            assert(model.len() != 1 && model.len() != 2);
        }
        false
    }
}

/// The position of the character that closes the group opened before
/// position `i`, given the current depth and string state, or nothing when
/// the group never closes.
pub open spec fn find_group_end(s: Seq<char>, i: int, depth: int, in_str: bool, esc: bool) -> Option<
    int,
>
    decreases s.len() - i,
{
    if i < 0 || i >= s.len() {
        None
    } else if in_str {
        if esc {
            find_group_end(s, i + 1, depth, true, false)
        } else if s[i] == '\\' {
            find_group_end(s, i + 1, depth, true, true)
        } else if s[i] == '"' {
            find_group_end(s, i + 1, depth, false, false)
        } else {
            find_group_end(s, i + 1, depth, true, false)
        }
    } else if s[i] == '"' {
        find_group_end(s, i + 1, depth, true, false)
    } else if s[i] == '(' || s[i] == '[' || s[i] == '{' {
        find_group_end(s, i + 1, depth + 1, false, false)
    } else if s[i] == ')' || s[i] == ']' || s[i] == '}' {
        if depth == 1 {
            Some(i)
        } else {
            find_group_end(s, i + 1, depth - 1, false, false)
        }
    } else {
        find_group_end(s, i + 1, depth, false, false)
    }
}

/// A found group end lies in bounds.
pub proof fn lemma_find_group_end_bounds(s: Seq<char>, i: int, depth: int, in_str: bool, esc: bool)
    ensures
        find_group_end(s, i, depth, in_str, esc) matches Some(k) ==> i <= k < s.len(),
    decreases s.len() - i,
{
    if i < 0 || i >= s.len() {
    } else {
        lemma_find_group_end_bounds(s, i + 1, depth, in_str, false);
        lemma_find_group_end_bounds(s, i + 1, depth, true, true);
        lemma_find_group_end_bounds(s, i + 1, depth, true, false);
        lemma_find_group_end_bounds(s, i + 1, depth, false, false);
        lemma_find_group_end_bounds(s, i + 1, depth + 1, false, false);
        lemma_find_group_end_bounds(s, i + 1, depth - 1, false, false);
    }
}

/// Runtime mirror of `find_group_end`, from position `i` with depth one.
fn find_group_end_exec(v: &Vec<char>, i: usize) -> (r: Option<usize>)
    requires
        i <= v@.len(),
    ensures
        match r {
            Some(k) => {
                &&& find_group_end(v@, i as int, 1, false, false) == Some(k as int)
                &&& i <= k < v@.len()
            }
            None => find_group_end(v@, i as int, 1, false, false) is None,
        },
{
    proof {
        lemma_find_group_end_bounds(v@, i as int, 1, false, false);
    }
    let mut k: usize = i;
    let mut depth: i128 = 1;
    let mut in_str: bool = false;
    let mut esc: bool = false;
    loop
        invariant
            i <= k <= v@.len(),
            1 - (k as int) <= depth <= 1 + k as int,
            !in_str ==> !esc,
            find_group_end(v@, i as int, 1, false, false) == find_group_end(
                v@,
                k as int,
                depth as int,
                in_str,
                esc,
            ),
        decreases v@.len() - k,
    {
        if k >= v.len() {
            return None;
        }
        let c = v[k];
        if in_str {
            if esc {
                esc = false;
            } else if c == '\\' {
                esc = true;
            } else if c == '"' {
                in_str = false;
            }
        } else if c == '"' {
            in_str = true;
        } else if c == '(' || c == '[' || c == '{' {
            depth = depth + 1;
        } else if c == ')' || c == ']' || c == '}' {
            if depth == 1 {
                proof {
                    lemma_find_group_end_bounds(v@, i as int, 1, false, false);
                }
                return Some(k);
            }
            depth = depth - 1;
        }
        k = k + 1;
    }
}

/// The content of an attribute's token text, which must be exactly one
/// parenthesized group: the characters between the parentheses.
pub open spec fn spec_paren_content(s: Seq<char>) -> Option<Seq<char>> {
    let t = trim(s);
    if t.len() >= 2 && t[0] == '(' {
        match find_group_end(t, 1, 1, false, false) {
            Some(j) => {
                if j == t.len() - 1 {
                    Some(t.subrange(1, j))
                } else {
                    None
                }
            }
            None => None,
        }
    } else {
        None
    }
}

/// Extracts an attribute content's parenthesized group, as
/// `spec_paren_content` describes.
pub fn paren_content(s: &str) -> (r: Option<Vec<char>>)
    ensures
        match r {
            Some(c) => spec_paren_content(s@) == Some(c@),
            None => spec_paren_content(s@) is None,
        },
{
    let v = str_chars(s);
    paren_content_chars(&v)
}

/// Extracts a parenthesized group from characters.
pub fn paren_content_chars(v: &Vec<char>) -> (r: Option<Vec<char>>)
    ensures
        match r {
            Some(c) => spec_paren_content(v@) == Some(c@),
            None => spec_paren_content(v@) is None,
        },
{
    let t = trim_exec(v);
    if t.len() < 2 {
        return None;
    }
    if t[0] != '(' {
        return None;
    }
    match find_group_end_exec(&t, 1) {
        Some(j) => {
            if j == t.len() - 1 {
                let content = crate::parse::subvec(&t, 1, j);
                Some(content)
            } else {
                None
            }
        }
        None => None,
    }
}

/// How one attribute relates to an annotation name.
pub enum AttrMatchModel {
    /// Not one of the engine's annotations under this name.
    NotMine,
    /// The annotation's content, with the carrier's
    /// conditional-compilation predicate if it was wrapped in `cfg_attr`.
    Mine { content: Seq<char>, cfg: Option<Seq<char>> },
    /// Shaped like one of the engine's carriers, but its tokens do not
    /// have the required form.
    Malformed,
}

/// How an attribute relates to the annotation `name`: a direct carrier is
/// `#[name(content)]` (or `#[alias::name(content)]`); a conditional
/// carrier is `#[cfg_attr(predicate, name(content))]`. A `cfg_attr` whose
/// content has no top-level comma carries nothing; one whose trailing part
/// is not a path followed by a parenthesized group is malformed.
pub open spec fn spec_attr_match(a: RawAttrModel, name: Seq<char>, alias: Seq<char>) -> AttrMatchModel {
    if spec_is_attr(name, alias, a.segments) {
        match spec_paren_content(a.tokens) {
            Some(content) => AttrMatchModel::Mine { content, cfg: None },
            None => AttrMatchModel::Malformed,
        }
    } else if a.segments == seq!["cfg_attr"@] {
        match spec_paren_content(a.tokens) {
            Some(content) => match find_top_comma(content, 0, 0, false, false) {
                Some(k) => {
                    if 0 <= k < content.len() {
                        let cfg = trim(content.take(k));
                        let rest = content.skip(k + 1);
                        match spec_inner_attr(rest) {
                            Some((inner_segments, inner_content)) => {
                                if spec_is_attr(name, alias, inner_segments) {
                                    AttrMatchModel::Mine {
                                        content: inner_content,
                                        cfg: Some(cfg),
                                    }
                                } else {
                                    AttrMatchModel::NotMine
                                }
                            }
                            None => AttrMatchModel::Malformed,
                        }
                    } else {
                        AttrMatchModel::Malformed
                    }
                }
                None => AttrMatchModel::NotMine,
            },
            None => AttrMatchModel::Malformed,
        }
    } else {
        AttrMatchModel::NotMine
    }
}

/// The path and parenthesized content of an inner attribute written as
/// `path(content)`.
pub open spec fn spec_inner_attr(s: Seq<char>) -> Option<(Seq<Seq<char>>, Seq<char>)> {
    match crate::annot::spec_parse_segments(s, 0) {
        Ok((segments, end)) => {
            let j = skip_ws(s, end);
            if j < s.len() && s[j] == '(' {
                match find_group_end(s, j + 1, 1, false, false) {
                    Some(close) => {
                        if skip_ws(s, close + 1) == s.len() {
                            Some((segments, s.subrange(j + 1, close)))
                        } else {
                            None
                        }
                    }
                    None => None,
                }
            } else {
                None
            }
        }
        Err(_) => None,
    }
}

/// Matches one attribute against an annotation name, as `spec_attr_match`
/// describes. On a match the content and predicate are returned as
/// strings.
pub fn attr_match(a: &RawAttr, name: &str, alias: &str) -> (r: AttrMatch)
    ensures
        r@ == spec_attr_match(a@, name@, alias@),
{
    if is_attr(name, alias, &a.segments) {
        match paren_content(a.tokens.as_str()) {
            Some(content) => AttrMatch::Mine { content: chars_to_string(&content), cfg: None },
            None => AttrMatch::Malformed,
        }
    } else {
        let is_cfg_attr = if a.segments.len() == 1 {
            let s0 = str_chars(a.segments[0].as_str());
            let r0 = str_eq_chars("cfg_attr", &s0);
            proof {
                if r0 {
                    assert(a@.segments =~= seq!["cfg_attr"@]);
                } else {
                    assert(a@.segments[0] != "cfg_attr"@);
                    assert(a@.segments != seq!["cfg_attr"@]);
                }
            }
            r0
        } else {
            proof {
                assert(a@.segments.len() != 1);
                assert(a@.segments != seq!["cfg_attr"@]);
            }
            false
        };
        if !is_cfg_attr {
            return AttrMatch::NotMine;
        }
        match paren_content(a.tokens.as_str()) {
            Some(content) => {
                match crate::annot::find_top_comma_exec(&content, 0) {
                    Some(k) => {
                        let cfg_part = crate::parse::subvec(&content, 0, k);
                        let cfg = trim_exec(&cfg_part);
                        let rest = crate::parse::subvec(&content, k + 1, content.len());
                        proof {
                            assert(cfg_part@ == content@.take(k as int));
                            assert(rest@ == content@.skip(k as int + 1));
                        }
                        match inner_attr(&rest) {
                            Some((inner_segments, inner_content)) => {
                                if is_attr(name, alias, &inner_segments) {
                                    AttrMatch::Mine {
                                        content: chars_to_string(&inner_content),
                                        cfg: Some(chars_to_string(&cfg)),
                                    }
                                } else {
                                    AttrMatch::NotMine
                                }
                            }
                            None => AttrMatch::Malformed,
                        }
                    }
                    None => AttrMatch::NotMine,
                }
            }
            None => AttrMatch::Malformed,
        }
    }
}

/// How an attribute relates to an annotation name, at runtime.
#[derive(Debug)]
pub enum AttrMatch {
    /// Not one of the engine's annotations under this name.
    NotMine,
    /// The annotation's content and optional predicate.
    Mine { content: String, cfg: Option<String> },
    /// Shaped like a carrier, but malformed.
    Malformed,
}

impl View for AttrMatch {
    type V = AttrMatchModel;

    open spec fn view(&self) -> AttrMatchModel {
        match self {
            AttrMatch::NotMine => AttrMatchModel::NotMine,
            AttrMatch::Mine { content, cfg } => AttrMatchModel::Mine {
                content: content@,
                cfg: match cfg {
                    Some(c) => Some(c@),
                    None => None,
                },
            },
            AttrMatch::Malformed => AttrMatchModel::Malformed,
        }
    }
}

/// Parses an inner `path(content)` attribute, as `spec_inner_attr`
/// describes.
fn inner_attr(v: &Vec<char>) -> (r: Option<(Vec<String>, Vec<char>)>)
    ensures
        match r {
            Some((segments, content)) => spec_inner_attr(v@) == Some(
                (crate::call::segs_model(segments@), content@),
            ),
            None => spec_inner_attr(v@) is None,
        },
{
    match crate::annot::parse_segments_exec(v, 0) {
        Ok((segments, end)) => {
            let j = skip_ws_exec(v, end);
            if !(j < v.len() && v[j] == '(') {
                return None;
            }
            match find_group_end_exec(v, j + 1) {
                Some(close) => {
                    let after = skip_ws_exec(v, close + 1);
                    if after == v.len() {
                        let content = crate::parse::subvec(v, j + 1, close);
                        Some((segments, content))
                    } else {
                        None
                    }
                }
                None => None,
            }
        }
        Err(_) => None,
    }
}


/// What scanning an attribute list for assurances yields.
pub struct AssureScanModel {
    /// The collected assurances, in source order.
    pub assurances: Seq<AssuranceModel>,
    /// The attributes left in place.
    pub kept: Seq<RawAttrModel>,
    /// The diagnostics, one per malformed carrier.
    pub diags: Seq<Diagnostic>,
}

/// The assurance with the carrier's predicate attached.
pub open spec fn with_cfg(a: AssuranceModel, cfg: Option<Seq<char>>) -> AssuranceModel {
    AssuranceModel {
        clause: crate::precondition::CfgClause { clause: a.clause.clause, cfg },
        reason: a.reason,
    }
}

/// What scanning for `assure` annotations from position `i` on yields:
/// every well-formed assurance is collected and its carrier removed; a
/// malformed carrier is reported and left in place; everything else is
/// left untouched.
pub open spec fn spec_scan_assure(attrs: Seq<RawAttrModel>, alias: Seq<char>, i: int) -> AssureScanModel
    decreases attrs.len() - i,
{
    if i < 0 || i >= attrs.len() {
        AssureScanModel { assurances: Seq::empty(), kept: Seq::empty(), diags: Seq::empty() }
    } else {
        let rest = spec_scan_assure(attrs, alias, i + 1);
        match spec_attr_match(attrs[i], "assure"@, alias) {
            AttrMatchModel::Mine { content, cfg } => match spec_parse_assure(content) {
                Ok(a) => AssureScanModel {
                    assurances: seq![with_cfg(a, cfg)] + rest.assurances,
                    kept: rest.kept,
                    diags: rest.diags,
                },
                Err(_) => AssureScanModel {
                    assurances: rest.assurances,
                    kept: seq![attrs[i]] + rest.kept,
                    diags: seq![Diagnostic::MalformedAnnotation { index: i as usize }]
                        + rest.diags,
                },
            },
            AttrMatchModel::Malformed => AssureScanModel {
                assurances: rest.assurances,
                kept: seq![attrs[i]] + rest.kept,
                diags: seq![Diagnostic::MalformedAnnotation { index: i as usize }] + rest.diags,
            },
            AttrMatchModel::NotMine => AssureScanModel {
                assurances: rest.assurances,
                kept: seq![attrs[i]] + rest.kept,
                diags: rest.diags,
            },
        }
    }
}

/// What scanning an attribute list for a forwarding annotation yields.
pub struct ForwardScanModel {
    /// The forwarding target; where several were given, the last one.
    pub forward: Option<ForwardTargetModel>,
    /// The attributes left in place.
    pub kept: Seq<RawAttrModel>,
    /// The diagnostics: a duplicate error for every target after the
    /// first, and one error per malformed carrier.
    pub diags: Seq<Diagnostic>,
}

/// The carrier match for a forwarding annotation: the `forward` name, or
/// its alternate spelling `def` for an alternate definition site.
pub open spec fn spec_forward_match(a: RawAttrModel, alias: Seq<char>) -> AttrMatchModel {
    match spec_attr_match(a, "forward"@, alias) {
        AttrMatchModel::NotMine => spec_attr_match(a, "def"@, alias),
        m => m,
    }
}

/// What scanning for forwarding annotations from position `i` on yields;
/// `seen` records whether a target was already found before `i`.
pub open spec fn spec_scan_forward(
    attrs: Seq<RawAttrModel>,
    alias: Seq<char>,
    i: int,
    seen: bool,
) -> ForwardScanModel
    decreases attrs.len() - i,
{
    if i < 0 || i >= attrs.len() {
        ForwardScanModel { forward: None, kept: Seq::empty(), diags: Seq::empty() }
    } else {
        match spec_forward_match(attrs[i], alias) {
            AttrMatchModel::Mine { content, cfg } => match spec_parse_forward(content) {
                Ok(t) => {
                    let rest = spec_scan_forward(attrs, alias, i + 1, true);
                    ForwardScanModel {
                        forward: match rest.forward {
                            Some(f) => Some(f),
                            None => Some(t),
                        },
                        kept: rest.kept,
                        diags: (if seen {
                            seq![Diagnostic::DuplicateForward { index: i as usize }]
                        } else {
                            Seq::empty()
                        }) + rest.diags,
                    }
                }
                Err(_) => {
                    let rest = spec_scan_forward(attrs, alias, i + 1, seen);
                    ForwardScanModel {
                        forward: rest.forward,
                        kept: seq![attrs[i]] + rest.kept,
                        diags: seq![Diagnostic::MalformedAnnotation { index: i as usize }]
                            + rest.diags,
                    }
                }
            },
            AttrMatchModel::Malformed => {
                let rest = spec_scan_forward(attrs, alias, i + 1, seen);
                ForwardScanModel {
                    forward: rest.forward,
                    kept: seq![attrs[i]] + rest.kept,
                    diags: seq![Diagnostic::MalformedAnnotation { index: i as usize }]
                        + rest.diags,
                }
            }
            AttrMatchModel::NotMine => {
                let rest = spec_scan_forward(attrs, alias, i + 1, seen);
                ForwardScanModel {
                    forward: rest.forward,
                    kept: seq![attrs[i]] + rest.kept,
                    diags: rest.diags,
                }
            }
        }
    }
}

/// Removes and returns all call-site annotations from an attribute list:
/// the assurances first, then the forwarding target from what remains.
/// `None` is returned when the list carries no call annotation at all;
/// malformed carriers are reported and left in place either way.
pub fn remove_call_attributes(attrs: Vec<RawAttr>, alias: &str) -> (r: (
    Option<CallAnnotations>,
    Vec<RawAttr>,
    Vec<Diagnostic>,
))
    ensures
        ({
            let a_scan = spec_scan_assure(attrs@.map_values(|x: RawAttr| x@), alias@, 0);
            let f_scan = spec_scan_forward(a_scan.kept, alias@, 0, false);
            &&& r.1@.map_values(|x: RawAttr| x@) == f_scan.kept
            &&& r.2@ == a_scan.diags + f_scan.diags
            &&& (match r.0 {
                Some(annotations) => {
                    &&& (a_scan.assurances.len() > 0 || f_scan.forward is Some)
                    &&& annotations.assurances@.map_values(|a: Assurance| a@)
                        == a_scan.assurances
                    &&& (match annotations.forward {
                        Some(t) => f_scan.forward == Some(t@),
                        None => f_scan.forward is None,
                    })
                }
                None => a_scan.assurances.len() == 0 && f_scan.forward is None,
            })
        }),
{
    let ghost attrs_model = attrs@.map_values(|x: RawAttr| x@);
    let (assurances, kept1, mut diags) = scan_assure(&attrs, alias);
    let (forward, kept2, mut d2) = scan_forward(&kept1, alias);
    diags.append(&mut d2);
    let has_forward = match &forward {
        Some(_) => true,
        None => false,
    };
    if assurances.len() > 0 || has_forward {
        (Some(CallAnnotations { forward, assurances }), kept2, diags)
    } else {
        (None, kept2, diags)
    }
}

/// Scans an attribute list for `assure` annotations, as `spec_scan_assure`
/// describes.
fn scan_assure(attrs: &Vec<RawAttr>, alias: &str) -> (r: (
    Vec<Assurance>,
    Vec<RawAttr>,
    Vec<Diagnostic>,
))
    ensures
        ({
            let scan = spec_scan_assure(attrs@.map_values(|x: RawAttr| x@), alias@, 0);
            &&& r.0@.map_values(|a: Assurance| a@) == scan.assurances
            &&& r.1@.map_values(|x: RawAttr| x@) == scan.kept
            &&& r.2@ == scan.diags
        }),
{
    let ghost model = attrs@.map_values(|x: RawAttr| x@);
    let mut assurances: Vec<Assurance> = Vec::new();
    let mut kept: Vec<RawAttr> = Vec::new();
    let mut diags: Vec<Diagnostic> = Vec::new();
    let mut i: usize = 0;
    proof {
        let scan = spec_scan_assure(model, alias@, 0);
        assert(scan.assurances =~= assurances@.map_values(|a: Assurance| a@) + scan.assurances);
        assert(scan.kept =~= kept@.map_values(|x: RawAttr| x@) + scan.kept);
        assert(scan.diags =~= diags@ + scan.diags);
    }
    while i < attrs.len()
        invariant
            i <= attrs@.len(),
            model == attrs@.map_values(|x: RawAttr| x@),
            spec_scan_assure(model, alias@, 0).assurances == assurances@.map_values(
                |a: Assurance| a@,
            ) + spec_scan_assure(model, alias@, i as int).assurances,
            spec_scan_assure(model, alias@, 0).kept == kept@.map_values(|x: RawAttr| x@)
                + spec_scan_assure(model, alias@, i as int).kept,
            spec_scan_assure(model, alias@, 0).diags == diags@ + spec_scan_assure(
                model,
                alias@,
                i as int,
            ).diags,
        decreases attrs@.len() - i,
    {
        proof {
            assert(model[i as int] == attrs@[i as int]@);
        }
        let m = attr_match(&attrs[i], "assure", alias);
        let ghost a_acc = assurances@.map_values(|a: Assurance| a@);
        let ghost k_acc = kept@.map_values(|x: RawAttr| x@);
        let ghost d_acc = diags@;
        match m {
            AttrMatch::Mine { content, cfg } => {
                match crate::annot::parse_assure(content.as_str()) {
                    Ok(a) => {
                        let combined = Assurance {
                            precondition: crate::precondition::CfgPrecondition {
                                precondition: a.precondition.precondition,
                                cfg,
                            },
                            reason: a.reason,
                        };
                        assurances.push(combined);
                        proof {
                            assert(assurances@.map_values(|x: Assurance| x@) =~= a_acc.push(
                                combined@,
                            ));
                            assert(spec_scan_assure(model, alias@, i as int).assurances
                                =~= seq![combined@] + spec_scan_assure(
                                model,
                                alias@,
                                i as int + 1,
                            ).assurances);
                            assert(a_acc.push(combined@) =~= a_acc + seq![combined@]);
                            assert(spec_scan_assure(model, alias@, 0).assurances
                                =~= assurances@.map_values(|x: Assurance| x@) + spec_scan_assure(
                                model,
                                alias@,
                                i as int + 1,
                            ).assurances);
                            assert(spec_scan_assure(model, alias@, 0).kept =~= kept@.map_values(
                                |x: RawAttr| x@,
                            ) + spec_scan_assure(model, alias@, i as int + 1).kept);
                            assert(spec_scan_assure(model, alias@, 0).diags =~= diags@
                                + spec_scan_assure(model, alias@, i as int + 1).diags);
                        }
                    }
                    Err(_) => {
                        kept.push(attrs[i].duplicate());
                        diags.push(Diagnostic::MalformedAnnotation { index: i });
                        proof {
                            assert(kept@.map_values(|x: RawAttr| x@) =~= k_acc.push(
                                model[i as int],
                            ));
                            assert(k_acc.push(model[i as int]) =~= k_acc + seq![model[i as int]]);
                            assert(diags@ =~= d_acc + seq![
                                Diagnostic::MalformedAnnotation { index: i as usize },
                            ]);
                            assert(spec_scan_assure(model, alias@, 0).assurances
                                =~= assurances@.map_values(|x: Assurance| x@) + spec_scan_assure(
                                model,
                                alias@,
                                i as int + 1,
                            ).assurances);
                            assert(spec_scan_assure(model, alias@, 0).kept =~= kept@.map_values(
                                |x: RawAttr| x@,
                            ) + spec_scan_assure(model, alias@, i as int + 1).kept);
                            assert(spec_scan_assure(model, alias@, 0).diags =~= diags@
                                + spec_scan_assure(model, alias@, i as int + 1).diags);
                        }
                    }
                }
            }
            AttrMatch::Malformed => {
                kept.push(attrs[i].duplicate());
                diags.push(Diagnostic::MalformedAnnotation { index: i });
                proof {
                    assert(kept@.map_values(|x: RawAttr| x@) =~= k_acc.push(model[i as int]));
                    assert(k_acc.push(model[i as int]) =~= k_acc + seq![model[i as int]]);
                    assert(diags@ =~= d_acc + seq![
                        Diagnostic::MalformedAnnotation { index: i as usize },
                    ]);
                    assert(spec_scan_assure(model, alias@, 0).assurances =~= assurances@.map_values(
                        |x: Assurance| x@,
                    ) + spec_scan_assure(model, alias@, i as int + 1).assurances);
                    assert(spec_scan_assure(model, alias@, 0).kept =~= kept@.map_values(
                        |x: RawAttr| x@,
                    ) + spec_scan_assure(model, alias@, i as int + 1).kept);
                    assert(spec_scan_assure(model, alias@, 0).diags =~= diags@ + spec_scan_assure(
                        model,
                        alias@,
                        i as int + 1,
                    ).diags);
                }
            }
            AttrMatch::NotMine => {
                kept.push(attrs[i].duplicate());
                proof {
                    assert(kept@.map_values(|x: RawAttr| x@) =~= k_acc.push(model[i as int]));
                    assert(k_acc.push(model[i as int]) =~= k_acc + seq![model[i as int]]);
                    assert(spec_scan_assure(model, alias@, 0).assurances =~= assurances@.map_values(
                        |x: Assurance| x@,
                    ) + spec_scan_assure(model, alias@, i as int + 1).assurances);
                    assert(spec_scan_assure(model, alias@, 0).kept =~= kept@.map_values(
                        |x: RawAttr| x@,
                    ) + spec_scan_assure(model, alias@, i as int + 1).kept);
                    assert(spec_scan_assure(model, alias@, 0).diags =~= diags@ + spec_scan_assure(
                        model,
                        alias@,
                        i as int + 1,
                    ).diags);
                }
            }
        }
        i = i + 1;
    }
    proof {
        let scan_end = spec_scan_assure(model, alias@, attrs@.len() as int);
        assert(scan_end.assurances =~= Seq::<AssuranceModel>::empty());
        assert(scan_end.kept =~= Seq::<RawAttrModel>::empty());
        assert(scan_end.diags =~= Seq::<Diagnostic>::empty());
        assert(spec_scan_assure(model, alias@, 0).assurances =~= assurances@.map_values(
            |a: Assurance| a@,
        ));
        assert(spec_scan_assure(model, alias@, 0).kept =~= kept@.map_values(|x: RawAttr| x@));
        assert(spec_scan_assure(model, alias@, 0).diags =~= diags@);
    }
    (assurances, kept, diags)
}

/// The carrier match for a forwarding annotation, at runtime.
fn forward_match(a: &RawAttr, alias: &str) -> (r: AttrMatch)
    ensures
        r@ == spec_forward_match(a@, alias@),
{
    let m = attr_match(a, "forward", alias);
    match m {
        AttrMatch::NotMine => attr_match(a, "def", alias),
        other => other,
    }
}

/// Scans an attribute list for forwarding annotations, as
/// `spec_scan_forward` describes: the last well-formed target wins, every
/// earlier one is reported as a duplicate.
fn scan_forward(attrs: &Vec<RawAttr>, alias: &str) -> (r: (
    Option<ForwardTarget>,
    Vec<RawAttr>,
    Vec<Diagnostic>,
))
    ensures
        ({
            let scan = spec_scan_forward(attrs@.map_values(|x: RawAttr| x@), alias@, 0, false);
            &&& (match r.0 {
                Some(t) => scan.forward == Some(t@),
                None => scan.forward is None,
            })
            &&& r.1@.map_values(|x: RawAttr| x@) == scan.kept
            &&& r.2@ == scan.diags
        }),
{
    let ghost model = attrs@.map_values(|x: RawAttr| x@);
    let mut forward: Option<ForwardTarget> = None;
    let mut kept: Vec<RawAttr> = Vec::new();
    let mut diags: Vec<Diagnostic> = Vec::new();
    let mut i: usize = 0;
    proof {
        let scan = spec_scan_forward(model, alias@, 0, false);
        assert(scan.kept =~= kept@.map_values(|x: RawAttr| x@) + scan.kept);
        assert(scan.diags =~= diags@ + scan.diags);
    }
    while i < attrs.len()
        invariant
            i <= attrs@.len(),
            model == attrs@.map_values(|x: RawAttr| x@),
            ({
                let seen = forward is Some;
                let scan0 = spec_scan_forward(model, alias@, 0, false);
                let scani = spec_scan_forward(model, alias@, i as int, seen);
                &&& scan0.forward == (match scani.forward {
                    Some(f) => Some(f),
                    None => match forward {
                        Some(t) => Some(t@),
                        None => None,
                    },
                })
                &&& scan0.kept == kept@.map_values(|x: RawAttr| x@) + scani.kept
                &&& scan0.diags == diags@ + scani.diags
            }),
        decreases attrs@.len() - i,
    {
        proof {
            assert(model[i as int] == attrs@[i as int]@);
        }
        let m = forward_match(&attrs[i], alias);
        let ghost seen_before = forward is Some;
        let ghost k_acc = kept@.map_values(|x: RawAttr| x@);
        let ghost d_acc = diags@;
        match m {
            AttrMatch::Mine { content, cfg } => {
                match crate::annot::parse_forward(content.as_str()) {
                    Ok(t) => {
                        if forward.is_some() {
                            diags.push(Diagnostic::DuplicateForward { index: i });
                        }
                        forward = Some(t);
                        proof {
                            let scan0 = spec_scan_forward(model, alias@, 0, false);
                            let scani = spec_scan_forward(model, alias@, i as int, seen_before);
                            let scan_next = spec_scan_forward(model, alias@, i as int + 1, true);
                            assert(scani.forward == (match scan_next.forward {
                                Some(f) => Some(f),
                                None => Some(t@),
                            }));
                            assert(scan0.diags =~= diags@ + scan_next.diags);
                            assert(scan0.kept =~= kept@.map_values(|x: RawAttr| x@)
                                + scan_next.kept);
                        }
                    }
                    Err(_) => {
                        kept.push(attrs[i].duplicate());
                        diags.push(Diagnostic::MalformedAnnotation { index: i });
                        proof {
                            let scan0 = spec_scan_forward(model, alias@, 0, false);
                            let scan_next = spec_scan_forward(
                                model,
                                alias@,
                                i as int + 1,
                                seen_before,
                            );
                            assert(kept@.map_values(|x: RawAttr| x@) =~= k_acc + seq![
                                model[i as int],
                            ]);
                            assert(diags@ =~= d_acc + seq![
                                Diagnostic::MalformedAnnotation { index: i as usize },
                            ]);
                            assert(scan0.diags =~= diags@ + scan_next.diags);
                            assert(scan0.kept =~= kept@.map_values(|x: RawAttr| x@)
                                + scan_next.kept);
                        }
                    }
                }
            }
            AttrMatch::Malformed => {
                kept.push(attrs[i].duplicate());
                diags.push(Diagnostic::MalformedAnnotation { index: i });
                proof {
                    let scan0 = spec_scan_forward(model, alias@, 0, false);
                    let scan_next = spec_scan_forward(model, alias@, i as int + 1, seen_before);
                    assert(kept@.map_values(|x: RawAttr| x@) =~= k_acc + seq![model[i as int]]);
                    assert(diags@ =~= d_acc + seq![
                        Diagnostic::MalformedAnnotation { index: i as usize },
                    ]);
                    assert(scan0.diags =~= diags@ + scan_next.diags);
                    assert(scan0.kept =~= kept@.map_values(|x: RawAttr| x@) + scan_next.kept);
                }
            }
            AttrMatch::NotMine => {
                kept.push(attrs[i].duplicate());
                proof {
                    let scan0 = spec_scan_forward(model, alias@, 0, false);
                    let scan_next = spec_scan_forward(model, alias@, i as int + 1, seen_before);
                    assert(kept@.map_values(|x: RawAttr| x@) =~= k_acc + seq![model[i as int]]);
                    assert(scan0.diags =~= diags@ + scan_next.diags);
                    assert(scan0.kept =~= kept@.map_values(|x: RawAttr| x@) + scan_next.kept);
                }
            }
        }
        i = i + 1;
    }
    proof {
        let seen = forward is Some;
        let scan_end = spec_scan_forward(model, alias@, attrs@.len() as int, seen);
        assert(scan_end.forward is None);
        assert(scan_end.kept =~= Seq::<RawAttrModel>::empty());
        assert(scan_end.diags =~= Seq::<Diagnostic>::empty());
        let scan0 = spec_scan_forward(model, alias@, 0, false);
        assert(scan0.kept =~= kept@.map_values(|x: RawAttr| x@));
        assert(scan0.diags =~= diags@);
    }
    (forward, kept, diags)
}


/// The pieces of a text split at every top-level comma; a trailing comma
/// yields a final empty piece.
pub open spec fn split_top_commas(s: Seq<char>) -> Seq<Seq<char>>
    decreases s.len(),
{
    match find_top_comma(s, 0, 0, false, false) {
        None => seq![s],
        Some(k) => {
            if 0 <= k < s.len() {
                seq![s.take(k)] + split_top_commas(s.skip(k + 1))
            } else {
                seq![s]
            }
        }
    }
}

/// The carrier built for one piece of a flattened `cfg_attr`: the same
/// predicate in front of the one annotation.
pub open spec fn spec_cfg_attr_of(cfg: Seq<char>, piece: Seq<char>) -> RawAttrModel {
    RawAttrModel { segments: seq!["cfg_attr"@], tokens: "("@ + cfg + ","@ + piece + ")"@ }
}

/// What flattening one attribute yields: a `cfg_attr` carrying several
/// annotations becomes one `cfg_attr` per annotation, with the predicate
/// repeated; any other attribute, and any `cfg_attr` without the expected
/// shape, stays as it is.
pub open spec fn spec_flatten_one(a: RawAttrModel) -> Seq<RawAttrModel> {
    if a.segments == seq!["cfg_attr"@] {
        match spec_paren_content(a.tokens) {
            Some(content) => match find_top_comma(content, 0, 0, false, false) {
                Some(k) => {
                    if 0 <= k < content.len() {
                        split_top_commas(content.skip(k + 1)).map_values(
                            |piece: Seq<char>| spec_cfg_attr_of(content.take(k), piece),
                        )
                    } else {
                        seq![a]
                    }
                }
                None => seq![a],
            },
            None => seq![a],
        }
    } else {
        seq![a]
    }
}

/// What flattening an attribute list from position `i` on yields.
pub open spec fn spec_flatten_cfgs(attrs: Seq<RawAttrModel>, i: int) -> Seq<RawAttrModel>
    decreases attrs.len() - i,
{
    if i < 0 || i >= attrs.len() {
        Seq::empty()
    } else {
        spec_flatten_one(attrs[i]) + spec_flatten_cfgs(attrs, i + 1)
    }
}

/// Builds the carrier for one piece of a flattened `cfg_attr`.
fn cfg_attr_of(cfg: &Vec<char>, piece: &Vec<char>) -> (r: RawAttr)
    ensures
        r@ == spec_cfg_attr_of(cfg@, piece@),
{
    let mut tokens: Vec<char> = Vec::new();
    tokens.push('(');
    let mut c = crate::parse::subvec(cfg, 0, cfg.len());
    tokens.append(&mut c);
    tokens.push(',');
    let mut p = crate::parse::subvec(piece, 0, piece.len());
    tokens.append(&mut p);
    tokens.push(')');
    let mut segments: Vec<String> = Vec::new();
    let seg_chars = str_chars("cfg_attr");
    segments.push(chars_to_string(&seg_chars));
    proof {
        reveal_strlit("(");
        reveal_strlit(",");
        reveal_strlit(")");
        assert(cfg@.subrange(0, cfg@.len() as int) =~= cfg@);
        assert(piece@.subrange(0, piece@.len() as int) =~= piece@);
        assert(tokens@ =~= "("@ + cfg@ + ","@ + piece@ + ")"@);
        assert(crate::call::segs_model(segments@) =~= seq!["cfg_attr"@]);
    }
    RawAttr { segments, tokens: chars_to_string(&tokens) }
}

/// Builds the carriers for the pieces of a flattened `cfg_attr`.
fn cfg_attrs_of_pieces(cfg: &Vec<char>, rest: &Vec<char>) -> (r: Vec<RawAttr>)
    ensures
        r@.map_values(|a: RawAttr| a@) == split_top_commas(rest@).map_values(
            |piece: Seq<char>| spec_cfg_attr_of(cfg@, piece),
        ),
    decreases rest@.len(),
{
    match crate::annot::find_top_comma_exec(rest, 0) {
        None => {
            let mut out: Vec<RawAttr> = Vec::new();
            let whole = crate::parse::subvec(rest, 0, rest.len());
            proof {
                assert(whole@ =~= rest@);
            }
            out.push(cfg_attr_of(cfg, &whole));
            proof {
                assert(out@.map_values(|a: RawAttr| a@) =~= seq![
                    spec_cfg_attr_of(cfg@, rest@),
                ]);
                assert(split_top_commas(rest@) =~= seq![rest@]);
                assert(split_top_commas(rest@).map_values(
                    |piece: Seq<char>| spec_cfg_attr_of(cfg@, piece),
                ) =~= seq![spec_cfg_attr_of(cfg@, rest@)]);
            }
            out
        }
        Some(k) => {
            let n = rest.len();
            let head = crate::parse::subvec(rest, 0, k);
            let tail = crate::parse::subvec(rest, k + 1, n);
            proof {
                assert(head@ == rest@.take(k as int));
                assert(tail@ == rest@.skip(k as int + 1));
            }
            let head_attr = cfg_attr_of(cfg, &head);
            let ghost head_model = head_attr@;
            let rest_attrs = cfg_attrs_of_pieces(cfg, &tail);
            let ghost rest_model = rest_attrs@.map_values(|a: RawAttr| a@);
            let mut out = rest_attrs;
            out.insert(0, head_attr);
            proof {
                let f = |a: RawAttr| a@;
                let g = |piece: Seq<char>| spec_cfg_attr_of(cfg@, piece);
                assert(out@[0] == head_attr);
                assert(out@.skip(1) =~= out@.subrange(1, out@.len() as int));
                assert(out@.map_values(f) =~= seq![head_model] + rest_model);
                assert(split_top_commas(rest@) =~= seq![rest@.take(k as int)] + split_top_commas(
                    rest@.skip(k as int + 1),
                ));
                assert(split_top_commas(rest@).map_values(g) =~= seq![g(rest@.take(k as int))]
                    + split_top_commas(rest@.skip(k as int + 1)).map_values(g));
            }
            out
        }
    }
}

/// Splits every `cfg_attr` that carries several annotations into one
/// `cfg_attr` per annotation, as `spec_flatten_cfgs` describes. The
/// produced carriers are not themselves re-examined.
pub fn flatten_cfgs(attrs: &Vec<RawAttr>) -> (r: Vec<RawAttr>)
    ensures
        r@.map_values(|a: RawAttr| a@) == spec_flatten_cfgs(
            attrs@.map_values(|a: RawAttr| a@),
            0,
        ),
{
    let ghost model = attrs@.map_values(|a: RawAttr| a@);
    let mut out: Vec<RawAttr> = Vec::new();
    let mut i: usize = 0;
    proof {
        assert(spec_flatten_cfgs(model, 0) =~= out@.map_values(|a: RawAttr| a@)
            + spec_flatten_cfgs(model, 0));
    }
    while i < attrs.len()
        invariant
            i <= attrs@.len(),
            model == attrs@.map_values(|a: RawAttr| a@),
            spec_flatten_cfgs(model, 0) == out@.map_values(|a: RawAttr| a@) + spec_flatten_cfgs(
                model,
                i as int,
            ),
        decreases attrs@.len() - i,
    {
        proof {
            assert(model[i as int] == attrs@[i as int]@);
        }
        let ghost acc = out@.map_values(|a: RawAttr| a@);
        let a = &attrs[i];
        let mut expanded = flatten_one(a);
        let ghost expanded_model = expanded@.map_values(|x: RawAttr| x@);
        out.append(&mut expanded);
        proof {
            assert(out@.map_values(|x: RawAttr| x@) =~= acc + expanded_model);
            assert(spec_flatten_cfgs(model, 0) =~= out@.map_values(|x: RawAttr| x@)
                + spec_flatten_cfgs(model, i as int + 1));
        }
        i = i + 1;
    }
    proof {
        assert(spec_flatten_cfgs(model, attrs@.len() as int) =~= Seq::<RawAttrModel>::empty());
        assert(spec_flatten_cfgs(model, 0) =~= out@.map_values(|a: RawAttr| a@));
    }
    out
}

/// Flattens one attribute, as `spec_flatten_one` describes.
fn flatten_one(a: &RawAttr) -> (r: Vec<RawAttr>)
    ensures
        r@.map_values(|x: RawAttr| x@) == spec_flatten_one(a@),
{
    let is_cfg_attr = if a.segments.len() == 1 {
        let s0 = str_chars(a.segments[0].as_str());
        let r0 = str_eq_chars("cfg_attr", &s0);
        proof {
            if r0 {
                assert(a@.segments =~= seq!["cfg_attr"@]);
            } else {
                assert(a@.segments[0] != "cfg_attr"@);
                assert(a@.segments != seq!["cfg_attr"@]);
            }
        }
        r0
    } else {
        proof {
            assert(a@.segments.len() != 1);
            assert(a@.segments != seq!["cfg_attr"@]);
        }
        false
    };
    if !is_cfg_attr {
        let mut out: Vec<RawAttr> = Vec::new();
        out.push(a.duplicate());
        proof {
            assert(out@.map_values(|x: RawAttr| x@) =~= seq![a@]);
        }
        return out;
    }
    match paren_content(a.tokens.as_str()) {
        Some(content) => match crate::annot::find_top_comma_exec(&content, 0) {
            Some(k) => {
                let n = content.len();
                let cfg = crate::parse::subvec(&content, 0, k);
                let rest = crate::parse::subvec(&content, k + 1, n);
                proof {
                    assert(cfg@ == content@.take(k as int));
                    assert(rest@ == content@.skip(k as int + 1));
                }
                cfg_attrs_of_pieces(&cfg, &rest)
            }
            None => {
                let mut out: Vec<RawAttr> = Vec::new();
                out.push(a.duplicate());
                proof {
                    assert(out@.map_values(|x: RawAttr| x@) =~= seq![a@]);
                }
                out
            }
        },
        None => {
            let mut out: Vec<RawAttr> = Vec::new();
            out.push(a.duplicate());
            proof {
                assert(out@.map_values(|x: RawAttr| x@) =~= seq![a@]);
            }
            out
        }
    }
}

/// One declaration annotation with the predicate of its carrier.
#[derive(Debug)]
pub struct PreAttrWithCfg {
    /// The annotation's content.
    pub attr: crate::annot::PreAttr,
    /// The carrier's predicate, if the carrier was a `cfg_attr`.
    pub cfg: Option<String>,
}

impl View for PreAttrWithCfg {
    type V = (crate::annot::PreAttrModel, Option<Seq<char>>);

    open spec fn view(&self) -> (crate::annot::PreAttrModel, Option<Seq<char>>) {
        (
            self.attr@,
            match &self.cfg {
                Some(c) => Some(c@),
                None => None,
            },
        )
    }
}

/// What scanning an attribute list for `pre` annotations yields.
pub struct PreScanModel {
    /// The collected annotation contents with their predicates, in source
    /// order.
    pub collected: Seq<(crate::annot::PreAttrModel, Option<Seq<char>>)>,
    /// The attributes left in place.
    pub kept: Seq<RawAttrModel>,
    /// The diagnostics, one per malformed carrier.
    pub diags: Seq<Diagnostic>,
}

/// What scanning for `pre` annotations from position `i` on yields: every
/// well-formed annotation is collected and its carrier removed; a
/// malformed carrier is reported and left in place.
pub open spec fn spec_scan_pre(attrs: Seq<RawAttrModel>, alias: Seq<char>, i: int) -> PreScanModel
    decreases attrs.len() - i,
{
    if i < 0 || i >= attrs.len() {
        PreScanModel { collected: Seq::empty(), kept: Seq::empty(), diags: Seq::empty() }
    } else {
        let rest = spec_scan_pre(attrs, alias, i + 1);
        match spec_attr_match(attrs[i], "pre"@, alias) {
            AttrMatchModel::Mine { content, cfg } => match crate::annot::spec_parse_pre_attr(
                content,
            ) {
                Ok(p) => PreScanModel {
                    collected: seq![(p, cfg)] + rest.collected,
                    kept: rest.kept,
                    diags: rest.diags,
                },
                Err(_) => PreScanModel {
                    collected: rest.collected,
                    kept: seq![attrs[i]] + rest.kept,
                    diags: seq![Diagnostic::MalformedAnnotation { index: i as usize }]
                        + rest.diags,
                },
            },
            AttrMatchModel::Malformed => PreScanModel {
                collected: rest.collected,
                kept: seq![attrs[i]] + rest.kept,
                diags: seq![Diagnostic::MalformedAnnotation { index: i as usize }] + rest.diags,
            },
            AttrMatchModel::NotMine => PreScanModel {
                collected: rest.collected,
                kept: seq![attrs[i]] + rest.kept,
                diags: rest.diags,
            },
        }
    }
}

/// Scans an attribute list for `pre` annotations, as `spec_scan_pre`
/// describes.
pub fn scan_pre_attrs(attrs: &Vec<RawAttr>, alias: &str) -> (r: (
    Vec<PreAttrWithCfg>,
    Vec<RawAttr>,
    Vec<Diagnostic>,
))
    ensures
        ({
            let scan = spec_scan_pre(attrs@.map_values(|x: RawAttr| x@), alias@, 0);
            &&& r.0@.map_values(|p: PreAttrWithCfg| p@) == scan.collected
            &&& r.1@.map_values(|x: RawAttr| x@) == scan.kept
            &&& r.2@ == scan.diags
        }),
{
    let ghost model = attrs@.map_values(|x: RawAttr| x@);
    let mut collected: Vec<PreAttrWithCfg> = Vec::new();
    let mut kept: Vec<RawAttr> = Vec::new();
    let mut diags: Vec<Diagnostic> = Vec::new();
    let mut i: usize = 0;
    proof {
        let scan = spec_scan_pre(model, alias@, 0);
        assert(scan.collected =~= collected@.map_values(|p: PreAttrWithCfg| p@) + scan.collected);
        assert(scan.kept =~= kept@.map_values(|x: RawAttr| x@) + scan.kept);
        assert(scan.diags =~= diags@ + scan.diags);
    }
    while i < attrs.len()
        invariant
            i <= attrs@.len(),
            model == attrs@.map_values(|x: RawAttr| x@),
            spec_scan_pre(model, alias@, 0).collected == collected@.map_values(
                |p: PreAttrWithCfg| p@,
            ) + spec_scan_pre(model, alias@, i as int).collected,
            spec_scan_pre(model, alias@, 0).kept == kept@.map_values(|x: RawAttr| x@)
                + spec_scan_pre(model, alias@, i as int).kept,
            spec_scan_pre(model, alias@, 0).diags == diags@ + spec_scan_pre(
                model,
                alias@,
                i as int,
            ).diags,
        decreases attrs@.len() - i,
    {
        proof {
            assert(model[i as int] == attrs@[i as int]@);
        }
        let m = attr_match(&attrs[i], "pre", alias);
        let ghost c_acc = collected@.map_values(|p: PreAttrWithCfg| p@);
        let ghost k_acc = kept@.map_values(|x: RawAttr| x@);
        let ghost d_acc = diags@;
        match m {
            AttrMatch::Mine { content, cfg } => {
                match crate::annot::parse_pre_attr(content.as_str()) {
                    Ok(p) => {
                        let item = PreAttrWithCfg { attr: p, cfg };
                        let ghost item_model = item@;
                        collected.push(item);
                        proof {
                            assert(collected@.map_values(|x: PreAttrWithCfg| x@) =~= c_acc
                                + seq![item_model]);
                            assert(spec_scan_pre(model, alias@, 0).collected
                                =~= collected@.map_values(|x: PreAttrWithCfg| x@) + spec_scan_pre(
                                model,
                                alias@,
                                i as int + 1,
                            ).collected);
                            assert(spec_scan_pre(model, alias@, 0).kept =~= kept@.map_values(
                                |x: RawAttr| x@,
                            ) + spec_scan_pre(model, alias@, i as int + 1).kept);
                            assert(spec_scan_pre(model, alias@, 0).diags =~= diags@
                                + spec_scan_pre(model, alias@, i as int + 1).diags);
                        }
                    }
                    Err(_) => {
                        kept.push(attrs[i].duplicate());
                        diags.push(Diagnostic::MalformedAnnotation { index: i });
                        proof {
                            assert(kept@.map_values(|x: RawAttr| x@) =~= k_acc + seq![
                                model[i as int],
                            ]);
                            assert(diags@ =~= d_acc + seq![
                                Diagnostic::MalformedAnnotation { index: i as usize },
                            ]);
                            assert(spec_scan_pre(model, alias@, 0).collected
                                =~= collected@.map_values(|x: PreAttrWithCfg| x@) + spec_scan_pre(
                                model,
                                alias@,
                                i as int + 1,
                            ).collected);
                            assert(spec_scan_pre(model, alias@, 0).kept =~= kept@.map_values(
                                |x: RawAttr| x@,
                            ) + spec_scan_pre(model, alias@, i as int + 1).kept);
                            assert(spec_scan_pre(model, alias@, 0).diags =~= diags@
                                + spec_scan_pre(model, alias@, i as int + 1).diags);
                        }
                    }
                }
            }
            AttrMatch::Malformed => {
                kept.push(attrs[i].duplicate());
                diags.push(Diagnostic::MalformedAnnotation { index: i });
                proof {
                    assert(kept@.map_values(|x: RawAttr| x@) =~= k_acc + seq![model[i as int]]);
                    assert(diags@ =~= d_acc + seq![
                        Diagnostic::MalformedAnnotation { index: i as usize },
                    ]);
                    assert(spec_scan_pre(model, alias@, 0).collected =~= collected@.map_values(
                        |x: PreAttrWithCfg| x@,
                    ) + spec_scan_pre(model, alias@, i as int + 1).collected);
                    assert(spec_scan_pre(model, alias@, 0).kept =~= kept@.map_values(
                        |x: RawAttr| x@,
                    ) + spec_scan_pre(model, alias@, i as int + 1).kept);
                    assert(spec_scan_pre(model, alias@, 0).diags =~= diags@ + spec_scan_pre(
                        model,
                        alias@,
                        i as int + 1,
                    ).diags);
                }
            }
            AttrMatch::NotMine => {
                kept.push(attrs[i].duplicate());
                proof {
                    assert(kept@.map_values(|x: RawAttr| x@) =~= k_acc + seq![model[i as int]]);
                    assert(spec_scan_pre(model, alias@, 0).collected =~= collected@.map_values(
                        |x: PreAttrWithCfg| x@,
                    ) + spec_scan_pre(model, alias@, i as int + 1).collected);
                    assert(spec_scan_pre(model, alias@, 0).kept =~= kept@.map_values(
                        |x: RawAttr| x@,
                    ) + spec_scan_pre(model, alias@, i as int + 1).kept);
                    assert(spec_scan_pre(model, alias@, 0).diags =~= diags@ + spec_scan_pre(
                        model,
                        alias@,
                        i as int + 1,
                    ).diags);
                }
            }
        }
        i = i + 1;
    }
    proof {
        let scan_end = spec_scan_pre(model, alias@, attrs@.len() as int);
        assert(scan_end.collected =~= Seq::<(crate::annot::PreAttrModel, Option<Seq<char>>)>::empty());
        assert(scan_end.kept =~= Seq::<RawAttrModel>::empty());
        assert(scan_end.diags =~= Seq::<Diagnostic>::empty());
        assert(spec_scan_pre(model, alias@, 0).collected =~= collected@.map_values(
            |p: PreAttrWithCfg| p@,
        ));
        assert(spec_scan_pre(model, alias@, 0).kept =~= kept@.map_values(|x: RawAttr| x@));
        assert(spec_scan_pre(model, alias@, 0).diags =~= diags@);
    }
    (collected, kept, diags)
}

/// Whether any collected annotation suppresses documentation.
pub open spec fn spec_any_no_doc(items: Seq<(crate::annot::PreAttrModel, Option<Seq<char>>)>) -> bool {
    exists|k: int|
        0 <= k < items.len() && #[trigger] items[k].0 is NoDoc
}

/// Whether any collected annotation suppresses the runtime self-checks.
pub open spec fn spec_any_no_debug_assert(
    items: Seq<(crate::annot::PreAttrModel, Option<Seq<char>>)>,
) -> bool {
    exists|k: int|
        0 <= k < items.len() && #[trigger] items[k].0 is NoDebugAssert
}

/// The preconditions among the collected annotations, each with its
/// carrier's predicate, in source order.
pub open spec fn spec_collected_preconditions(
    items: Seq<(crate::annot::PreAttrModel, Option<Seq<char>>)>,
    i: int,
) -> Seq<crate::precondition::CfgClause>
    decreases items.len() - i,
{
    if i < 0 || i >= items.len() {
        Seq::empty()
    } else {
        let rest = spec_collected_preconditions(items, i + 1);
        match items[i].0 {
            crate::annot::PreAttrModel::Precondition(c) => seq![
                crate::precondition::CfgClause { clause: c, cfg: items[i].1 },
            ] + rest,
            _ => rest,
        }
    }
}

/// Reads the flags and the precondition list out of the collected `pre`
/// annotations: an empty annotation only enables assurance processing and
/// contributes nothing here.
pub fn collect_declaration_input(items: Vec<PreAttrWithCfg>) -> (r: (
    bool,
    bool,
    Vec<crate::precondition::CfgPrecondition>,
))
    ensures
        ({
            let model = items@.map_values(|p: PreAttrWithCfg| p@);
            &&& r.0 == spec_any_no_doc(model)
            &&& r.1 == spec_any_no_debug_assert(model)
            &&& r.2@.map_values(|p: crate::precondition::CfgPrecondition| p@)
                == spec_collected_preconditions(model, 0)
        }),
{
    let ghost model = items@.map_values(|p: PreAttrWithCfg| p@);
    let mut no_doc = false;
    let mut no_debug_assert = false;
    let mut preconditions: Vec<crate::precondition::CfgPrecondition> = Vec::new();
    let mut rest = items;
    let total = rest.len();
    let mut i: usize = 0;
    proof {
        assert(total == model.len());
        assert(spec_collected_preconditions(model, 0) =~= preconditions@.map_values(
            |p: crate::precondition::CfgPrecondition| p@,
        ) + spec_collected_preconditions(model, 0));
    }
    while rest.len() > 0
        invariant
            total == model.len(),
            i + rest@.len() == model.len(),
            forall|k: int| 0 <= k < rest@.len() ==> #[trigger] rest@[k]@ == model[i + k],
            no_doc == exists|k: int| 0 <= k < i && #[trigger] model[k].0 is NoDoc,
            no_debug_assert == exists|k: int|
                0 <= k < i && #[trigger] model[k].0 is NoDebugAssert,
            spec_collected_preconditions(model, 0) == preconditions@.map_values(
                |p: crate::precondition::CfgPrecondition| p@,
            ) + spec_collected_preconditions(model, i as int),
        decreases rest@.len(),
    {
        let ghost rest_before = rest@;
        let item = rest.remove(0);
        proof {
            assert(item == rest_before[0]);
            assert(item@ == model[i as int]);
            assert forall|k: int| 0 <= k < rest@.len() implies #[trigger] rest@[k]@ == model[i
                + 1 + k] by {
                assert(rest@[k] == rest_before[k + 1]);
            }
        }
        let ghost p_acc = preconditions@.map_values(
            |p: crate::precondition::CfgPrecondition| p@,
        );
        match item.attr {
            crate::annot::PreAttr::Empty => {
                proof {
                    assert(spec_collected_preconditions(model, i as int)
                        == spec_collected_preconditions(model, i as int + 1));
                }
            }
            crate::annot::PreAttr::NoDoc => {
                no_doc = true;
                proof {
                    assert(model[i as int].0 is NoDoc);
                    assert(spec_collected_preconditions(model, i as int)
                        == spec_collected_preconditions(model, i as int + 1));
                }
            }
            crate::annot::PreAttr::NoDebugAssert => {
                no_debug_assert = true;
                proof {
                    assert(model[i as int].0 is NoDebugAssert);
                    assert(spec_collected_preconditions(model, i as int)
                        == spec_collected_preconditions(model, i as int + 1));
                }
            }
            crate::annot::PreAttr::Precondition(p) => {
                let combined = crate::precondition::CfgPrecondition {
                    precondition: p,
                    cfg: item.cfg,
                };
                let ghost combined_model = combined@;
                preconditions.push(combined);
                proof {
                    assert(preconditions@.map_values(
                        |q: crate::precondition::CfgPrecondition| q@,
                    ) =~= p_acc + seq![combined_model]);
                    assert(spec_collected_preconditions(model, i as int) == seq![combined_model]
                        + spec_collected_preconditions(model, i as int + 1));
                    assert(spec_collected_preconditions(model, 0) =~= preconditions@.map_values(
                        |q: crate::precondition::CfgPrecondition| q@,
                    ) + spec_collected_preconditions(model, i as int + 1));
                }
            }
        }
        i = i + 1;
    }
    proof {
        assert(i == model.len());
        assert(spec_collected_preconditions(model, model.len() as int) =~= Seq::<
            crate::precondition::CfgClause,
        >::empty());
        assert(spec_collected_preconditions(model, 0) =~= preconditions@.map_values(
            |p: crate::precondition::CfgPrecondition| p@,
        ));
        if no_doc {
        } else {
            assert forall|k: int| 0 <= k < model.len() implies !(#[trigger] model[k].0
                is NoDoc) by {}
        }
    }
    (no_doc, no_debug_assert, preconditions)
}

} // verus!
