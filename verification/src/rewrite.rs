//! The call-site rewriter: checks the justifications of the assurances on a
//! call, resolves an optional forwarding target, and rewrites the call to
//! carry the hidden contract argument. Hard errors never abort the pass:
//! the offending call falls back to its original form and the diagnostics
//! accumulate beside the result.

use vstd::prelude::*;

use crate::call::{Call, Callee, CallModel, PathModel};
use crate::diag::Diagnostic;
use crate::encode::{clauses_of, encode_for_call, encoding_of, MarkerModel};
use crate::forward::{
    spec_check_prefix, spec_direct_path, spec_replace_path, spec_stub_path, ForwardTarget,
    ForwardTargetModel,
};
use crate::precondition::{CfgClause, CfgPrecondition};
use crate::text::{str_chars, str_eq_chars};

verus! {

/// The reserved placeholder text that examples use for a justification.
pub open spec fn hint_reason_text() -> Seq<char> {
    "<specify the reason why you can assure this here>"@
}

/// The reserved placeholder text, at runtime.
pub fn hint_reason() -> (r: &'static str)
    ensures
        r@ == hint_reason_text(),
{
    "<specify the reason why you can assure this here>"
}

/// A caller's restatement of one precondition, with its justification.
#[derive(Debug)]
pub struct Assurance {
    /// The restated precondition.
    pub precondition: CfgPrecondition,
    /// The justification, absent when the caller wrote none.
    pub reason: Option<String>,
}

/// The model of an assurance.
pub struct AssuranceModel {
    /// The restated clause, with its predicate.
    pub clause: CfgClause,
    /// The justification text, if any.
    pub reason: Option<Seq<char>>,
}

impl View for Assurance {
    type V = AssuranceModel;

    open spec fn view(&self) -> AssuranceModel {
        AssuranceModel {
            clause: self.precondition@,
            reason: match &self.reason {
                Some(s) => Some(s@),
                None => None,
            },
        }
    }
}

/// The annotations found on one call expression.
#[derive(Debug)]
pub struct CallAnnotations {
    /// The forwarding target, if one was given.
    pub forward: Option<ForwardTarget>,
    /// The assurances, in the order they were written.
    pub assurances: Vec<Assurance>,
}

/// Whether the text spells `todo`, each letter in either case.
pub open spec fn spec_todo_ignore_case(r: Seq<char>) -> bool {
    &&& r.len() == 4
    &&& (r[0] == 't' || r[0] == 'T')
    &&& (r[1] == 'o' || r[1] == 'O')
    &&& (r[2] == 'd' || r[2] == 'D')
    &&& (r[3] == 'o' || r[3] == 'O')
}

/// Whether a justification is an unfinished placeholder: the reserved
/// placeholder text, a case-insensitive `todo`, or `?`.
pub open spec fn spec_placeholder_reason(r: Seq<char>) -> bool {
    ||| spec_todo_ignore_case(r)
    ||| r == "?"@
    ||| r == hint_reason_text()
}

/// The diagnostics that justification checking reports for one assurance:
/// a missing justification and an empty one are hard errors; a placeholder
/// is a warning.
pub open spec fn spec_reason_diag(a: AssuranceModel, i: int) -> Seq<Diagnostic> {
    match a.reason {
        None => seq![Diagnostic::MissingReason { index: i as usize }],
        Some(r) => {
            if r.len() == 0 {
                seq![Diagnostic::EmptyReason { index: i as usize }]
            } else if spec_placeholder_reason(r) {
                seq![Diagnostic::PlaceholderReason { index: i as usize }]
            } else {
                Seq::empty()
            }
        }
    }
}

/// The diagnostics that justification checking reports from position `i`
/// on.
pub open spec fn spec_reason_diags(assurances: Seq<AssuranceModel>, i: int) -> Seq<Diagnostic>
    decreases assurances.len() - i,
{
    if i < 0 || i >= assurances.len() {
        Seq::empty()
    } else {
        spec_reason_diag(assurances[i], i) + spec_reason_diags(assurances, i + 1)
    }
}

/// Whether the text is a case-insensitive `todo` or a `?`.
fn is_todo_or_question(v: &Vec<char>) -> (r: bool)
    ensures
        r == (spec_todo_ignore_case(v@) || v@ == "?"@),
{
    proof {
        reveal_strlit("?");
    }
    if v.len() == 1 {
        let c = v[0];
        if c == '?' {
            proof {
                assert(v@ =~= "?"@);
            }
            return true;
        }
        proof {
            assert(v@[0] != "?"@[0]);
        }
        return false;
    }
    proof {
        assert(v@.len() != "?"@.len());
    }
    if v.len() != 4 {
        return false;
    }
    (v[0] == 't' || v[0] == 'T') && (v[1] == 'o' || v[1] == 'O') && (v[2] == 'd' || v[2] == 'D')
        && (v[3] == 'o' || v[3] == 'O')
}

/// Checks that every assurance carries a meaningful justification.
///
/// A missing or empty justification is a hard error; the reserved
/// placeholder text and case-insensitive `todo` or `?` are warnings that
/// support staged migration of legacy call sites.
pub fn check_reasons(assurances: &Vec<Assurance>) -> (r: Vec<Diagnostic>)
    ensures
        r@ == spec_reason_diags(assurances@.map_values(|a: Assurance| a@), 0),
{
    let ghost model = assurances@.map_values(|a: Assurance| a@);
    let mut diags: Vec<Diagnostic> = Vec::new();
    let mut i: usize = 0;
    proof {
        assert(spec_reason_diags(model, 0) =~= diags@ + spec_reason_diags(model, 0));
    }
    while i < assurances.len()
        invariant
            i <= assurances@.len(),
            model == assurances@.map_values(|a: Assurance| a@),
            spec_reason_diags(model, 0) == diags@ + spec_reason_diags(model, i as int),
        decreases assurances@.len() - i,
    {
        let ghost before = diags@;
        match &assurances[i].reason {
            None => {
                diags.push(Diagnostic::MissingReason { index: i });
            }
            Some(reason) => {
                let rv = str_chars(reason.as_str());
                if rv.len() == 0 {
                    diags.push(Diagnostic::EmptyReason { index: i });
                } else if is_todo_or_question(&rv) || str_eq_chars(hint_reason(), &rv) {
                    diags.push(Diagnostic::PlaceholderReason { index: i });
                }
            }
        }
        proof {
            assert(diags@ =~= before + spec_reason_diag(model[i as int], i as int));
            assert(spec_reason_diags(model, i as int) == spec_reason_diag(model[i as int], i as int)
                + spec_reason_diags(model, i as int + 1));
            assert(spec_reason_diags(model, 0) =~= diags@ + spec_reason_diags(
                model,
                i as int + 1,
            ));
        }
        i = i + 1;
    }
    proof {
        assert(spec_reason_diags(model, assurances@.len() as int) =~= Seq::<Diagnostic>::empty());
        assert(spec_reason_diags(model, 0) =~= diags@);
    }
    diags
}

/// A rewritten call site: the shape the engine leaves behind.
#[derive(Debug)]
pub enum RewrittenCall {
    /// No forwarding: the call itself carries the hidden argument.
    Plain {
        /// The call with the hidden argument appended.
        call: Call,
    },
    /// A `Direct` or `Replace` forward: an always-taken branch holds the
    /// redirected, contract-carrying call; the never-taken branch holds the
    /// original call, kept so that type inference and unused-import
    /// analysis still see it.
    Redirected {
        /// The redirected call, with the hidden argument appended.
        forwarded: Call,
        /// The original call, in the never-executed branch.
        original: Call,
    },
    /// An impl-block (or method) forward: the always-taken branch holds
    /// the original call unchanged, so runtime behavior is untouched; the
    /// never-executed branch alone carries the contract-checking stub
    /// invocation.
    StubChecked {
        /// The original call, still performed at runtime.
        original: Call,
        /// The zero-argument stub call carrying the hidden argument.
        stub: Call,
    },
    /// A hard error: the call is left exactly as it was written.
    Unchanged {
        /// The original call.
        original: Call,
    },
}

/// The model of a rewritten call site.
pub enum RewrittenCallModel {
    /// No forwarding.
    Plain { call: CallModel },
    /// A redirected call beside the dead original.
    Redirected { forwarded: CallModel, original: CallModel },
    /// The live original beside the dead contract-checking stub.
    StubChecked { original: CallModel, stub: CallModel },
    /// Left as written.
    Unchanged { original: CallModel },
}

impl View for RewrittenCall {
    type V = RewrittenCallModel;

    open spec fn view(&self) -> RewrittenCallModel {
        match self {
            RewrittenCall::Plain { call } => RewrittenCallModel::Plain { call: call@ },
            RewrittenCall::Redirected { forwarded, original } => RewrittenCallModel::Redirected {
                forwarded: forwarded@,
                original: original@,
            },
            RewrittenCall::StubChecked { original, stub } => RewrittenCallModel::StubChecked {
                original: original@,
                stub: stub@,
            },
            RewrittenCall::Unchanged { original } => RewrittenCallModel::Unchanged {
                original: original@,
            },
        }
    }
}

/// The stub call an impl-block lookup resolves to, with the hidden
/// argument appended.
pub open spec fn spec_stub_call(path: PathModel, fn_name: Seq<char>, enc: Seq<MarkerModel>) -> CallModel {
    CallModel::Function {
        callee: crate::call::CalleeModel::Named(spec_stub_path(path, fn_name)),
        args: seq![crate::call::CallArgModel::Hidden(enc)],
    }
}

/// What resolving a forwarding target against a call yields: the rewritten
/// call site and its diagnostics. `enc` is the encoding of the call's
/// assured preconditions.
pub open spec fn spec_update_call(
    target: ForwardTargetModel,
    call: CallModel,
    enc: Seq<MarkerModel>,
) -> (RewrittenCallModel, Seq<Diagnostic>) {
    match call {
        CallModel::Function { callee, args } => match callee {
            crate::call::CalleeModel::Unresolved => (
                RewrittenCallModel::Unchanged { original: call },
                seq![Diagnostic::AmbiguousCallee],
            ),
            crate::call::CalleeModel::Named(path) => match target {
                ForwardTargetModel::Direct { path: target_path } => (
                    RewrittenCallModel::Redirected {
                        forwarded: call.with_callee(spec_direct_path(target_path, path)).with_hidden_arg(enc),
                        original: call,
                    },
                    Seq::empty(),
                ),
                ForwardTargetModel::Replace { from, to } => match spec_check_prefix(from, path) {
                    None => (
                        RewrittenCallModel::Redirected {
                            forwarded: call.with_callee(
                                spec_replace_path(from, to, path),
                            ).with_hidden_arg(enc),
                            original: call,
                        },
                        Seq::empty(),
                    ),
                    Some(d) => (
                        RewrittenCallModel::Redirected {
                            forwarded: call.with_hidden_arg(enc),
                            original: call,
                        },
                        seq![d],
                    ),
                },
                ForwardTargetModel::ImplBlock { path: target_path } => {
                    if path.segments.len() == 0 {
                        (RewrittenCallModel::Unchanged { original: call }, Seq::empty())
                    } else if target_path.segments.len() == 0 {
                        (
                            RewrittenCallModel::Unchanged { original: call },
                            seq![Diagnostic::EmptyPath],
                        )
                    } else {
                        (
                            RewrittenCallModel::StubChecked {
                                original: call,
                                stub: spec_stub_call(
                                    target_path,
                                    path.segments[path.segments.len() - 1],
                                    enc,
                                ),
                            },
                            Seq::empty(),
                        )
                    }
                }
            },
        },
        CallModel::Method { method, args } => match target {
            ForwardTargetModel::Direct { path: target_path }
            | ForwardTargetModel::ImplBlock { path: target_path } => {
                if target_path.segments.len() == 0 {
                    (
                        RewrittenCallModel::Unchanged { original: call },
                        seq![Diagnostic::EmptyPath],
                    )
                } else {
                    (
                        RewrittenCallModel::StubChecked {
                            original: call,
                            stub: spec_stub_call(target_path, method, enc),
                        },
                        Seq::empty(),
                    )
                }
            }
            ForwardTargetModel::Replace { .. } => (
                RewrittenCallModel::Unchanged { original: call },
                seq![Diagnostic::ReplaceOnMethodCall],
            ),
        },
    }
}

/// Resolves a forwarding target against a call and rewrites the call site,
/// exactly as `spec_update_call` describes: a `Direct` or `Replace` target
/// redirects the callee path and the redirected call carries the hidden
/// argument; an impl-block target (and any forward on a method call)
/// leaves the original call in the live branch and puts a contract-bearing
/// stub call in the dead branch; a `Replace` on a method call and a callee
/// that is not a direct path are hard errors.
pub fn update_call(
    target: ForwardTarget,
    call: Call,
    preconditions: Vec<CfgPrecondition>,
) -> (r: (RewrittenCall, Vec<Diagnostic>))
    ensures
        (r.0@, r.1@) == spec_update_call(
            target@,
            call@,
            encoding_of(clauses_of(preconditions@)),
        ),
{
    let ghost enc = encoding_of(clauses_of(preconditions@));
    let mut diags: Vec<Diagnostic> = Vec::new();
    proof {
        assert(diags@ =~= Seq::<Diagnostic>::empty());
    }
    match &call {
        Call::Function { callee: Callee::Unresolved, .. } => {
            diags.push(Diagnostic::AmbiguousCallee);
            proof {
                assert(diags@ =~= seq![Diagnostic::AmbiguousCallee]);
            }
            (RewrittenCall::Unchanged { original: call }, diags)
        }
        Call::Function { callee: Callee::Named(path), .. } => {
            match &target {
                ForwardTarget::Direct { .. } | ForwardTarget::Replace { .. } => {
                    let ghost original_path = path@;
                    let (new_path, mut d2) = crate::forward::construct_new_path(&target, path);
                    let ghost d2v = d2@;
                    diags.append(&mut d2);
                    proof {
                        assert(diags@ =~= d2v);
                    }
                    let original = call.duplicate();
                    let mut forwarded = call;
                    forwarded.set_callee_path(new_path);
                    forwarded.push_hidden_arg(encode_for_call(preconditions));
                    proof {
                        if target@ matches ForwardTargetModel::Replace { from, to }
                            && spec_check_prefix(from, original_path) is Some {
                            assert(original@.with_callee(original_path) == original@);
                        }
                    }
                    (RewrittenCall::Redirected { forwarded, original }, diags)
                }
                ForwardTarget::ImplBlock { path: target_path } => {
                    if path.segments.len() == 0 {
                        return (RewrittenCall::Unchanged { original: call }, diags);
                    }
                    let fn_name_owned = path.segments[path.segments.len() - 1].clone();
                    match crate::forward::create_stub_call(target_path, fn_name_owned.as_str()) {
                        Ok(mut stub) => {
                            stub.push_hidden_arg(encode_for_call(preconditions));
                            proof {
                                assert(stub@.args() =~= seq![
                                    crate::call::CallArgModel::Hidden(enc),
                                ]);
                                assert(Seq::<crate::call::CallArgModel>::empty().push(
                                    crate::call::CallArgModel::Hidden(enc),
                                ) =~= seq![crate::call::CallArgModel::Hidden(enc)]);
                            }
                            (RewrittenCall::StubChecked { original: call, stub }, diags)
                        }
                        Err(d) => {
                            diags.push(d);
                            proof {
                                assert(diags@ =~= seq![Diagnostic::EmptyPath]);
                            }
                            (RewrittenCall::Unchanged { original: call }, diags)
                        }
                    }
                }
            }
        }
        Call::Method { method, .. } => {
            match &target {
                ForwardTarget::Direct { path: target_path }
                | ForwardTarget::ImplBlock { path: target_path } => {
                    let method_owned = method.clone();
                    match crate::forward::create_stub_call(target_path, method_owned.as_str()) {
                        Ok(mut stub) => {
                            stub.push_hidden_arg(encode_for_call(preconditions));
                            proof {
                                assert(Seq::<crate::call::CallArgModel>::empty().push(
                                    crate::call::CallArgModel::Hidden(enc),
                                ) =~= seq![crate::call::CallArgModel::Hidden(enc)]);
                            }
                            (RewrittenCall::StubChecked { original: call, stub }, diags)
                        }
                        Err(d) => {
                            diags.push(d);
                            proof {
                                assert(diags@ =~= seq![Diagnostic::EmptyPath]);
                            }
                            (RewrittenCall::Unchanged { original: call }, diags)
                        }
                    }
                }
                ForwardTarget::Replace { .. } => {
                    diags.push(Diagnostic::ReplaceOnMethodCall);
                    proof {
                        assert(diags@ =~= seq![Diagnostic::ReplaceOnMethodCall]);
                    }
                    (RewrittenCall::Unchanged { original: call }, diags)
                }
            }
        }
    }
}

/// The preconditions restated by a list of assurances, in order; an
/// assurance is consumed during rewriting and never persisted.
pub fn assurance_preconditions(assurances: &Vec<Assurance>) -> (r: Vec<CfgPrecondition>)
    ensures
        r@.map_values(|p: CfgPrecondition| p@) == assurances@.map_values(
            |a: Assurance| a@.clause,
        ),
{
    let mut r: Vec<CfgPrecondition> = Vec::new();
    let mut i: usize = 0;
    while i < assurances.len()
        invariant
            i <= assurances@.len(),
            r@.map_values(|p: CfgPrecondition| p@) == assurances@.take(i as int).map_values(
                |a: Assurance| a@.clause,
            ),
        decreases assurances@.len() - i,
    {
        let ghost old_r = r@;
        r.push(assurances[i].precondition.duplicate());
        proof {
            let f = |p: CfgPrecondition| p@;
            let g = |a: Assurance| a@.clause;
            assert(r@.map_values(f) =~= old_r.map_values(f).push(assurances@[i as int]@.clause));
            assert(assurances@.take(i as int + 1) =~= assurances@.take(i as int).push(
                assurances@[i as int],
            ));
            assert(assurances@.take(i as int + 1).map_values(g) =~= assurances@.take(
                i as int,
            ).map_values(g).push(g(assurances@[i as int])));
        }
        i = i + 1;
    }
    proof {
        assert(assurances@.take(assurances@.len() as int) =~= assurances@);
    }
    r
}

/// Rewrites one call site from its annotations: checks every justification,
/// then either appends the hidden argument in place or resolves the
/// forwarding target first. The returned diagnostics are the justification
/// diagnostics followed by the forwarding diagnostics.
pub fn render_call(annotations: CallAnnotations, call: Call) -> (r: (
    RewrittenCall,
    Vec<Diagnostic>,
))
    ensures
        ({
            let fwd = match annotations.forward {
                Some(t) => Some(t@),
                None => None,
            };
            let (rewritten, diags) = spec_render_call(
                fwd,
                annotations.assurances@.map_values(|a: Assurance| a@),
                call@,
            );
            &&& r.0@ == rewritten
            &&& r.1@ == diags
        }),
{
    let mut diags = check_reasons(&annotations.assurances);
    let ghost amodel = annotations.assurances@.map_values(|a: Assurance| a@);
    let preconditions = assurance_preconditions(&annotations.assurances);
    proof {
        assert(preconditions@.map_values(|p: CfgPrecondition| p@).len() == preconditions@.len());
        assert(annotations.assurances@.map_values(|a: Assurance| a@.clause).len()
            == annotations.assurances@.len());
        assert(preconditions@.len() == annotations.assurances@.len());
        assert(amodel.len() == annotations.assurances@.len());
        assert forall|k: int| 0 <= k < preconditions@.len() implies #[trigger] clauses_of(
            preconditions@,
        )[k] == clauses_of_assurances(amodel)[k] by {
            assert(clauses_of(preconditions@)[k] == preconditions@[k]@.clause);
            assert(preconditions@.map_values(|p: CfgPrecondition| p@)[k] == preconditions@[k]@);
            assert(annotations.assurances@.map_values(|a: Assurance| a@.clause)[k]
                == annotations.assurances@[k]@.clause);
            assert(amodel[k] == annotations.assurances@[k]@);
        }
        assert(clauses_of(preconditions@) =~= clauses_of_assurances(amodel));
    }
    match annotations.forward {
        None => {
            let mut rewritten = call;
            rewritten.push_hidden_arg(encode_for_call(preconditions));
            proof {
                assert(diags@ =~= spec_reason_diags(amodel, 0));
            }
            (RewrittenCall::Plain { call: rewritten }, diags)
        }
        Some(target) => {
            let (rewritten, mut d2) = update_call(target, call, preconditions);
            diags.append(&mut d2);
            (rewritten, diags)
        }
    }
}

/// The clauses restated by a list of assurances.
pub open spec fn clauses_of_assurances(assurances: Seq<AssuranceModel>) -> Seq<
    crate::precondition::Clause,
> {
    assurances.map_values(|a: AssuranceModel| a.clause.clause)
}

/// What rewriting one call site from its annotations yields: the
/// justification diagnostics come first; without a forwarding target the
/// call itself receives the hidden argument, with one the target is
/// resolved as `spec_update_call` describes.
pub open spec fn spec_render_call(
    forward: Option<ForwardTargetModel>,
    assurances: Seq<AssuranceModel>,
    call: CallModel,
) -> (RewrittenCallModel, Seq<Diagnostic>) {
    let enc = encoding_of(clauses_of_assurances(assurances));
    let reason_diags = spec_reason_diags(assurances, 0);
    match forward {
        None => (RewrittenCallModel::Plain { call: call.with_hidden_arg(enc) }, reason_diags),
        Some(target) => {
            let (rewritten, forward_diags) = spec_update_call(target, call, enc);
            (rewritten, reason_diags + forward_diags)
        }
    }
}

} // verus!
