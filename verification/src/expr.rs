//! Locating the call expression that a set of call annotations applies to,
//! inside an arbitrarily nested expression.
//!
//! Expressions are a closed union of the shapes the engine distinguishes: a
//! call, a fixed list of single-subexpression wrappers, the two-operand
//! shapes (where exactly one side must hold the call), optional-value
//! shapes, block-like shapes with exactly one statement, and one-element
//! tuples. Descent stops, with a warning, wherever no unambiguous single
//! call can be found, and the expression is then left unmodified.

use vstd::prelude::*;

use crate::call::{Call, CallModel};
use crate::diag::Diagnostic;
use crate::rewrite::{
    spec_render_call, CallAnnotations, RewrittenCall, RewrittenCallModel,
};

verus! {

/// The wrapper shapes with one unambiguous subexpression.
#[derive(Clone, Copy, PartialEq, Eq, Structural, Debug)]
pub enum WrapKind {
    /// An `.await` expression.
    Await,
    /// A box expression.
    Boxed,
    /// A cast, `e as T`.
    Cast,
    /// A closure; the subexpression is its body.
    Closure,
    /// A field access, `e.f`.
    Field,
    /// A delimiter-transparent group.
    Group,
    /// A `let` guard expression.
    LetGuard,
    /// A parenthesized expression.
    Paren,
    /// A reference, `&e` or `&mut e`.
    Reference,
    /// A `?` expression.
    Try,
    /// A type ascription.
    Ascription,
    /// A unary operator application.
    Unary,
}

/// The shapes with exactly two subexpressions; the call must be on exactly
/// one side.
#[derive(Clone, Copy, PartialEq, Eq, Structural, Debug)]
pub enum PairKind {
    /// An assignment, `a = b`.
    Assign,
    /// A compound assignment, `a += b`.
    AssignOp,
    /// A binary operator application.
    Binary,
    /// An indexing expression, `a[b]`.
    Index,
}

/// The shapes with an optional subexpression.
#[derive(Clone, Copy, PartialEq, Eq, Structural, Debug)]
pub enum OptKind {
    /// A `break` with an optional value.
    Break,
    /// A `return` with an optional value.
    Return,
    /// A `yield` with an optional value.
    Yield,
}

/// The shapes holding a block of statements.
#[derive(Clone, Copy, PartialEq, Eq, Structural, Debug)]
pub enum BlockKind {
    /// An async block.
    Async,
    /// A plain block.
    Block,
    /// A `loop` body.
    Loop,
    /// A `try` block.
    TryBlock,
    /// An `unsafe` block.
    Unsafe,
}

/// An expression, as far as the engine distinguishes expressions.
#[derive(Debug)]
pub enum Expr {
    /// A function or method call.
    Call(Call),
    /// The engine's own output: a rewritten call site.
    Rewritten(Box<RewrittenCall>),
    /// A wrapper around one subexpression.
    Wrap(WrapKind, Box<Expr>),
    /// A shape with exactly two subexpressions.
    Pair(PairKind, Box<Expr>, Box<Expr>),
    /// A shape with an optional subexpression.
    Opt(OptKind, Option<Box<Expr>>),
    /// A block-like shape.
    BlockLike(BlockKind, StmtList),
    /// A tuple.
    Tuple(TupleInner),
    /// Any other expression: no call can be found inside.
    Leaf,
}

/// The statements of a block, as far as the engine distinguishes them:
/// only a block with exactly one statement is searched.
#[derive(Debug)]
pub enum StmtList {
    /// Exactly one statement.
    One(Box<Stmt>),
    /// No statement, or several: never searched.
    Other,
}

/// A tuple's elements: only a one-element tuple is searched.
#[derive(Debug)]
pub enum TupleInner {
    /// Exactly one element.
    One(Box<Expr>),
    /// No element, or several: never searched.
    Other,
}

/// One statement of a block.
#[derive(Debug)]
pub enum Stmt {
    /// A local binding with an initializer.
    LocalInit(Expr),
    /// A local binding without an initializer.
    LocalBare,
    /// An item.
    Item,
    /// A trailing expression.
    Expr(Expr),
    /// An expression statement with a semicolon.
    Semi(Expr),
}

/// The model of an expression.
pub enum ExprModel {
    /// A call.
    Call(CallModel),
    /// A rewritten call site.
    Rewritten(Box<RewrittenCallModel>),
    /// A wrapper.
    Wrap(WrapKind, Box<ExprModel>),
    /// A two-subexpression shape.
    Pair(PairKind, Box<ExprModel>, Box<ExprModel>),
    /// An optional-subexpression shape.
    Opt(OptKind, Option<Box<ExprModel>>),
    /// A block-like shape.
    BlockLike(BlockKind, StmtListModel),
    /// A tuple.
    Tuple(TupleInnerModel),
    /// Any other expression.
    Leaf,
}

/// The model of a block's statements.
pub enum StmtListModel {
    /// Exactly one statement.
    One(Box<StmtModel>),
    /// No statement, or several.
    Other,
}

/// The model of a tuple's elements.
pub enum TupleInnerModel {
    /// Exactly one element.
    One(Box<ExprModel>),
    /// No element, or several.
    Other,
}

/// The model of a statement.
pub enum StmtModel {
    /// A local binding with an initializer.
    LocalInit(ExprModel),
    /// A local binding without an initializer.
    LocalBare,
    /// An item.
    Item,
    /// A trailing expression.
    Expr(ExprModel),
    /// An expression statement with a semicolon.
    Semi(ExprModel),
}

/// The model of an expression.
pub open spec fn expr_model(e: Expr) -> ExprModel
    decreases e,
{
    match e {
        Expr::Call(c) => ExprModel::Call(c@),
        Expr::Rewritten(r) => ExprModel::Rewritten(Box::new((*r)@)),
        Expr::Wrap(k, inner) => ExprModel::Wrap(k, Box::new(expr_model(*inner))),
        Expr::Pair(k, l, r) => ExprModel::Pair(
            k,
            Box::new(expr_model(*l)),
            Box::new(expr_model(*r)),
        ),
        Expr::Opt(k, inner) => ExprModel::Opt(
            k,
            match inner {
                Some(i) => Some(Box::new(expr_model(*i))),
                None => None,
            },
        ),
        Expr::BlockLike(k, stmts) => ExprModel::BlockLike(
            k,
            match stmts {
                StmtList::One(s) => StmtListModel::One(Box::new(stmt_model(*s))),
                StmtList::Other => StmtListModel::Other,
            },
        ),
        Expr::Tuple(inner) => ExprModel::Tuple(
            match inner {
                TupleInner::One(i) => TupleInnerModel::One(Box::new(expr_model(*i))),
                TupleInner::Other => TupleInnerModel::Other,
            },
        ),
        Expr::Leaf => ExprModel::Leaf,
    }
}

/// The model of a statement.
pub open spec fn stmt_model(s: Stmt) -> StmtModel
    decreases s,
{
    match s {
        Stmt::LocalInit(e) => StmtModel::LocalInit(expr_model(e)),
        Stmt::LocalBare => StmtModel::LocalBare,
        Stmt::Item => StmtModel::Item,
        Stmt::Expr(e) => StmtModel::Expr(expr_model(e)),
        Stmt::Semi(e) => StmtModel::Semi(expr_model(e)),
    }
}

/// The unambiguous call inside an expression, if there is exactly one
/// place it can be: a call itself; through a wrapper; on exactly one side
/// of a two-operand shape; under an optional value; inside the single
/// statement of a block; inside a one-element tuple.
pub open spec fn spec_find_call(e: ExprModel) -> Option<CallModel>
    decreases e,
{
    match e {
        ExprModel::Call(c) => Some(c),
        ExprModel::Rewritten(_) => None,
        ExprModel::Wrap(_, inner) => spec_find_call(*inner),
        ExprModel::Pair(_, l, r) => {
            match (spec_find_call(*l), spec_find_call(*r)) {
                (Some(c), None) => Some(c),
                (None, Some(c)) => Some(c),
                _ => None,
            }
        }
        ExprModel::Opt(_, inner) => match inner {
            Some(i) => spec_find_call(*i),
            None => None,
        },
        ExprModel::BlockLike(_, stmts) => match stmts {
            StmtListModel::One(s) => spec_find_call_stmt(*s),
            StmtListModel::Other => None,
        },
        ExprModel::Tuple(inner) => match inner {
            TupleInnerModel::One(i) => spec_find_call(*i),
            TupleInnerModel::Other => None,
        },
        ExprModel::Leaf => None,
    }
}

/// The unambiguous call inside one statement: a binding's initializer or
/// the statement's expression is searched; items and bare bindings hold no
/// call.
pub open spec fn spec_find_call_stmt(s: StmtModel) -> Option<CallModel>
    decreases s,
{
    match s {
        StmtModel::LocalInit(e2) => spec_find_call(e2),
        StmtModel::Expr(e2) => spec_find_call(e2),
        StmtModel::Semi(e2) => spec_find_call(e2),
        _ => None,
    }
}

/// The statement with its unambiguous call replaced; meaningful where
/// `spec_find_call_stmt` finds one.
pub open spec fn spec_substitute_stmt(s: StmtModel, r: RewrittenCallModel) -> StmtModel
    decreases s,
{
    match s {
        StmtModel::LocalInit(e2) => StmtModel::LocalInit(spec_substitute(e2, r)),
        StmtModel::Expr(e2) => StmtModel::Expr(spec_substitute(e2, r)),
        StmtModel::Semi(e2) => StmtModel::Semi(spec_substitute(e2, r)),
        other => other,
    }
}

/// The expression with its unambiguous call replaced by a rewritten call
/// site; meaningful where `spec_find_call` finds one.
pub open spec fn spec_substitute(e: ExprModel, r: RewrittenCallModel) -> ExprModel
    decreases e,
{
    match e {
        ExprModel::Call(_) => ExprModel::Rewritten(Box::new(r)),
        ExprModel::Wrap(k, inner) => ExprModel::Wrap(k, Box::new(spec_substitute(*inner, r))),
        ExprModel::Pair(k, l, rr) => {
            if spec_find_call(*l) is Some {
                ExprModel::Pair(k, Box::new(spec_substitute(*l, r)), rr)
            } else {
                ExprModel::Pair(k, l, Box::new(spec_substitute(*rr, r)))
            }
        }
        ExprModel::Opt(k, inner) => match inner {
            Some(i) => ExprModel::Opt(k, Some(Box::new(spec_substitute(*i, r)))),
            None => e,
        },
        ExprModel::BlockLike(k, stmts) => match stmts {
            StmtListModel::One(s) => ExprModel::BlockLike(
                k,
                StmtListModel::One(Box::new(spec_substitute_stmt(*s, r))),
            ),
            StmtListModel::Other => e,
        },
        ExprModel::Tuple(inner) => match inner {
            TupleInnerModel::One(i) => ExprModel::Tuple(
                TupleInnerModel::One(Box::new(spec_substitute(*i, r))),
            ),
            TupleInnerModel::Other => e,
        },
        _ => e,
    }
}

/// Extracts the unambiguous call of a statement, as `spec_find_call_stmt`
/// describes.
fn extract_call_stmt(s: &Stmt) -> (r: Option<Call>)
    ensures
        match r {
            Some(c) => spec_find_call_stmt(stmt_model(*s)) == Some(c@),
            None => spec_find_call_stmt(stmt_model(*s)) is None,
        },
    decreases *s,
{
    match s {
        Stmt::LocalInit(e2) => extract_call_expr(e2),
        Stmt::Expr(e2) => extract_call_expr(e2),
        Stmt::Semi(e2) => extract_call_expr(e2),
        _ => None,
    }
}

/// Replaces the unambiguous call of a statement, as `spec_substitute_stmt`
/// describes.
fn substitute_call_stmt(s: Stmt, replacement: RewrittenCall) -> (r: Stmt)
    requires
        spec_find_call_stmt(stmt_model(s)) is Some,
    ensures
        stmt_model(r) == spec_substitute_stmt(stmt_model(s), replacement@),
    decreases s,
{
    match s {
        Stmt::LocalInit(e2) => Stmt::LocalInit(substitute_call(e2, replacement)),
        Stmt::Expr(e2) => Stmt::Expr(substitute_call(e2, replacement)),
        Stmt::Semi(e2) => Stmt::Semi(substitute_call(e2, replacement)),
        other => {
            proof {
                assert(false);
            }
            other
        }
    }
}

/// Extracts the unambiguous call of an expression, as `spec_find_call`
/// describes.
pub fn extract_call_expr(e: &Expr) -> (r: Option<Call>)
    ensures
        match r {
            Some(c) => spec_find_call(expr_model(*e)) == Some(c@),
            None => spec_find_call(expr_model(*e)) is None,
        },
    decreases *e,
{
    match e {
        Expr::Call(c) => {
            proof {
                assert(expr_model(*e) == ExprModel::Call(c@));
            }
            Some(c.duplicate())
        }
        Expr::Rewritten(_) => None,
        Expr::Wrap(_, inner) => {
            let r = extract_call_expr(&*inner);
            proof {
                assert(spec_find_call(expr_model(*e)) == spec_find_call(expr_model(**inner)));
            }
            r
        }
        Expr::Pair(_, l, r) => {
            let left = extract_call_expr(&*l);
            let right = extract_call_expr(&*r);
            proof {
                assert(spec_find_call(expr_model(*e)) == (match (
                    spec_find_call(expr_model(**l)),
                    spec_find_call(expr_model(**r)),
                ) {
                    (Some(c), None) => Some(c),
                    (None, Some(c)) => Some(c),
                    _ => None,
                }));
            }
            match (left, right) {
                (Some(c), None) => Some(c),
                (None, Some(c)) => Some(c),
                _ => None,
            }
        }
        Expr::Opt(_, inner) => match inner {
            Some(i) => {
                let r = extract_call_expr(&*i);
                proof {
                    assert(spec_find_call(expr_model(*e)) == spec_find_call(expr_model(**i)));
                }
                r
            }
            None => None,
        },
        Expr::BlockLike(_, stmts) => match stmts {
            StmtList::One(s) => extract_call_stmt(&*s),
            StmtList::Other => None,
        },
        Expr::Tuple(inner) => match inner {
            TupleInner::One(i) => {
                let r = extract_call_expr(&*i);
                proof {
                    assert(spec_find_call(expr_model(*e)) == spec_find_call(expr_model(**i)));
                }
                r
            }
            TupleInner::Other => None,
        },
        Expr::Leaf => None,
    }
}

/// Replaces the unambiguous call of an expression by a rewritten call
/// site, as `spec_substitute` describes.
#[verifier::rlimit(100)]
fn substitute_call(e: Expr, replacement: RewrittenCall) -> (r: Expr)
    requires
        spec_find_call(expr_model(e)) is Some,
    ensures
        expr_model(r) == spec_substitute(expr_model(e), replacement@),
    decreases e,
{
    match e {
        Expr::Call(_) => Expr::Rewritten(Box::new(replacement)),
        Expr::Wrap(k, inner) => Expr::Wrap(k, Box::new(substitute_call(*inner, replacement))),
        Expr::Pair(k, l, r) => {
            let left_has = extract_call_expr(&l);
            match left_has {
                Some(_) => Expr::Pair(k, Box::new(substitute_call(*l, replacement)), r),
                None => Expr::Pair(k, l, Box::new(substitute_call(*r, replacement))),
            }
        }
        Expr::Opt(k, inner) => match inner {
            Some(i) => Expr::Opt(k, Some(Box::new(substitute_call(*i, replacement)))),
            None => {
                proof {
                    assert(false);
                }
                Expr::Opt(k, None)
            }
        },
        Expr::BlockLike(k, stmts) => match stmts {
            StmtList::One(s) => {
                let new_stmt = substitute_call_stmt(*s, replacement);
                Expr::BlockLike(k, StmtList::One(Box::new(new_stmt)))
            }
            StmtList::Other => {
                proof {
                    assert(false);
                }
                Expr::BlockLike(k, StmtList::Other)
            }
        },
        Expr::Tuple(inner) => match inner {
            TupleInner::One(i) => Expr::Tuple(
                TupleInner::One(Box::new(substitute_call(*i, replacement))),
            ),
            TupleInner::Other => {
                proof {
                    assert(false);
                }
                Expr::Tuple(TupleInner::Other)
            }
        },
        other => {
            proof {
                assert(false);
            }
            other
        }
    }
}

/// Rewrites the unambiguous call inside an expression using the call's
/// annotations. Where no unambiguous call is found, the expression is left
/// unmodified and one warning is reported.
pub fn render_expr(e: Expr, annotations: CallAnnotations) -> (r: (Expr, Vec<Diagnostic>))
    ensures
        ({
            let fwd = match annotations.forward {
                Some(t) => Some(t@),
                None => None,
            };
            let amodel = annotations.assurances@.map_values(
                |a: crate::rewrite::Assurance| a@,
            );
            match spec_find_call(expr_model(e)) {
                Some(c) => {
                    let (rewritten, diags) = spec_render_call(fwd, amodel, c);
                    &&& expr_model(r.0) == spec_substitute(expr_model(e), rewritten)
                    &&& r.1@ == diags
                }
                None => {
                    &&& expr_model(r.0) == expr_model(e)
                    &&& r.1@ == seq![Diagnostic::NoUnambiguousCall]
                }
            }
        }),
{
    match extract_call_expr(&e) {
        Some(call) => {
            let (rewritten, diags) = crate::rewrite::render_call(annotations, call);
            let new_expr = substitute_call(e, rewritten);
            (new_expr, diags)
        }
        None => {
            let mut diags: Vec<Diagnostic> = Vec::new();
            diags.push(Diagnostic::NoUnambiguousCall);
            proof {
                assert(diags@ =~= seq![Diagnostic::NoUnambiguousCall]);
            }
            (e, diags)
        }
    }
}

} // verus!
