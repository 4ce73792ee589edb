//! The external-mirror generator and the call extraction from nested
//! expressions.

use pre::attrs::RawAttr;
use pre::call::{Call, CallArg, Callee, Path};
use pre::diag::Diagnostic;
use pre::expr::{render_expr, BlockKind, Expr, Stmt, StmtList, TupleInner, WrapKind};
use pre::mirror::{
    impl_ty, render_mirror, MirrorFn, MirrorImplBlock, MirrorModule, SelfTy, TypeArgsKind,
};
use pre::rewrite::{CallAnnotations, RewrittenCall};

fn path(segments: &[&str]) -> Path {
    Path {
        leading_colon: false,
        segments: segments.iter().map(|s| s.to_string()).collect(),
    }
}

fn mirror_fn(name: &str, args: &[&str]) -> MirrorFn {
    MirrorFn {
        name: name.to_string(),
        signature: format!("unsafe fn {}()", name),
        attrs: vec![RawAttr {
            segments: vec!["pre".to_string()],
            tokens: "(valid_ptr(src, r))".to_string(),
        }],
        args: args.iter().map(|s| s.to_string()).collect(),
    }
}

#[test]
fn mirror_renders_wrappers_and_stubs() {
    // The skeleton from the engine's own documentation: a `ptr` module
    // with a `read` signature and a `NonNull` impl block.
    let skeleton = MirrorModule {
        name: "pre_std".to_string(),
        is_public: false,
        functions: Vec::new(),
        impl_blocks: Vec::new(),
        modules: vec![MirrorModule {
            name: "ptr".to_string(),
            is_public: false,
            functions: vec![mirror_fn("read", &["src"])],
            impl_blocks: vec![MirrorImplBlock {
                self_ty: SelfTy::TypePath {
                    qualified: false,
                    segments: vec!["NonNull".to_string()],
                    arguments: TypeArgsKind::AngleBracketed,
                },
                functions: vec![mirror_fn("new_unchecked", &["ptr"])],
            }],
            modules: Vec::new(),
        }],
    };
    let (rendered, diags) = render_mirror(&skeleton, &path(&["std"]));
    assert!(diags.is_empty());
    assert_eq!(rendered.name, "pre_std");
    assert!(!rendered.is_public);
    assert_eq!(rendered.reexport.segments, vec!["std".to_string()]);
    assert_eq!(rendered.modules.len(), 1);

    let ptr = &rendered.modules[0];
    assert_eq!(ptr.name, "ptr");
    assert_eq!(ptr.reexport.segments, vec!["std".to_string(), "ptr".to_string()]);
    assert_eq!(ptr.wrappers.len(), 1);
    assert_eq!(ptr.wrappers[0].name, "read");
    assert_eq!(
        ptr.wrappers[0].target.segments,
        vec!["std".to_string(), "ptr".to_string(), "read".to_string()]
    );
    assert_eq!(ptr.wrappers[0].forwarded_args, vec!["src".to_string()]);
    assert_eq!(ptr.stubs.len(), 1);
    assert_eq!(ptr.stubs[0].name, "NonNull__impl__new_unchecked__");
}

#[test]
fn mirror_normalizes_visibility() {
    let skeleton = MirrorModule {
        name: "pre_core".to_string(),
        is_public: true,
        functions: Vec::new(),
        impl_blocks: Vec::new(),
        modules: vec![MirrorModule {
            name: "mem".to_string(),
            is_public: false,
            functions: Vec::new(),
            impl_blocks: Vec::new(),
            modules: Vec::new(),
        }],
    };
    let (rendered, _) = render_mirror(&skeleton, &path(&["core"]));
    assert!(rendered.is_public);
    // The nested module is as visible as the mirror itself, regardless of
    // what the skeleton wrote.
    assert!(rendered.modules[0].is_public);
}

#[test]
fn impl_types_are_validated() {
    assert_eq!(
        impl_ty(&SelfTy::TypePath {
            qualified: false,
            segments: vec!["NonNull".to_string()],
            arguments: TypeArgsKind::NoArguments,
        }),
        Ok("NonNull".to_string())
    );
    assert_eq!(
        impl_ty(&SelfTy::TypePath {
            qualified: false,
            segments: vec!["a".to_string(), "B".to_string()],
            arguments: TypeArgsKind::NoArguments,
        }),
        Err(Diagnostic::ImplPathTooLong)
    );
    assert_eq!(
        impl_ty(&SelfTy::TypePath {
            qualified: true,
            segments: vec!["B".to_string()],
            arguments: TypeArgsKind::NoArguments,
        }),
        Err(Diagnostic::ImplQualifiedPath)
    );
    assert_eq!(
        impl_ty(&SelfTy::TypePath {
            qualified: false,
            segments: vec!["F".to_string()],
            arguments: TypeArgsKind::Parenthesized,
        }),
        Err(Diagnostic::ImplParenthesizedArguments)
    );
    assert_eq!(impl_ty(&SelfTy::Other), Err(Diagnostic::ImplNotAPath));
}

fn simple_call() -> Expr {
    Expr::Call(Call::Function {
        callee: Callee::Named(path(&["read"])),
        args: vec![CallArg::Given("&42".to_string())],
    })
}

fn no_annotations() -> CallAnnotations {
    CallAnnotations { forward: None, assurances: Vec::new() }
}

#[test]
fn calls_are_found_through_wrappers_and_blocks() {
    // unsafe { &(read(&42))? } style nesting: the single call is found and
    // rewritten in place.
    let nested = Expr::BlockLike(
        BlockKind::Unsafe,
        StmtList::One(Box::new(Stmt::Semi(Expr::Wrap(
            WrapKind::Reference,
            Box::new(Expr::Wrap(WrapKind::Try, Box::new(simple_call()))),
        )))),
    );
    let (rewritten, diags) = render_expr(nested, no_annotations());
    assert!(diags.is_empty());
    match rewritten {
        Expr::BlockLike(BlockKind::Unsafe, StmtList::One(stmt)) => match *stmt {
            Stmt::Semi(Expr::Wrap(WrapKind::Reference, inner)) => match *inner {
                Expr::Wrap(WrapKind::Try, innermost) => {
                    assert!(matches!(*innermost, Expr::Rewritten(_)));
                }
                other => panic!("expected the try wrapper, got {:?}", other),
            },
            other => panic!("expected the reference wrapper, got {:?}", other),
        },
        other => panic!("expected the unsafe block, got {:?}", other),
    }
}

#[test]
fn one_sided_operators_are_unambiguous() {
    let sum = Expr::Pair(
        pre::expr::PairKind::Binary,
        Box::new(Expr::Leaf),
        Box::new(simple_call()),
    );
    let (rewritten, diags) = render_expr(sum, no_annotations());
    assert!(diags.is_empty());
    match rewritten {
        Expr::Pair(_, left, right) => {
            assert!(matches!(*left, Expr::Leaf));
            assert!(matches!(*right, Expr::Rewritten(_)));
        }
        other => panic!("expected the operator pair, got {:?}", other),
    }
}

#[test]
fn ambiguous_or_missing_calls_warn_and_leave_the_expression() {
    // Calls on both operator sides are ambiguous.
    let both = Expr::Pair(
        pre::expr::PairKind::Binary,
        Box::new(simple_call()),
        Box::new(simple_call()),
    );
    let (rewritten, diags) = render_expr(both, no_annotations());
    assert_eq!(diags, vec![Diagnostic::NoUnambiguousCall]);
    assert!(matches!(rewritten, Expr::Pair(..)));

    // A block with two statements is never searched.
    let (rewritten, diags) = render_expr(
        Expr::BlockLike(BlockKind::Block, StmtList::Other),
        no_annotations(),
    );
    assert_eq!(diags, vec![Diagnostic::NoUnambiguousCall]);
    assert!(matches!(rewritten, Expr::BlockLike(..)));

    // A one-element tuple is searched; a larger one is not.
    let one = Expr::Tuple(TupleInner::One(Box::new(simple_call())));
    let (rewritten, diags) = render_expr(one, no_annotations());
    assert!(diags.is_empty());
    assert!(matches!(rewritten, Expr::Tuple(TupleInner::One(_))));

    let many = Expr::Tuple(TupleInner::Other);
    let (_, diags) = render_expr(many, no_annotations());
    assert_eq!(diags, vec![Diagnostic::NoUnambiguousCall]);
}

#[test]
fn rewriting_a_found_call_appends_the_hidden_argument() {
    let annotations = CallAnnotations {
        forward: None,
        assurances: vec![pre::rewrite::Assurance {
            precondition: pre::precondition::CfgPrecondition {
                precondition: pre::parse::parse_precondition("valid_ptr(src, r)")
                    .expect("parsing should work"),
                cfg: None,
            },
            reason: Some("a reference is a valid pointer".to_string()),
        }],
    };
    let (rewritten, diags) = render_expr(simple_call(), annotations);
    assert!(diags.is_empty());
    match rewritten {
        Expr::Rewritten(rc) => match *rc {
            RewrittenCall::Plain { call: Call::Function { args, .. } } => {
                assert_eq!(args.len(), 2);
                assert!(matches!(args[1], CallArg::Hidden(_)));
            }
            other => panic!("expected a plain rewrite, got {:?}", other),
        },
        other => panic!("expected a rewritten call site, got {:?}", other),
    }
}
