//! The call-site rewriter: forwarding resolution, justification checking,
//! and the rewritten call shapes.

use pre::annot::parse_forward;
use pre::call::{Call, CallArg, Callee, Path};
use pre::diag::{Diagnostic, Severity};
use pre::forward::{check_prefix, construct_new_path, create_stub_call, impl_block_stub_name};
use pre::parse::parse_precondition;
use pre::precondition::CfgPrecondition;
use pre::rewrite::{check_reasons, hint_reason, render_call, Assurance, CallAnnotations, RewrittenCall};

fn path(segments: &[&str]) -> Path {
    Path {
        leading_colon: false,
        segments: segments.iter().map(|s| s.to_string()).collect(),
    }
}

fn assurance(text: &str, reason: Option<&str>) -> Assurance {
    Assurance {
        precondition: CfgPrecondition {
            precondition: parse_precondition(text).expect("parsing should work"),
            cfg: None,
        },
        reason: reason.map(|r| r.to_string()),
    }
}

#[test]
fn replace_rewrites_a_matching_prefix() {
    // forward(mod_a -> mod_b) on a call whose path starts with mod_a.
    let target = parse_forward("mod_a -> mod_b").expect("parsing should work");
    let (new_path, diags) = construct_new_path(&target, &path(&["mod_a", "x"]));
    assert_eq!(new_path.segments, vec!["mod_b".to_string(), "x".to_string()]);
    assert!(diags.is_empty());
}

#[test]
fn replace_reports_the_first_differing_segment() {
    let from = path(&["mod_a", "inner"]);
    let actual = path(&["mod_a", "other", "x"]);
    assert_eq!(
        check_prefix(&from, &actual),
        Some(Diagnostic::PrefixMismatch { segment: 1 })
    );

    let too_long = path(&["a", "b", "c"]);
    let short = path(&["a", "b"]);
    assert_eq!(check_prefix(&too_long, &short), Some(Diagnostic::PrefixTooLong));

    assert_eq!(check_prefix(&path(&["a"]), &path(&["a", "b"])), None);
}

#[test]
fn direct_target_prepends_its_path() {
    let target = parse_forward("pre_std::ptr").expect("parsing should work");
    let (new_path, diags) = construct_new_path(&target, &path(&["read"]));
    assert_eq!(
        new_path.segments,
        vec!["pre_std".to_string(), "ptr".to_string(), "read".to_string()]
    );
    assert!(diags.is_empty());
}

#[test]
fn stub_names_combine_type_and_function() {
    assert_eq!(
        impl_block_stub_name("SomeType", "method"),
        "SomeType__impl__method__"
    );
    assert_eq!(
        impl_block_stub_name("NonNull", "new_unchecked"),
        "NonNull__impl__new_unchecked__"
    );
}

#[test]
fn impl_forward_checks_through_a_dead_stub_branch() {
    // forward(impl some_mod::SomeType) on some_mod::SomeType::method():
    // the original call stays in the live branch, untouched; only the
    // never-executed branch invokes the generated stub, which alone
    // carries the contract check.
    let target = parse_forward("impl some_mod::SomeType").expect("parsing should work");
    let call = Call::Function {
        callee: Callee::Named(path(&["some_mod", "SomeType", "method"])),
        args: Vec::new(),
    };
    let annotations = CallAnnotations {
        forward: Some(target),
        assurances: vec![assurance("\"is bar\"", Some("checked"))],
    };
    let (rewritten, diags) = render_call(annotations, call);
    assert!(diags.is_empty());
    match rewritten {
        RewrittenCall::StubChecked { original, stub } => {
            match original {
                Call::Function { callee: Callee::Named(p), args } => {
                    assert_eq!(
                        p.segments,
                        vec![
                            "some_mod".to_string(),
                            "SomeType".to_string(),
                            "method".to_string()
                        ]
                    );
                    assert!(args.is_empty(), "the live call must stay untouched");
                }
                other => panic!("expected the original function call, got {:?}", other),
            }
            match stub {
                Call::Function { callee: Callee::Named(p), args } => {
                    assert_eq!(
                        p.segments,
                        vec![
                            "some_mod".to_string(),
                            "SomeType__impl__method__".to_string()
                        ]
                    );
                    assert_eq!(args.len(), 1, "the stub call carries only the hidden argument");
                    assert!(matches!(args[0], CallArg::Hidden(_)));
                }
                other => panic!("expected the stub call, got {:?}", other),
            }
        }
        other => panic!("expected a stub-checked rewrite, got {:?}", other),
    }
}

#[test]
fn plain_rewrite_appends_the_hidden_argument() {
    let call = Call::Function {
        callee: Callee::Named(path(&["foo"])),
        args: vec![CallArg::Given("42".to_string())],
    };
    let annotations = CallAnnotations {
        forward: None,
        assurances: vec![assurance("\"is bar\"", Some("checked"))],
    };
    let (rewritten, diags) = render_call(annotations, call);
    assert!(diags.is_empty());
    match rewritten {
        RewrittenCall::Plain { call: Call::Function { args, .. } } => {
            assert_eq!(args.len(), 2);
            assert!(matches!(args[0], CallArg::Given(_)));
            assert!(matches!(args[1], CallArg::Hidden(_)));
        }
        other => panic!("expected a plain rewrite, got {:?}", other),
    }
}

#[test]
fn replace_on_a_method_call_is_a_hard_error() {
    let target = parse_forward("mod_a -> mod_b").expect("parsing should work");
    let call = Call::Method { method: "read".to_string(), args: Vec::new() };
    let annotations = CallAnnotations {
        forward: Some(target),
        assurances: vec![assurance("\"is bar\"", Some("checked"))],
    };
    let (rewritten, diags) = render_call(annotations, call);
    assert_eq!(diags, vec![Diagnostic::ReplaceOnMethodCall]);
    assert_eq!(diags[0].severity(), Severity::Error);
    assert!(matches!(rewritten, RewrittenCall::Unchanged { .. }));
}

#[test]
fn unresolved_callee_is_a_hard_error() {
    let target = parse_forward("mod_b").expect("parsing should work");
    let call = Call::Function { callee: Callee::Unresolved, args: Vec::new() };
    let annotations = CallAnnotations { forward: Some(target), assurances: Vec::new() };
    let (rewritten, diags) = render_call(annotations, call);
    assert_eq!(diags, vec![Diagnostic::AmbiguousCallee]);
    assert!(matches!(rewritten, RewrittenCall::Unchanged { .. }));
}

#[test]
fn empty_target_path_is_reported() {
    let empty = Path { leading_colon: false, segments: Vec::new() };
    assert_eq!(
        create_stub_call(&empty, "method").err(),
        Some(Diagnostic::EmptyPath)
    );
}

#[test]
fn placeholder_reasons_warn_and_missing_reasons_fail() {
    // The designated placeholder text and the staged-migration spellings
    // produce warnings; an empty or missing justification is a hard error.
    let warnings = check_reasons(&vec![
        assurance("\"a\"", Some(hint_reason())),
        assurance("\"b\"", Some("todo")),
        assurance("\"c\"", Some("TODO")),
        assurance("\"d\"", Some("?")),
    ]);
    assert_eq!(
        warnings,
        vec![
            Diagnostic::PlaceholderReason { index: 0 },
            Diagnostic::PlaceholderReason { index: 1 },
            Diagnostic::PlaceholderReason { index: 2 },
            Diagnostic::PlaceholderReason { index: 3 },
        ]
    );
    for w in &warnings {
        assert_eq!(w.severity(), Severity::Warning);
    }

    let errors = check_reasons(&vec![
        assurance("\"a\"", Some("")),
        assurance("\"b\"", None),
    ]);
    assert_eq!(
        errors,
        vec![
            Diagnostic::EmptyReason { index: 0 },
            Diagnostic::MissingReason { index: 1 },
        ]
    );
    for e in &errors {
        assert_eq!(e.severity(), Severity::Error);
    }

    let fine = check_reasons(&vec![assurance("\"a\"", Some("checked"))]);
    assert!(fine.is_empty());
}
