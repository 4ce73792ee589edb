//! The declaration rewriter and the attribute carriers: encoder modes,
//! nominal field names, documentation lists, runtime self-checks, the
//! `cfg_attr` flattening, and the annotation scans.

use pre::attrs::{
    collect_declaration_input, flatten_cfgs, remove_call_attributes, scan_pre_attrs, RawAttr,
};
use pre::declaration::{
    doc_preconditions, render_as_ident, render_pre, EncoderMode, HiddenParamRepr, RewrittenDecl,
};
use pre::diag::Diagnostic;
use pre::parse::parse_precondition;
use pre::precondition::{CfgPrecondition, Precondition};

fn preconditions(texts: &[&str]) -> Vec<CfgPrecondition> {
    texts
        .iter()
        .map(|t| CfgPrecondition {
            precondition: parse_precondition(t).expect("parsing should work"),
            cfg: None,
        })
        .collect()
}

fn attr(segments: &[&str], tokens: &str) -> RawAttr {
    RawAttr {
        segments: segments.iter().map(|s| s.to_string()).collect(),
        tokens: tokens.to_string(),
    }
}

#[test]
fn basic_cfg_flattening() {
    let input = vec![
        attr(
            &["cfg_attr"],
            "(all(target_endian = \"little\", target_endian = \"big\"), attr1, attr2, attr3)",
        ),
        attr(
            &["cfg_attr"],
            "(all(target_endian = \"big\", target_endian = \"little\"), attr4, attr5, attr6)",
        ),
    ];

    let flattened = flatten_cfgs(&input);

    let expected = vec![
        attr(&["cfg_attr"], "(all(target_endian = \"little\", target_endian = \"big\"), attr1)"),
        attr(&["cfg_attr"], "(all(target_endian = \"little\", target_endian = \"big\"), attr2)"),
        attr(&["cfg_attr"], "(all(target_endian = \"little\", target_endian = \"big\"), attr3)"),
        attr(&["cfg_attr"], "(all(target_endian = \"big\", target_endian = \"little\"), attr4)"),
        attr(&["cfg_attr"], "(all(target_endian = \"big\", target_endian = \"little\"), attr5)"),
        attr(&["cfg_attr"], "(all(target_endian = \"big\", target_endian = \"little\"), attr6)"),
    ];

    assert_eq!(flattened.len(), expected.len());
    for (got, want) in flattened.iter().zip(expected.iter()) {
        assert_eq!(got.segments, want.segments);
        assert_eq!(got.tokens, want.tokens);
    }
}

#[test]
fn nominal_field_names_escape_the_content() {
    // The escaped spelling from the engine's own documentation example.
    let boolean = parse_precondition("some_val > 42.5").expect("parsing should work");
    assert_eq!(render_as_ident(&boolean), "_boolean_some__val_20_3e_2042_2e5");

    let ptr = parse_precondition("valid_ptr(src, r+w)").expect("parsing should work");
    assert_eq!(render_as_ident(&ptr), "_valid_ptr_src_rw");

    let align = parse_precondition("proper_align(dst)").expect("parsing should work");
    assert_eq!(render_as_ident(&align), "_proper_align_dst");

    let custom = parse_precondition("\"is bar\"").expect("parsing should work");
    assert_eq!(render_as_ident(&custom), "_custom_is_20bar");
}

#[test]
fn marker_mode_appends_the_aggregate_parameter() {
    let (decl, diags) = render_pre(
        EncoderMode::Markers,
        "has_preconditions",
        false,
        false,
        false,
        preconditions(&["\"is bar\"", "valid_ptr(src, r)"]),
    );
    assert!(diags.is_empty());
    match decl {
        RewrittenDecl::Contracted { hidden, combined_cfg, doc_list, debug_asserts } => {
            match hidden {
                HiddenParamRepr::Markers(h) => assert_eq!(h.markers.len(), 2),
                other => panic!("expected marker encoding, got {:?}", other),
            }
            assert!(combined_cfg.is_none());
            assert_eq!(doc_list.expect("docs are on by default").len(), 2);
            assert!(debug_asserts.is_empty());
        }
        other => panic!("expected a contracted declaration, got {:?}", other),
    }
}

#[test]
fn record_mode_builds_the_named_record() {
    let (decl, diags) = render_pre(
        EncoderMode::Record,
        "has_preconditions",
        false,
        false,
        false,
        preconditions(&["\"is baz\"", "\"is bar\""]),
    );
    assert!(diags.is_empty());
    match decl {
        RewrittenDecl::Contracted { hidden, .. } => match hidden {
            HiddenParamRepr::Record(t) => {
                assert_eq!(t.name, "has_preconditions");
                assert_eq!(
                    t.fields,
                    vec!["_custom_is_20bar".to_string(), "_custom_is_20baz".to_string()]
                );
            }
            other => panic!("expected the record encoding, got {:?}", other),
        },
        other => panic!("expected a contracted declaration, got {:?}", other),
    }
}

#[test]
fn record_fields_are_order_independent() {
    let first = render_pre(
        EncoderMode::Record,
        "f",
        false,
        false,
        false,
        preconditions(&["\"is bar\"", "valid_ptr(src, r)", "count > 0"]),
    );
    let second = render_pre(
        EncoderMode::Record,
        "f",
        false,
        false,
        false,
        preconditions(&["count > 0", "\"is bar\"", "valid_ptr(src, r)"]),
    );
    match (first.0, second.0) {
        (
            RewrittenDecl::Contracted { hidden: HiddenParamRepr::Record(a), .. },
            RewrittenDecl::Contracted { hidden: HiddenParamRepr::Record(b), .. },
        ) => {
            assert_eq!(a.fields, b.fields);
        }
        other => panic!("expected two record encodings, got {:?}", other),
    }
}

#[test]
fn record_mode_rejects_methods() {
    let (decl, diags) = render_pre(
        EncoderMode::Record,
        "method",
        true,
        false,
        false,
        preconditions(&["\"is bar\""]),
    );
    assert!(matches!(decl, RewrittenDecl::Unchanged));
    assert_eq!(diags, vec![Diagnostic::MethodNotSupported]);
}

#[test]
fn no_preconditions_leave_the_declaration_alone() {
    let (decl, diags) = render_pre(EncoderMode::Markers, "f", false, false, false, Vec::new());
    assert!(matches!(decl, RewrittenDecl::Unchanged));
    assert!(diags.is_empty());
}

#[test]
fn debug_asserts_come_innermost_first() {
    let (decl, _) = render_pre(
        EncoderMode::Markers,
        "f",
        false,
        false,
        false,
        preconditions(&["a > 0", "\"note\"", "b > 0"]),
    );
    match decl {
        RewrittenDecl::Contracted { debug_asserts, .. } => {
            assert_eq!(debug_asserts, vec!["b > 0".to_string(), "a > 0".to_string()]);
        }
        other => panic!("expected a contracted declaration, got {:?}", other),
    }
}

#[test]
fn bare_identifier_booleans_look_like_keywords() {
    let (_, diags) = render_pre(
        EncoderMode::Markers,
        "f",
        false,
        false,
        false,
        preconditions(&["no_documentation"]),
    );
    assert_eq!(diags, vec![Diagnostic::UnknownKeyword]);
}

#[test]
fn documentation_list_is_sorted_and_deduplicated() {
    let docs = doc_preconditions(&preconditions(&[
        "\"is bar\"",
        "valid_ptr(src, r)",
        "\"is bar\"",
    ]));
    let rendered: Vec<String> = docs.iter().map(|p| p.display_string()).collect();
    assert_eq!(
        rendered,
        vec!["valid_ptr(src, r)".to_string(), "\"is bar\"".to_string()]
    );
}

#[test]
fn mismatched_cfg_predicates_are_reported() {
    let mut ps = preconditions(&["\"is bar\"", "\"is baz\""]);
    ps[0].cfg = Some("unix".to_string());
    let (decl, diags) = render_pre(EncoderMode::Record, "f", false, false, false, ps);
    assert_eq!(diags, vec![Diagnostic::MismatchedCfg { index: 1 }]);
    match decl {
        RewrittenDecl::Contracted { combined_cfg, .. } => {
            assert_eq!(combined_cfg.as_deref(), Some("unix"));
        }
        other => panic!("expected a contracted declaration, got {:?}", other),
    }
}

#[test]
fn call_attributes_are_removed_and_collected() {
    let attrs = vec![
        attr(&["allow"], "(dead_code)"),
        attr(&["assure"], "(\"is bar\", reason = \"checked\")"),
        attr(&["forward"], "(mod_a -> mod_b)"),
    ];
    let (annotations, kept, diags) = remove_call_attributes(attrs, "pre");
    assert!(diags.is_empty());
    let annotations = annotations.expect("call annotations were present");
    assert_eq!(annotations.assurances.len(), 1);
    assert!(annotations.forward.is_some());
    assert_eq!(kept.len(), 1);
    assert_eq!(kept[0].segments, vec!["allow".to_string()]);
}

#[test]
fn duplicate_forwards_are_reported() {
    let attrs = vec![
        attr(&["forward"], "(mod_a)"),
        attr(&["forward"], "(mod_b)"),
    ];
    let (annotations, _, diags) = remove_call_attributes(attrs, "pre");
    assert_eq!(diags, vec![Diagnostic::DuplicateForward { index: 1 }]);
    // The later target wins.
    match annotations.expect("a target was present").forward {
        Some(pre::forward::ForwardTarget::Direct { path }) => {
            assert_eq!(path.segments, vec!["mod_b".to_string()]);
        }
        other => panic!("expected the later direct target, got {:?}", other),
    }
}

#[test]
fn malformed_carriers_are_reported_and_kept() {
    let attrs = vec![attr(&["assure"], "(17 - + -- + [])")];
    let (annotations, kept, diags) = remove_call_attributes(attrs, "pre");
    assert!(annotations.is_none());
    assert_eq!(kept.len(), 1);
    assert_eq!(diags, vec![Diagnostic::MalformedAnnotation { index: 0 }]);
}

#[test]
fn cfg_attr_carriers_attach_their_predicate() {
    let attrs = vec![attr(
        &["cfg_attr"],
        "(unix, assure(\"is bar\", reason = \"checked\"))",
    )];
    let (annotations, kept, diags) = remove_call_attributes(attrs, "pre");
    assert!(diags.is_empty());
    assert!(kept.is_empty());
    let annotations = annotations.expect("call annotations were present");
    assert_eq!(annotations.assurances.len(), 1);
    assert_eq!(annotations.assurances[0].precondition.cfg.as_deref(), Some("unix"));
}

#[test]
fn whole_declaration_pass_from_attributes() {
    let attrs = vec![
        attr(&["pre"], "(\"is bar\")"),
        attr(&["inline"], "(always)"),
        attr(&["pre"], "(valid_ptr(src, r))"),
    ];
    let (decl, kept, diags) =
        pre::declaration::process_declaration(EncoderMode::Markers, "read", false, attrs, "pre");
    assert!(diags.is_empty());
    assert_eq!(kept.len(), 1);
    assert_eq!(kept[0].segments, vec!["inline".to_string()]);
    match decl {
        RewrittenDecl::Contracted { hidden: HiddenParamRepr::Markers(h), .. } => {
            assert_eq!(h.markers.len(), 2);
        }
        other => panic!("expected the marker encoding, got {:?}", other),
    }
}

#[test]
fn pre_attributes_yield_flags_and_preconditions() {
    let attrs = vec![
        attr(&["pre"], "(no_doc)"),
        attr(&["pre"], "(\"is bar\")"),
        attr(&["pre"], "()"),
        attr(&["doc"], "(hidden)"),
        attr(&["pre", "pre"], "(valid_ptr(src, r))"),
    ];
    let (collected, kept, diags) = scan_pre_attrs(&attrs, "pre");
    assert!(diags.is_empty());
    assert_eq!(kept.len(), 1);
    assert_eq!(collected.len(), 4);
    let (no_doc, no_debug_assert, ps) = collect_declaration_input(collected);
    assert!(no_doc);
    assert!(!no_debug_assert);
    assert_eq!(ps.len(), 2);
    assert!(matches!(ps[0].precondition, Precondition::Custom { .. }));
    assert!(matches!(ps[1].precondition, Precondition::ValidPtr { .. }));
}
