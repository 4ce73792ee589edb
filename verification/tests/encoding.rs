//! The contract encoder: canonical-order invariance, exact-match
//! acceptance, mismatch rejection, and the marker shapes.

use pre::encode::{compatible, encode_for_call, encode_for_declaration, Marker};
use pre::foo;
use pre::parse::parse_precondition;
use pre::precondition::CfgPrecondition;

fn preconditions(texts: &[&str]) -> Vec<CfgPrecondition> {
    texts
        .iter()
        .map(|t| CfgPrecondition {
            precondition: parse_precondition(t).expect("parsing should work"),
            cfg: None,
        })
        .collect()
}

#[test]
fn permutations_encode_identically() {
    let decl = encode_for_declaration(preconditions(&[
        "valid_ptr(src, r)",
        "\"is bar\"",
        "len <= capacity",
        "proper_align(src)",
    ]));
    let call = encode_for_call(preconditions(&[
        "len <= capacity",
        "proper_align(src)",
        "valid_ptr(src, r)",
        "\"is bar\"",
    ]));
    assert!(compatible(&decl, &call));
}

#[test]
fn exact_match_is_accepted() {
    let decl = encode_for_declaration(preconditions(&["\"is bar\""]));
    let call = encode_for_call(preconditions(&["\"is bar\""]));
    assert!(compatible(&decl, &call));
}

#[test]
fn subset_superset_and_changed_content_are_rejected() {
    let decl = encode_for_declaration(preconditions(&["\"is bar\"", "\"is baz\""]));

    // A strict subset.
    let subset = encode_for_call(preconditions(&["\"is bar\""]));
    assert!(!compatible(&decl, &subset));

    // A strict superset.
    let superset = encode_for_call(preconditions(&["\"is bar\"", "\"is baz\"", "\"is qux\""]));
    assert!(!compatible(&decl, &superset));

    // One clause differing in canonical content.
    let changed = encode_for_call(preconditions(&["\"is bar\"", "\"is bas\""]));
    assert!(!compatible(&decl, &changed));

    // The same set in reverse order.
    let reversed = encode_for_call(preconditions(&["\"is baz\"", "\"is bar\""]));
    assert!(compatible(&decl, &reversed));
}

#[test]
fn differing_access_modes_are_distinct_clauses() {
    let decl = encode_for_declaration(preconditions(&["valid_ptr(p, r)"]));
    let call = encode_for_call(preconditions(&["valid_ptr(p, w)"]));
    assert!(!compatible(&decl, &call));
}

#[test]
fn markers_are_sorted_by_kind_then_content() {
    let decl = encode_for_declaration(preconditions(&[
        "\"zz\"",
        "count > 0",
        "proper_align(a)",
        "valid_ptr(b, w)",
        "valid_ptr(a, r)",
    ]));
    let kinds: Vec<&str> = decl
        .markers
        .iter()
        .map(|m| match m {
            Marker::ValidPtr(_) => "valid_ptr",
            Marker::ProperAlign(_) => "proper_align",
            Marker::Boolean(_) => "boolean",
            Marker::Custom(_) => "custom",
        })
        .collect();
    assert_eq!(
        kinds,
        vec!["valid_ptr", "valid_ptr", "proper_align", "boolean", "custom"]
    );
    match &decl.markers[0] {
        Marker::ValidPtr(m) => {
            assert_eq!(m.ptr, "a");
            assert_eq!(m.access_type, "r");
        }
        other => panic!("expected a pointer marker, got {:?}", other),
    }
    match &decl.markers[1] {
        Marker::ValidPtr(m) => {
            assert_eq!(m.ptr, "b");
            assert_eq!(m.access_type, "w");
        }
        other => panic!("expected a pointer marker, got {:?}", other),
    }
}

#[test]
fn accepted_call_to_contracted_declaration() {
    // The canonical example: `foo` declares the custom precondition
    // `must be bar`; a call site assuring exactly that set produces the
    // hidden argument its signature demands.
    let assured = encode_for_call(preconditions(&["\"must be bar\""]));
    let declared = encode_for_declaration(preconditions(&["\"must be bar\""]));
    assert!(compatible(&declared, &assured));
    foo(&assured);
}

#[test]
fn missing_hidden_argument_is_an_arity_mismatch() {
    // A call site without any assurance annotation is left without the
    // hidden argument, so the rewritten declaration's extra parameter has
    // no counterpart: the host compiler rejects the call by arity alone.
    let declared = encode_for_declaration(preconditions(&["\"must be bar\""]));
    assert_eq!(declared.markers.len(), 1);
    let unrewritten_call_arguments: Vec<pre::call::CallArg> = Vec::new();
    assert!(unrewritten_call_arguments.len() < 1);
}
