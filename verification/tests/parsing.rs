//! Parsing the annotation surfaces: single clauses, legacy clauses,
//! precondition lists, assurances, and forwarding targets.

use pre::annot::{parse_assure, parse_forward, parse_pre_attr, PreAttr};
use pre::forward::ForwardTarget;
use pre::kind::{parse_kind, PreconditionKind};
use pre::list::PreconditionList;
use pre::parse::{parse_precondition, ParseError};
use pre::precondition::{Access, Precondition};

#[test]
fn precondition_parse_correct_custom() {
    let result = parse_precondition("\"foo\"");
    assert!(result.is_ok());
}

#[test]
fn precondition_parse_correct_valid_ptr() {
    {
        let result = parse_precondition("valid_ptr(foo, r)");
        assert!(result.is_ok());
    }

    {
        let result = parse_precondition("valid_ptr(foo, r+w)");
        assert!(result.is_ok());
    }

    {
        let result = parse_precondition("valid_ptr(foo, w)");
        assert!(result.is_ok());
    }
}

#[test]
fn parse_wrong_expr() {
    {
        let result = parse_precondition("a ++ b");
        assert!(result.is_err());
    }

    {
        let result = parse_precondition("17 - + -- + []");
        assert!(result.is_err());
    }
}

#[test]
fn precondition_parse_extra_tokens() {
    {
        let result = parse_precondition("\"foo\" bar");
        assert!(result.is_err());
    }

    {
        let result = parse_precondition("valid_ptr(foo, r+w+x)");
        assert!(result.is_err());
    }
}

#[test]
fn kind_parse_correct_custom() {
    let result = parse_kind("\"foo\"");

    assert!(result.is_ok());
}

#[test]
fn kind_parse_correct_valid_ptr() {
    let result = parse_kind("valid_ptr(foo)");

    assert!(result.is_ok());
}

#[test]
fn parse_unknown_keyword() {
    let result = parse_kind("unknown_keyword");

    assert!(result.is_err());

    let result = parse_kind("unknown_keyword(\"abc\")");

    assert!(result.is_err());
}

#[test]
fn kind_parse_extra_tokens() {
    let result = parse_kind("\"foo\" bar");

    assert!(result.is_err());
}

#[test]
fn parse_correct() {
    let result = PreconditionList::parse("condition(\"foo\"), condition(\"bar\")");

    let result = result.expect("parsing should work");

    assert_eq!(result.items().len(), 2);
}

#[test]
fn parse_correct_trailing_comma() {
    let result = PreconditionList::parse("condition(\"foo\"), condition(\"bar\"),");

    let result = result.expect("parsing should work");

    assert_eq!(result.items().len(), 2);
}

#[test]
fn iter_order_correct() {
    let result = PreconditionList::parse(
        "condition(\"5\"), condition(\"4\"), condition(\"3\"), condition(\"2\"), condition(\"1\")",
    );

    let result = result.expect("parsing should work");

    let rendered: Vec<String> = result.items().iter().map(|c| c.display_string()).collect();
    let expected: Vec<String> = (1..=5)
        .rev()
        .map(|num| format!("condition(\"{}\")", num))
        .collect();
    assert_eq!(rendered, expected);
}

#[test]
fn iter_sorted_order_correct() {
    let result1 = PreconditionList::parse(
        "condition(\"1\"), condition(\"2\"), condition(valid_ptr(three, r+w)), condition(\"4\"), condition(\"5\")",
    );

    let result1 = result1.expect("parsing should work");

    let result2 = PreconditionList::parse(
        "condition(\"4\"), condition(\"1\"), condition(\"5\"), condition(valid_ptr(three, r+w)), condition(\"2\")",
    );

    let result2 = result2.expect("parsing should work");

    let rendered1: Vec<String> = result1
        .sorted_items()
        .iter()
        .map(|c| c.display_string())
        .collect();
    let rendered2: Vec<String> = result2
        .sorted_items()
        .iter()
        .map(|c| c.display_string())
        .collect();
    assert_eq!(rendered1, rendered2);
}

#[test]
fn parse_valid_ptr_fields() {
    match parse_precondition("valid_ptr( self , r+w )") {
        Ok(Precondition::ValidPtr { ident, access }) => {
            assert_eq!(ident, "self");
            assert_eq!(access, Access::Both);
        }
        other => panic!("expected a pointer clause, got {:?}", other),
    }
}

#[test]
fn parse_proper_align_fields() {
    match parse_precondition("proper_align(dst)") {
        Ok(Precondition::ProperAlign { ident }) => {
            assert_eq!(ident, "dst");
        }
        other => panic!("expected an alignment clause, got {:?}", other),
    }
}

#[test]
fn parse_boolean_trims_source_text() {
    match parse_precondition("  len <= capacity  ") {
        Ok(Precondition::Boolean { expr }) => {
            assert_eq!(expr, "len <= capacity");
        }
        other => panic!("expected a boolean clause, got {:?}", other),
    }
}

#[test]
fn parse_custom_unescapes() {
    match parse_precondition("\"say \\\"hi\\\"\\n\"") {
        Ok(Precondition::Custom { text }) => {
            assert_eq!(text, "say \"hi\"\n");
        }
        other => panic!("expected a custom clause, got {:?}", other),
    }
}

#[test]
fn parse_error_variants() {
    assert_eq!(parse_precondition("   ").err(), Some(ParseError::Empty));
    assert_eq!(parse_precondition("valid_ptr(foo").err(), Some(ParseError::Malformed));
    assert_eq!(
        parse_precondition("\"foo\" bar").err(),
        Some(ParseError::UnexpectedToken)
    );
    assert_eq!(
        parse_precondition("a ++ b").err(),
        Some(ParseError::NotAPrecondition)
    );
}

#[test]
fn display_round_trips() {
    let inputs = [
        "valid_ptr(src, r)",
        "valid_ptr(dst, w)",
        "valid_ptr(both, r+w)",
        "proper_align(ptr)",
        "!ptr.is_null()",
        "\"an arbitrary \\\"quoted\\\" note\"",
    ];
    for input in inputs {
        let first = parse_precondition(input).expect("parsing should work");
        let rendered = first.display_string();
        let second = parse_precondition(&rendered).expect("re-parsing should work");
        assert!(first.same_clause(&second), "{} re-parsed differently", input);
        assert_eq!(second.display_string(), rendered);
    }
}

#[test]
fn parse_assure_with_reason() {
    let a = parse_assure("valid_ptr(src, r), reason = \"a reference is a valid pointer\"")
        .expect("parsing should work");
    assert_eq!(a.reason.as_deref(), Some("a reference is a valid pointer"));
    match a.precondition.precondition {
        Precondition::ValidPtr { ident, access } => {
            assert_eq!(ident, "src");
            assert_eq!(access, Access::Read);
        }
        other => panic!("expected a pointer clause, got {:?}", other),
    }
}

#[test]
fn parse_assure_without_reason() {
    let a = parse_assure("\"is bar\"").expect("parsing should work");
    assert!(a.reason.is_none());
}

#[test]
fn parse_forward_shapes() {
    match parse_forward("pre_std::ptr") {
        Ok(ForwardTarget::Direct { path }) => {
            assert_eq!(path.segments, vec!["pre_std".to_string(), "ptr".to_string()]);
            assert!(!path.leading_colon);
        }
        other => panic!("expected a direct target, got {:?}", other),
    }
    match parse_forward("impl pre::core::const_pointer") {
        Ok(ForwardTarget::ImplBlock { path }) => {
            assert_eq!(
                path.segments,
                vec!["pre".to_string(), "core".to_string(), "const_pointer".to_string()]
            );
        }
        other => panic!("expected an impl target, got {:?}", other),
    }
    match parse_forward("mod_a -> mod_b") {
        Ok(ForwardTarget::Replace { from, to }) => {
            assert_eq!(from.segments, vec!["mod_a".to_string()]);
            assert_eq!(to.segments, vec!["mod_b".to_string()]);
        }
        other => panic!("expected a replacement target, got {:?}", other),
    }
    assert!(parse_forward("").is_err());
    assert!(parse_forward("mod_a -> ").is_err());
}

#[test]
fn parse_pre_attr_shapes() {
    assert!(matches!(parse_pre_attr("  "), Ok(PreAttr::Empty)));
    assert!(matches!(parse_pre_attr("no_doc"), Ok(PreAttr::NoDoc)));
    assert!(matches!(parse_pre_attr("no_debug_assert"), Ok(PreAttr::NoDebugAssert)));
    assert!(matches!(
        parse_pre_attr("\"is bar\""),
        Ok(PreAttr::Precondition(Precondition::Custom { .. }))
    ));
    assert!(parse_pre_attr("no_doc extra").is_err());
}

#[test]
fn empty_list_parses() {
    let result = PreconditionList::parse("   ").expect("parsing should work");
    assert_eq!(result.len(), 0);
}
