//! The annotation parser for a single precondition clause.
//!
//! The grammar is given as specification functions over `Seq<char>`; the
//! executable parser is proved to return exactly what they describe. A bare
//! string literal is always a custom clause; the `valid_ptr` and
//! `proper_align` keyword clauses have their fixed shapes; anything else is
//! attempted as a boolean expression last, so that an identifier colliding
//! with a reserved word still parses as a pointer-argument name.

use vstd::prelude::*;

use crate::precondition::{Access, Clause, Precondition};
use crate::scan::{
    lemma_scan_ident_bounds, lemma_scan_ident_range, lemma_skip_ws_bounds, lemma_skip_ws_range,
    lemma_trim_end_bounds, lemma_trim_end_range, lemma_trim_nonempty, scan_ident_end,
    scan_ident_end_exec, scan_string, scan_string_exec, skip_ws, skip_ws_exec, trim, trim_end_from,
    trim_exec, unescape_char,
};
use crate::text::{
    chars_to_string, ident_start_char, is_ident_char, is_ident_start, is_ident_text, is_ws,
    str_chars, str_eq_chars,
};

verus! {

/// Why a precondition annotation was rejected.
#[derive(Clone, Copy, PartialEq, Eq, Structural, Debug)]
pub enum ParseError {
    /// The annotation holds nothing but whitespace.
    Empty,
    /// A keyword clause or string literal is malformed.
    Malformed,
    /// Extra tokens follow a complete clause.
    UnexpectedToken,
    /// The text is no keyword clause, no string literal, and no
    /// well-formed expression either: the union of all the causes.
    NotAPrecondition,
}

/// Whether the text parses as one complete Rust expression.
///
/// This is the name of what `syn::parse_str::<syn::Expr>` decides; the
/// result depends on the text alone.
pub uninterp spec fn is_expr_text(s: Seq<char>) -> bool;

/// Relies on `syn::parse_str::<syn::Expr>`: returns whether the text is one
/// complete well-formed Rust expression.
#[verifier::external_body]
fn is_expression(s: &str) -> (r: bool)
    ensures
        r == is_expr_text(s@),
{
    syn::parse_str::<syn::Expr>(s).is_ok()
}

/// The identifier-shaped word at the very start of the text (empty when the
/// text does not start with an identifier character).
pub open spec fn leading_word(s: Seq<char>) -> Seq<char> {
    s.subrange(0, scan_ident_end(s, 0))
}

/// A well-formed clause: one that the parser can produce. Identifiers are
/// identifier-shaped; a boolean clause's text is trimmed, is an expression,
/// and starts with neither a quote nor one of the clause keywords, so that
/// re-parsing its rendering reaches the expression case again.
pub open spec fn wf_clause(c: Clause) -> bool {
    match c {
        Clause::ValidPtr { ident, access } => is_ident_text(ident),
        Clause::ProperAlign { ident } => is_ident_text(ident),
        Clause::Boolean { expr } => {
            &&& expr.len() > 0
            &&& !is_ws(expr[0])
            &&& !is_ws(expr[expr.len() - 1])
            &&& expr[0] != '"'
            &&& is_expr_text(expr)
            &&& is_ident_start(expr[0]) ==> {
                &&& leading_word(expr) != "valid_ptr"@
                &&& leading_word(expr) != "proper_align"@
            }
        }
        Clause::Custom { .. } => true,
    }
}

/// What parsing a custom (string literal) clause yields; `i` is the
/// position of the opening quote.
pub open spec fn spec_parse_custom(s: Seq<char>, i: int) -> Result<Clause, ParseError> {
    match scan_string(s.skip(i + 1)) {
        Some((value, used)) => {
            if skip_ws(s, i + 1 + used) == s.len() {
                Ok(Clause::Custom { text: value })
            } else {
                Err(ParseError::UnexpectedToken)
            }
        }
        None => Err(ParseError::Malformed),
    }
}

/// What parsing the text as a boolean expression clause yields.
pub open spec fn spec_parse_boolean(s: Seq<char>) -> Result<Clause, ParseError> {
    if is_expr_text(trim(s)) {
        Ok(Clause::Boolean { expr: trim(s) })
    } else {
        Err(ParseError::NotAPrecondition)
    }
}

/// What parsing a `proper_align(ident)` clause yields; `j` is the position
/// just after the keyword.
pub open spec fn spec_parse_proper_align(s: Seq<char>, j: int) -> Result<Clause, ParseError> {
    let a = skip_ws(s, j);
    if a < s.len() && s[a] == '(' {
        let b = skip_ws(s, a + 1);
        if b < s.len() && is_ident_start(s[b]) {
            let c = scan_ident_end(s, b);
            let d = skip_ws(s, c);
            if d < s.len() && s[d] == ')' {
                if skip_ws(s, d + 1) == s.len() {
                    Ok(Clause::ProperAlign { ident: s.subrange(b, c) })
                } else {
                    Err(ParseError::UnexpectedToken)
                }
            } else {
                Err(ParseError::Malformed)
            }
        } else {
            Err(ParseError::Malformed)
        }
    } else {
        Err(ParseError::Malformed)
    }
}

/// What parsing the access mode inside a `valid_ptr` clause yields: the
/// mode and the position just after it.
pub open spec fn spec_parse_access(s: Seq<char>, e: int) -> Result<(Access, int), ParseError> {
    if e < s.len() && is_ident_start(s[e]) {
        let f = scan_ident_end(s, e);
        if s.subrange(e, f) == "w"@ {
            Ok((Access::Write, f))
        } else if s.subrange(e, f) == "r"@ {
            let p = skip_ws(s, f);
            if p < s.len() && s[p] == '+' {
                let q = skip_ws(s, p + 1);
                if q < s.len() && is_ident_start(s[q]) {
                    let t = scan_ident_end(s, q);
                    if s.subrange(q, t) == "w"@ {
                        Ok((Access::Both, t))
                    } else {
                        Err(ParseError::Malformed)
                    }
                } else {
                    Err(ParseError::Malformed)
                }
            } else {
                Ok((Access::Read, f))
            }
        } else {
            Err(ParseError::Malformed)
        }
    } else {
        Err(ParseError::Malformed)
    }
}

/// What parsing a `valid_ptr(ident, access)` clause yields; `j` is the
/// position just after the keyword.
pub open spec fn spec_parse_valid_ptr(s: Seq<char>, j: int) -> Result<Clause, ParseError> {
    let a = skip_ws(s, j);
    if a < s.len() && s[a] == '(' {
        let b = skip_ws(s, a + 1);
        if b < s.len() && is_ident_start(s[b]) {
            let c = scan_ident_end(s, b);
            let d = skip_ws(s, c);
            if d < s.len() && s[d] == ',' {
                match spec_parse_access(s, skip_ws(s, d + 1)) {
                    Ok((access, g)) => {
                        let h = skip_ws(s, g);
                        if h < s.len() && s[h] == ')' {
                            if skip_ws(s, h + 1) == s.len() {
                                Ok(Clause::ValidPtr { ident: s.subrange(b, c), access })
                            } else {
                                Err(ParseError::UnexpectedToken)
                            }
                        } else {
                            Err(ParseError::Malformed)
                        }
                    }
                    Err(e) => Err(e),
                }
            } else {
                Err(ParseError::Malformed)
            }
        } else {
            Err(ParseError::Malformed)
        }
    } else {
        Err(ParseError::Malformed)
    }
}

/// What parsing a whole precondition annotation yields.
pub open spec fn spec_parse_precondition(s: Seq<char>) -> Result<Clause, ParseError> {
    let i = skip_ws(s, 0);
    if i == s.len() {
        Err(ParseError::Empty)
    } else if s[i] == '"' {
        spec_parse_custom(s, i)
    } else if is_ident_start(s[i]) {
        let j = scan_ident_end(s, i);
        if s.subrange(i, j) == "valid_ptr"@ {
            spec_parse_valid_ptr(s, j)
        } else if s.subrange(i, j) == "proper_align"@ {
            spec_parse_proper_align(s, j)
        } else {
            spec_parse_boolean(s)
        }
    } else {
        spec_parse_boolean(s)
    }
}

/// The model of a parse result.
pub open spec fn parse_result_model(r: Result<Precondition, ParseError>) -> Result<
    Clause,
    ParseError,
> {
    match r {
        Ok(p) => Ok(p@),
        Err(e) => Err(e),
    }
}

/// The characters of `v` between `a` and `b`.
pub fn subvec(v: &Vec<char>, a: usize, b: usize) -> (r: Vec<char>)
    requires
        a <= b <= v@.len(),
    ensures
        r@ == v@.subrange(a as int, b as int),
{
    let mut r: Vec<char> = Vec::new();
    let mut k: usize = a;
    while k < b
        invariant
            a <= k <= b <= v@.len(),
            r@ == v@.subrange(a as int, k as int),
        decreases b - k,
    {
        r.push(v[k]);
        proof {
            assert(r@ =~= v@.subrange(a as int, k as int + 1));
        }
        k = k + 1;
    }
    r
}

/// Parses the access mode of a `valid_ptr` clause, from position `e`.
fn parse_access(v: &Vec<char>, e: usize) -> (r: Result<(Access, usize), ParseError>)
    requires
        e <= v@.len(),
    ensures
        match r {
            Ok((access, g)) => {
                &&& spec_parse_access(v@, e as int) == Ok::<_, ParseError>(
                    (access, g as int),
                )
                &&& e <= g <= v@.len()
            }
            Err(err) => spec_parse_access(v@, e as int) == Err::<(Access, int), _>(err),
        },
{
    if e < v.len() && ident_start_char(v[e]) {
        let f = scan_ident_end_exec(v, e);
        let word = subvec(v, e, f);
        if str_eq_chars("w", &word) {
            Ok((Access::Write, f))
        } else if str_eq_chars("r", &word) {
            let p = skip_ws_exec(v, f);
            if p < v.len() && v[p] == '+' {
                let q = skip_ws_exec(v, p + 1);
                if q < v.len() && ident_start_char(v[q]) {
                    let t = scan_ident_end_exec(v, q);
                    let word2 = subvec(v, q, t);
                    if str_eq_chars("w", &word2) {
                        Ok((Access::Both, t))
                    } else {
                        Err(ParseError::Malformed)
                    }
                } else {
                    Err(ParseError::Malformed)
                }
            } else {
                Ok((Access::Read, f))
            }
        } else {
            Err(ParseError::Malformed)
        }
    } else {
        Err(ParseError::Malformed)
    }
}

/// Parses one precondition annotation.
///
/// The result is exactly what the grammar functions describe, and every
/// successfully parsed clause is well-formed.
pub fn parse_precondition(s: &str) -> (r: Result<Precondition, ParseError>)
    ensures
        parse_result_model(r) == spec_parse_precondition(s@),
        r matches Ok(p) ==> wf_clause(p@),
{
    let v = str_chars(s);
    parse_precondition_chars(&v)
}

/// Parses one precondition annotation, given as characters.
pub fn parse_precondition_chars(v: &Vec<char>) -> (r: Result<Precondition, ParseError>)
    ensures
        parse_result_model(r) == spec_parse_precondition(v@),
        r matches Ok(p) ==> wf_clause(p@),
{
    let i = skip_ws_exec(v, 0);
    if i == v.len() {
        return Err(ParseError::Empty);
    }
    let c0 = v[i];
    if c0 == '"' {
        match scan_string_exec(v, i + 1) {
            Some((value, end)) => {
                let rest = skip_ws_exec(v, end);
                proof {
                    assert(end - (i + 1) == (end - i - 1) as int);
                    assert(i as int + 1 + (end - i - 1) == end as int);
                }
                if rest == v.len() {
                    let text = chars_to_string(&value);
                    Ok(Precondition::Custom { text })
                } else {
                    Err(ParseError::UnexpectedToken)
                }
            }
            None => Err(ParseError::Malformed),
        }
    } else if ident_start_char(c0) {
        let j = scan_ident_end_exec(v, i);
        let word = subvec(v, i, j);
        if str_eq_chars("valid_ptr", &word) {
            parse_valid_ptr_tail(v, j)
        } else if str_eq_chars("proper_align", &word) {
            parse_proper_align_tail(v, j)
        } else {
            parse_boolean_fallback(v)
        }
    } else {
        parse_boolean_fallback(v)
    }
}

/// Parses the tail of a `valid_ptr` clause, from just after the keyword.
fn parse_valid_ptr_tail(v: &Vec<char>, j: usize) -> (r: Result<Precondition, ParseError>)
    requires
        j <= v@.len(),
    ensures
        parse_result_model(r) == spec_parse_valid_ptr(v@, j as int),
        r matches Ok(p) ==> wf_clause(p@),
{
    let a = skip_ws_exec(v, j);
    if !(a < v.len() && v[a] == '(') {
        return Err(ParseError::Malformed);
    }
    let b = skip_ws_exec(v, a + 1);
    if !(b < v.len() && ident_start_char(v[b])) {
        return Err(ParseError::Malformed);
    }
    let c = scan_ident_end_exec(v, b);
    let d = skip_ws_exec(v, c);
    if !(d < v.len() && v[d] == ',') {
        return Err(ParseError::Malformed);
    }
    let e = skip_ws_exec(v, d + 1);
    match parse_access(v, e) {
        Ok((access, g)) => {
            let h = skip_ws_exec(v, g);
            if !(h < v.len() && v[h] == ')') {
                return Err(ParseError::Malformed);
            }
            let k = skip_ws_exec(v, h + 1);
            if k == v.len() {
                let idv = subvec(v, b, c);
                let ident = chars_to_string(&idv);
                proof {
                    lemma_scan_ident_bounds(v@, b as int);
                    assert(is_ident_text(v@.subrange(b as int, c as int)));
                }
                Ok(Precondition::ValidPtr { ident, access })
            } else {
                Err(ParseError::UnexpectedToken)
            }
        }
        Err(err) => Err(err),
    }
}

/// Parses the tail of a `proper_align` clause, from just after the keyword.
fn parse_proper_align_tail(v: &Vec<char>, j: usize) -> (r: Result<Precondition, ParseError>)
    requires
        j <= v@.len(),
    ensures
        parse_result_model(r) == spec_parse_proper_align(v@, j as int),
        r matches Ok(p) ==> wf_clause(p@),
{
    let a = skip_ws_exec(v, j);
    if !(a < v.len() && v[a] == '(') {
        return Err(ParseError::Malformed);
    }
    let b = skip_ws_exec(v, a + 1);
    if !(b < v.len() && ident_start_char(v[b])) {
        return Err(ParseError::Malformed);
    }
    let c = scan_ident_end_exec(v, b);
    let d = skip_ws_exec(v, c);
    if !(d < v.len() && v[d] == ')') {
        return Err(ParseError::Malformed);
    }
    let k = skip_ws_exec(v, d + 1);
    if k == v.len() {
        let idv = subvec(v, b, c);
        let ident = chars_to_string(&idv);
        proof {
            lemma_scan_ident_bounds(v@, b as int);
            assert(is_ident_text(v@.subrange(b as int, c as int)));
        }
        Ok(Precondition::ProperAlign { ident })
    } else {
        Err(ParseError::UnexpectedToken)
    }
}

/// Attempts the text as a boolean expression clause. Reached only when the
/// text holds a non-whitespace character, does not start with a quote, and
/// does not start with one of the clause keywords.
fn parse_boolean_fallback(v: &Vec<char>) -> (r: Result<Precondition, ParseError>)
    requires
        skip_ws(v@, 0) < v@.len(),
        v@[skip_ws(v@, 0)] != '"',
        is_ident_start(v@[skip_ws(v@, 0)]) ==> {
            let j = scan_ident_end(v@, skip_ws(v@, 0));
            &&& v@.subrange(skip_ws(v@, 0), j) != "valid_ptr"@
            &&& v@.subrange(skip_ws(v@, 0), j) != "proper_align"@
        },
    ensures
        parse_result_model(r) == spec_parse_boolean(v@),
        r matches Ok(p) ==> wf_clause(p@),
{
    let t = trim_exec(v);
    let ts = chars_to_string(&t);
    if is_expression(ts.as_str()) {
        proof {
            lemma_trim_nonempty(v@);
            lemma_trim_leading_word(v@);
        }
        Ok(Precondition::Boolean { expr: ts })
    } else {
        Err(ParseError::NotAPrecondition)
    }
}

/// Scanning the escaped form of a text followed by a closing quote yields
/// the text back and consumes the escaped form and the quote.
proof fn lemma_scan_escape(t: Seq<char>, rest: Seq<char>)
    ensures
        scan_string(crate::precondition::escape_text(t) + seq!['"'] + rest) == Some(
            (t, crate::precondition::escape_text(t).len() as int + 1),
        ),
    decreases t.len(),
{
    let e = crate::precondition::escape_text(t);
    let s = e + seq!['"'] + rest;
    if t.len() == 0 {
        assert(e =~= Seq::<char>::empty());
        assert(s[0] == '"');
        assert(scan_string(s) == Some((Seq::<char>::empty(), 1int)));
        assert(t =~= Seq::<char>::empty());
    } else {
        let c = t[0];
        let t2 = t.skip(1);
        lemma_scan_escape(t2, rest);
        let e2 = crate::precondition::escape_text(t2);
        let s2 = e2 + seq!['"'] + rest;
        assert(e == crate::precondition::escape_char(c) + e2);
        if c == '"' || c == '\\' || c == '\n' || c == '\r' || c == '\t' || c == '\0' {
            assert(crate::precondition::escape_char(c).len() == 2);
            assert(s.len() >= 2);
            assert(s[0] == crate::precondition::escape_char(c)[0]);
            assert(s[1] == crate::precondition::escape_char(c)[1]);
            assert(s[0] == '\\');
            assert(unescape_char(s[1]) == Some(c));
            assert(s.skip(2) =~= s2);
            assert(scan_string(s) == Some((seq![c] + t2, (e2.len() as int + 1) + 2)));
            assert(seq![c] + t2 =~= t);
            assert(e.len() == 2 + e2.len());
        } else {
            assert(crate::precondition::escape_char(c) =~= seq![c]);
            assert(s[0] == c);
            assert(s.skip(1) =~= s2);
            assert(scan_string(s) == Some((seq![c] + t2, (e2.len() as int + 1) + 1)));
            assert(seq![c] + t2 =~= t);
            assert(e.len() == 1 + e2.len());
        }
    }
}

/// Re-parsing the rendered display text of a well-formed clause yields the
/// clause itself: rendering loses nothing that parsing reads.
pub proof fn lemma_display_reparse(c: Clause)
    requires
        wf_clause(c),
    ensures
        spec_parse_precondition(crate::precondition::spec_display(c)) == Ok::<
            Clause,
            ParseError,
        >(c),
{
    reveal_strlit("valid_ptr");
    reveal_strlit("valid_ptr(");
    reveal_strlit("proper_align");
    reveal_strlit("proper_align(");
    reveal_strlit(", ");
    reveal_strlit(")");
    reveal_strlit("\"");
    reveal_strlit("r");
    reveal_strlit("w");
    match c {
        Clause::ValidPtr { ident, access } => {
            lemma_reparse_valid_ptr(ident, access);
        }
        Clause::ProperAlign { ident } => {
            lemma_reparse_proper_align(ident);
        }
        Clause::Boolean { expr } => {
            lemma_reparse_boolean(expr);
        }
        Clause::Custom { text } => {
            lemma_reparse_custom(text);
        }
    }
}

/// Re-parsing preserves the canonical ordering: comparing the re-parsed
/// clauses gives the same result as comparing the originals.
pub proof fn lemma_reparse_preserves_order(a: Clause, b: Clause)
    requires
        wf_clause(a),
        wf_clause(b),
    ensures
        spec_parse_precondition(crate::precondition::spec_display(a)) == Ok::<
            Clause,
            ParseError,
        >(a),
        spec_parse_precondition(crate::precondition::spec_display(b)) == Ok::<
            Clause,
            ParseError,
        >(b),
        ({
            let ra = spec_parse_precondition(crate::precondition::spec_display(a))->Ok_0;
            let rb = spec_parse_precondition(crate::precondition::spec_display(b))->Ok_0;
            crate::precondition::clause_le(ra, rb) == crate::precondition::clause_le(a, b)
        }),
{
    lemma_display_reparse(a);
    lemma_display_reparse(b);
}

proof fn lemma_reparse_custom(text: Seq<char>)
    ensures
        spec_parse_precondition(crate::precondition::spec_display(Clause::Custom { text })) == Ok::<
            Clause,
            ParseError,
        >(Clause::Custom { text }),
{
    reveal_strlit("\"");
    let e = crate::precondition::escape_text(text);
    let s = crate::precondition::spec_display(Clause::Custom { text });
    assert(s == "\""@ + e + "\""@);
    assert("\""@.len() == 1);
    assert(s[0] == '"');
    assert(!is_ws(s[0]));
    lemma_skip_ws_range(s, 0, 0);
    lemma_scan_escape(text, Seq::empty());
    assert(s.skip(1) =~= e + seq!['"'] + Seq::<char>::empty());
    assert(scan_string(s.skip(1)) == Some((text, e.len() as int + 1)));
    assert(0 + 1 + (e.len() + 1) == s.len());
    lemma_skip_ws_range(s, s.len() as int, s.len() as int);
    assert(spec_parse_custom(s, 0) == Ok::<Clause, ParseError>(Clause::Custom { text }));
}

proof fn lemma_reparse_boolean(expr: Seq<char>)
    requires
        wf_clause(Clause::Boolean { expr }),
    ensures
        spec_parse_precondition(crate::precondition::spec_display(Clause::Boolean { expr }))
            == Ok::<Clause, ParseError>(Clause::Boolean { expr }),
{
    let s = crate::precondition::spec_display(Clause::Boolean { expr });
    assert(s == expr);
    lemma_skip_ws_range(s, 0, 0);
    lemma_trim_end_range(s, s.len() as int, s.len() as int);
    assert(trim(s) =~= s);
    assert(spec_parse_boolean(s) == Ok::<Clause, ParseError>(Clause::Boolean { expr }));
    if is_ident_start(s[0]) {
        assert(s.subrange(0, scan_ident_end(s, 0)) == leading_word(expr));
    }
}

proof fn lemma_reparse_proper_align(ident: Seq<char>)
    requires
        is_ident_text(ident),
    ensures
        spec_parse_precondition(crate::precondition::spec_display(Clause::ProperAlign { ident }))
            == Ok::<Clause, ParseError>(Clause::ProperAlign { ident }),
{
    reveal_strlit("proper_align");
    reveal_strlit("proper_align(");
    reveal_strlit("valid_ptr");
    reveal_strlit(")");
    let head = "proper_align("@;
    let close = ")"@;
    let s = crate::precondition::spec_display(Clause::ProperAlign { ident });
    let n = ident.len() as int;
    assert(head.len() == 13);
    assert(close.len() == 1);
    assert(s == head + ident + close);
    assert(s.len() == 14 + n);
    assert forall|k: int| 0 <= k < 13 implies s[k] == head[k] by {}
    assert forall|k: int| 0 <= k < n implies s[13 + k] == ident[k] by {}
    assert(s[13 + n] == close[0]);
    assert(s[13 + n] == ')');
    // The leading word is exactly `proper_align`.
    assert forall|k: int| 0 <= k < 12 implies is_ident_char(#[trigger] s[k]) && !is_ws(s[k]) by {
        crate::text::lemma_ident_char_not_ws(s[k]);
    }
    assert(s[12] == '(');
    assert(!is_ident_char(s[12]));
    assert(!is_ws(s[0]));
    lemma_skip_ws_range(s, 0, 0);
    lemma_scan_ident_range(s, 0, 12);
    assert(s[0] != '"');
    assert(is_ident_start(s[0]));
    assert(s.subrange(0, 12) =~= "proper_align"@);
    assert(s.subrange(0, 12) != "valid_ptr"@);
    // The tail: `(`, the identifier, `)`, end.
    lemma_skip_ws_range(s, 12, 12);
    assert(s[12] == '(');
    assert forall|k: int| 13 <= k < 13 + n implies is_ident_char(#[trigger] s[k]) && !is_ws(
        s[k],
    ) by {
        assert(s[k] == ident[k - 13]);
        crate::text::lemma_ident_char_not_ws(s[k]);
    }
    lemma_skip_ws_range(s, 13, 13);
    assert(is_ident_start(s[13]));
    assert(!is_ident_char(s[13 + n]));
    lemma_scan_ident_range(s, 13, 13 + n);
    lemma_skip_ws_range(s, 13 + n, 13 + n);
    lemma_skip_ws_range(s, 14 + n, 14 + n);
    assert(s.subrange(13, 13 + n) =~= ident);
    assert(spec_parse_proper_align(s, 12) == Ok::<Clause, ParseError>(
        Clause::ProperAlign { ident },
    ));
}

#[verifier::rlimit(100)]
proof fn lemma_reparse_valid_ptr(ident: Seq<char>, access: Access)
    requires
        is_ident_text(ident),
    ensures
        spec_parse_precondition(
            crate::precondition::spec_display(Clause::ValidPtr { ident, access }),
        ) == Ok::<Clause, ParseError>(Clause::ValidPtr { ident, access }),
{
    reveal_strlit("valid_ptr");
    reveal_strlit("valid_ptr(");
    reveal_strlit(", ");
    reveal_strlit(")");
    reveal_strlit("r");
    reveal_strlit("w");
    let head = "valid_ptr("@;
    let sep = ", "@;
    let close = ")"@;
    let rw = access.spec_render();
    let s = crate::precondition::spec_display(Clause::ValidPtr { ident, access });
    let n = ident.len() as int;
    let m = rw.len() as int;
    assert(head.len() == 10);
    assert(sep.len() == 2);
    assert(close.len() == 1);
    assert(s == head + ident + sep + rw + close);
    assert(s.len() == 13 + n + m);
    assert forall|k: int| 0 <= k < 10 implies s[k] == head[k] by {}
    assert forall|k: int| 0 <= k < n implies s[10 + k] == ident[k] by {}
    assert(s[10 + n] == sep[0]);
    assert(s[11 + n] == sep[1]);
    assert forall|k: int| 0 <= k < m implies s[12 + n + k] == rw[k] by {}
    assert(s[12 + n + m] == close[0]);
    // The leading word is exactly `valid_ptr`.
    assert forall|k: int| 0 <= k < 9 implies is_ident_char(#[trigger] s[k]) && !is_ws(s[k]) by {
        crate::text::lemma_ident_char_not_ws(s[k]);
    }
    assert(s[9] == '(');
    assert(!is_ident_char(s[9]));
    assert(!is_ws(s[0]));
    lemma_skip_ws_range(s, 0, 0);
    lemma_scan_ident_range(s, 0, 9);
    assert(s[0] != '"');
    assert(is_ident_start(s[0]));
    assert(s.subrange(0, 9) =~= "valid_ptr"@);
    // The tail: `(`, the identifier, the separator, the access, `)`, end.
    lemma_skip_ws_range(s, 9, 9);
    assert forall|k: int| 10 <= k < 10 + n implies is_ident_char(#[trigger] s[k]) && !is_ws(
        s[k],
    ) by {
        assert(s[k] == ident[k - 10]);
        crate::text::lemma_ident_char_not_ws(s[k]);
    }
    lemma_skip_ws_range(s, 10, 10);
    assert(is_ident_start(s[10]));
    assert(s[10 + n] == ',');
    assert(!is_ident_char(s[10 + n]));
    lemma_scan_ident_range(s, 10, 10 + n);
    lemma_skip_ws_range(s, 10 + n, 10 + n);
    assert(s.subrange(10, 10 + n) =~= ident);
    // The separator's space is skipped before the access mode.
    assert(is_ws(s[11 + n]));
    assert(!is_ws(s[12 + n]));
    lemma_skip_ws_range(s, 11 + n, 12 + n);
    let e = 12 + n;
    match access {
        Access::Read => {
            assert(rw =~= seq!['r']);
            assert(s[e] == 'r');
            assert(s[e + 1] == ')');
            lemma_scan_ident_range(s, e, e + 1);
            assert(s.subrange(e, e + 1) =~= "r"@);
            assert(s.subrange(e, e + 1)[0] == 'r');
            assert("w"@[0] == 'w');
            assert(s.subrange(e, e + 1) != "w"@);
            lemma_skip_ws_range(s, e + 1, e + 1);
            assert(spec_parse_access(s, e) == Ok::<(Access, int), ParseError>(
                (Access::Read, e + 1),
            ));
            lemma_skip_ws_range(s, e + 2, e + 2);
            assert(spec_parse_valid_ptr(s, 9) == Ok::<Clause, ParseError>(
                Clause::ValidPtr { ident, access },
            ));
        }
        Access::Write => {
            assert(rw =~= seq!['w']);
            assert(s[e] == 'w');
            assert(s[e + 1] == ')');
            lemma_scan_ident_range(s, e, e + 1);
            assert(s.subrange(e, e + 1) =~= "w"@);
            lemma_skip_ws_range(s, e + 1, e + 1);
            assert(spec_parse_access(s, e) == Ok::<(Access, int), ParseError>(
                (Access::Write, e + 1),
            ));
            lemma_skip_ws_range(s, e + 2, e + 2);
            assert(spec_parse_valid_ptr(s, 9) == Ok::<Clause, ParseError>(
                Clause::ValidPtr { ident, access },
            ));
        }
        Access::Both => {
            assert(rw =~= seq!['r', '+', 'w']);
            assert(s[e] == 'r');
            assert(s[e + 1] == '+');
            assert(s[e + 2] == 'w');
            assert(s[e + 3] == ')');
            assert(!is_ident_char(s[e + 1]));
            lemma_scan_ident_range(s, e, e + 1);
            assert(s.subrange(e, e + 1) =~= "r"@);
            assert(s.subrange(e, e + 1)[0] == 'r');
            assert("w"@[0] == 'w');
            assert(s.subrange(e, e + 1) != "w"@);
            lemma_skip_ws_range(s, e + 1, e + 1);
            lemma_skip_ws_range(s, e + 2, e + 2);
            assert(is_ident_start(s[e + 2]));
            assert(!is_ident_char(s[e + 3]));
            lemma_scan_ident_range(s, e + 2, e + 3);
            assert(s.subrange(e + 2, e + 3) =~= "w"@);
            assert(spec_parse_access(s, e) == Ok::<(Access, int), ParseError>(
                (Access::Both, e + 3),
            ));
            lemma_skip_ws_range(s, e + 3, e + 3);
            lemma_skip_ws_range(s, e + 4, e + 4);
            assert(spec_parse_valid_ptr(s, 9) == Ok::<Clause, ParseError>(
                Clause::ValidPtr { ident, access },
            ));
        }
    }
}

/// The leading word of the trimmed text is the word found at the first
/// non-whitespace position of the original text.
proof fn lemma_trim_leading_word(s: Seq<char>)
    requires
        skip_ws(s, 0) < s.len(),
    ensures
        ({
            let i = skip_ws(s, 0);
            let t = trim(s);
            &&& t[0] == s[i]
            &&& leading_word(t) == s.subrange(i, scan_ident_end(s, i))
        }),
{
    let i = skip_ws(s, 0);
    let end = trim_end_from(s, s.len() as int);
    lemma_trim_nonempty(s);
    lemma_skip_ws_bounds(s, 0);
    lemma_trim_end_bounds(s, s.len() as int);
    let t = trim(s);
    assert(t == s.subrange(i, end));
    assert(t[0] == s[i]);
    let j = scan_ident_end(s, i);
    lemma_scan_ident_bounds(s, i);
    if is_ident_char(s[i]) {
        // The word runs from i to j; its characters are not whitespace, so
        // the trimmed range covers it: j <= end.
        assert(is_ident_char(s[j - 1]));
        assert(!is_ws(s[j - 1]));
        if j > end {
            assert(end <= j - 1 < s.len());
            assert(is_ws(s[j - 1]));
            assert(false);
        }
        assert forall|k: int| 0 <= k < j - i implies is_ident_char(#[trigger] t[k]) by {
            assert(t[k] == s[i + k]);
        }
        if j - i < t.len() {
            assert(t[j - i] == s[j]);
            assert(!is_ident_char(t[j - i]));
        } else {
            assert(j == end);
        }
        lemma_scan_ident_range(t, 0, j - i);
        assert(leading_word(t) =~= s.subrange(i, j));
    } else {
        // No identifier at the start: both words are empty.
        lemma_scan_ident_range(s, i, i);
        lemma_scan_ident_range(t, 0, 0);
        assert(leading_word(t) =~= s.subrange(i, i));
    }
}

} // verus!
