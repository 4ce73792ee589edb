//! The declaration rewriter: turns the preconditions annotated on a
//! function declaration into the hidden parameter appended to its
//! signature, the optional runtime self-checks for boolean clauses, and
//! the ordered, de-duplicated list handed to the documentation generator.
//!
//! Two interchangeable encoder strategies stand behind one interface: the
//! structural strategy encodes the set as an aggregate of marker types;
//! the nominal strategy, kept for toolchains without the structural
//! feature, synthesizes one record type named after the declaration whose
//! field names spell the canonical clauses.

use vstd::prelude::*;

use crate::diag::Diagnostic;
use crate::encode::{
    clauses_of, encode_for_declaration, encoding_of, sort_preconditions, HiddenParameter,
};
use crate::precondition::{combine_cfg, spec_cfg_mismatches, CfgPrecondition, Clause, Precondition};
use crate::text::{chars_to_string, str_chars};

verus! {

/// Which encoder strategy a build uses; selected once per build
/// configuration, never mixed within one compilation.
#[derive(Clone, Copy, PartialEq, Eq, Structural, Debug)]
pub enum EncoderMode {
    /// Marker types combined into a fixed-arity aggregate, matched by
    /// shape.
    Markers,
    /// One synthesized record type per declaration, matched by name.
    Record,
}

/// The record type the nominal strategy synthesizes for one declaration:
/// it carries the declaration's own name, so that the call site can name
/// it without importing it, and one unit field per canonical clause.
#[derive(Debug)]
pub struct NominalType {
    /// The declaration's name, reused as the type name.
    pub name: String,
    /// The field names spelling the canonical clauses, in canonical order.
    pub fields: Vec<String>,
}

/// The hidden parameter in either strategy.
#[derive(Debug)]
pub enum HiddenParamRepr {
    /// The aggregate of markers.
    Markers(HiddenParameter),
    /// The nominal record type.
    Record(NominalType),
}

/// A declaration rewritten to carry its contract.
#[derive(Debug)]
pub enum RewrittenDecl {
    /// No preconditions: the declaration is left as written.
    Unchanged,
    /// The declaration with the hidden parameter appended.
    Contracted {
        /// The hidden parameter.
        hidden: HiddenParamRepr,
        /// The conditional-compilation predicate guarding the hidden
        /// parameter, combined from the clauses' predicates.
        combined_cfg: Option<String>,
        /// The ordered, de-duplicated clause list handed to the
        /// documentation generator; absent when documentation is
        /// suppressed.
        doc_list: Option<Vec<Precondition>>,
        /// The boolean clauses to check at runtime on entry, innermost
        /// first; empty when the self-checks are suppressed.
        debug_asserts: Vec<String>,
    },
}

/// The lower-case hexadecimal digits of a number, most significant first.
pub open spec fn hex_of(n: int) -> Seq<char>
    decreases n,
{
    if n < 16 {
        seq![hex_digit(if n < 0 {
            0
        } else {
            n
        })]
    } else {
        hex_of(n / 16) + seq![hex_digit(n % 16)]
    }
}

/// One hexadecimal digit.
pub open spec fn hex_digit(d: int) -> char {
    if d == 0 {
        '0'
    } else if d == 1 {
        '1'
    } else if d == 2 {
        '2'
    } else if d == 3 {
        '3'
    } else if d == 4 {
        '4'
    } else if d == 5 {
        '5'
    } else if d == 6 {
        '6'
    } else if d == 7 {
        '7'
    } else if d == 8 {
        '8'
    } else if d == 9 {
        '9'
    } else if d == 10 {
        'a'
    } else if d == 11 {
        'b'
    } else if d == 12 {
        'c'
    } else if d == 13 {
        'd'
    } else if d == 14 {
        'e'
    } else {
        'f'
    }
}

/// The hexadecimal digits of a number, at runtime.
pub fn hex_chars(n: u32) -> (r: Vec<char>)
    ensures
        r@ == hex_of(n as int),
    decreases n,
{
    let d = n % 16;
    let digit: char = if d == 0 {
        '0'
    } else if d == 1 {
        '1'
    } else if d == 2 {
        '2'
    } else if d == 3 {
        '3'
    } else if d == 4 {
        '4'
    } else if d == 5 {
        '5'
    } else if d == 6 {
        '6'
    } else if d == 7 {
        '7'
    } else if d == 8 {
        '8'
    } else if d == 9 {
        '9'
    } else if d == 10 {
        'a'
    } else if d == 11 {
        'b'
    } else if d == 12 {
        'c'
    } else if d == 13 {
        'd'
    } else if d == 14 {
        'e'
    } else {
        'f'
    };
    if n < 16 {
        let mut r: Vec<char> = Vec::new();
        r.push(digit);
        proof {
            assert(r@ =~= hex_of(n as int));
        }
        r
    } else {
        let mut r = hex_chars(n / 16);
        r.push(digit);
        proof {
            assert(r@ =~= hex_of(n as int));
        }
        r
    }
}

/// The identifier escape of one character: letters and digits stand for
/// themselves, an underscore doubles to keep escapes apart from literal
/// underscores, and any other character becomes an underscore followed by
/// its hexadecimal code.
pub open spec fn escape_ident_char(c: char) -> Seq<char> {
    if ('0' <= c && c <= '9') || ('a' <= c && c <= 'z') || ('A' <= c && c <= 'Z') {
        seq![c]
    } else if c == '_' {
        seq!['_', '_']
    } else {
        seq!['_'] + hex_of(c as int)
    }
}

/// The identifier escape of a whole text.
pub open spec fn escape_ident_text(s: Seq<char>) -> Seq<char>
    decreases s.len(),
{
    if s.len() == 0 {
        Seq::empty()
    } else {
        escape_ident_char(s[0]) + escape_ident_text(s.skip(1))
    }
}

/// The identifier escape of one character, at runtime.
pub fn escape_ident_one(c: char) -> (r: Vec<char>)
    ensures
        r@ == escape_ident_char(c),
{
    let mut r: Vec<char> = Vec::new();
    if ('0' <= c && c <= '9') || ('a' <= c && c <= 'z') || ('A' <= c && c <= 'Z') {
        r.push(c);
        proof {
            assert(r@ =~= escape_ident_char(c));
        }
    } else if c == '_' {
        r.push('_');
        r.push('_');
        proof {
            assert(r@ =~= escape_ident_char(c));
        }
    } else {
        r.push('_');
        let mut hex = hex_chars(c as u32);
        r.append(&mut hex);
        proof {
            vstd::utf8::char_u32_cast(c, c as u32);
            assert(c as u32 as int == c as int);
            assert(r@ =~= escape_ident_char(c));
        }
    }
    r
}

/// Escapes a text into identifier characters, at runtime.
pub fn escape_ident_chars(s: &Vec<char>) -> (r: Vec<char>)
    ensures
        r@ == escape_ident_text(s@),
{
    let mut r: Vec<char> = Vec::new();
    let mut i: usize = 0;
    proof {
        assert(s@.take(0) =~= Seq::<char>::empty());
    }
    while i < s.len()
        invariant
            i <= s@.len(),
            r@ == escape_ident_text(s@.take(i as int)),
        decreases s@.len() - i,
    {
        let c = s[i];
        let mut e = escape_ident_one(c);
        r.append(&mut e);
        proof {
            lemma_escape_ident_take_step(s@, i as int);
            assert(r@ =~= escape_ident_text(s@.take(i as int + 1)));
        }
        i = i + 1;
    }
    proof {
        assert(s@.take(s@.len() as int) =~= s@);
    }
    r
}

/// Escaping one more character appends that character's escape.
proof fn lemma_escape_ident_take_step(s: Seq<char>, i: int)
    requires
        0 <= i < s.len(),
    ensures
        escape_ident_text(s.take(i + 1)) == escape_ident_text(s.take(i)) + escape_ident_char(s[i]),
    decreases i,
{
    if i == 0 {
        assert(s.take(1).len() == 1);
        assert(s.take(1)[0] == s[0]);
        assert(s.take(1).skip(1) =~= Seq::<char>::empty());
        assert(s.take(0) =~= Seq::<char>::empty());
        assert(escape_ident_text(Seq::<char>::empty()) =~= Seq::<char>::empty());
        assert(escape_ident_text(s.take(1)) == escape_ident_char(s.take(1)[0])
            + escape_ident_text(s.take(1).skip(1)));
        assert(escape_ident_text(s.take(1)) =~= escape_ident_char(s[0]));
        assert(escape_ident_text(s.take(0)) + escape_ident_char(s[0]) =~= escape_ident_char(s[0]));
    } else {
        let t = s.skip(1);
        lemma_escape_ident_take_step(t, i - 1);
        assert(s.take(i + 1)[0] == s[0]);
        assert(s.take(i + 1).skip(1) =~= t.take(i));
        assert(s.take(i).skip(1) =~= t.take(i - 1));
        assert(t[i - 1] == s[i]);
        assert(escape_ident_text(s.take(i + 1)) == escape_ident_char(s[0]) + escape_ident_text(
            t.take(i),
        ));
        assert(escape_ident_text(s.take(i)) == escape_ident_char(s[0]) + escape_ident_text(
            t.take(i - 1),
        ));
        assert(escape_ident_char(s[0]) + (escape_ident_text(t.take(i - 1)) + escape_ident_char(
            t[i - 1],
        )) =~= (escape_ident_char(s[0]) + escape_ident_text(t.take(i - 1))) + escape_ident_char(
            t[i - 1],
        ));
    }
}

/// The field name the nominal strategy spells for one clause.
pub open spec fn spec_render_as_ident(c: Clause) -> Seq<char> {
    match c {
        Clause::ValidPtr { ident, access } => "_valid_ptr_"@ + ident + "_"@ + (match access {
            crate::precondition::Access::Read => "r"@,
            crate::precondition::Access::Write => "w"@,
            crate::precondition::Access::Both => "rw"@,
        }),
        Clause::ProperAlign { ident } => "_proper_align_"@ + ident,
        Clause::Boolean { expr } => "_boolean_"@ + escape_ident_text(expr),
        Clause::Custom { text } => "_custom_"@ + escape_ident_text(text),
    }
}

/// Spells the nominal field name of one precondition.
pub fn render_as_ident(p: &Precondition) -> (r: String)
    ensures
        r@ == spec_render_as_ident(p@),
{
    match p {
        Precondition::ValidPtr { ident, access } => {
            let mut out = str_chars("_valid_ptr_");
            let mut id = str_chars(ident.as_str());
            out.append(&mut id);
            let mut sep = str_chars("_");
            out.append(&mut sep);
            let mut rw = match access {
                crate::precondition::Access::Read => str_chars("r"),
                crate::precondition::Access::Write => str_chars("w"),
                crate::precondition::Access::Both => str_chars("rw"),
            };
            out.append(&mut rw);
            chars_to_string(&out)
        }
        Precondition::ProperAlign { ident } => {
            let mut out = str_chars("_proper_align_");
            let mut id = str_chars(ident.as_str());
            out.append(&mut id);
            chars_to_string(&out)
        }
        Precondition::Boolean { expr } => {
            let mut out = str_chars("_boolean_");
            let ev = str_chars(expr.as_str());
            let mut esc = escape_ident_chars(&ev);
            out.append(&mut esc);
            chars_to_string(&out)
        }
        Precondition::Custom { text } => {
            let mut out = str_chars("_custom_");
            let tv = str_chars(text.as_str());
            let mut esc = escape_ident_chars(&tv);
            out.append(&mut esc);
            chars_to_string(&out)
        }
    }
}

/// Canonical-order invariance for the nominal strategy: any permutation
/// of a precondition list spells the identical field-name sequence, so
/// two declarations with the same clause set synthesize the same record.
/// The converse does not hold in general: the identifier escape can spell
/// two different texts the same way, so the nominal record separates
/// contract sets only as far as the escaping separates their contents.
pub proof fn lemma_nominal_fields_permutation_invariant(xs: Seq<Clause>, ys: Seq<Clause>)
    requires
        xs.to_multiset() == ys.to_multiset(),
    ensures
        crate::encode::sorted_clauses(xs).map_values(|c: Clause| spec_render_as_ident(c))
            == crate::encode::sorted_clauses(ys).map_values(|c: Clause| spec_render_as_ident(c)),
{
    crate::encode::lemma_encoding_permutation_invariant(xs, ys);
    let leq = |a: Clause, b: Clause| crate::precondition::clause_le(a, b);
    crate::precondition::lemma_clause_le_total_ordering();
    xs.lemma_sort_by_ensures(leq);
    ys.lemma_sort_by_ensures(leq);
    vstd::seq_lib::lemma_sorted_unique(
        crate::encode::sorted_clauses(xs),
        crate::encode::sorted_clauses(ys),
        leq,
    );
}

/// The clause list with adjacent duplicates removed.
pub open spec fn dedup_adjacent(cs: Seq<Clause>) -> Seq<Clause>
    decreases cs.len(),
{
    if cs.len() == 0 {
        Seq::empty()
    } else if cs.len() == 1 {
        cs
    } else if cs[0] == cs[1] {
        dedup_adjacent(cs.skip(1))
    } else {
        seq![cs[0]] + dedup_adjacent(cs.skip(1))
    }
}

/// The documentation generator's input for a precondition list: the
/// clauses in canonical order, de-duplicated by canonical form.
pub fn doc_preconditions(preconditions: &Vec<CfgPrecondition>) -> (r: Vec<Precondition>)
    ensures
        r@.map_values(|p: Precondition| p@) == dedup_adjacent(
            crate::encode::sorted_clauses(clauses_of(preconditions@)),
        ),
{
    let mut copies: Vec<CfgPrecondition> = Vec::new();
    let mut i: usize = 0;
    while i < preconditions.len()
        invariant
            i <= preconditions@.len(),
            copies@.map_values(|p: CfgPrecondition| p@) == preconditions@.take(
                i as int,
            ).map_values(|p: CfgPrecondition| p@),
        decreases preconditions@.len() - i,
    {
        let ghost old_copies = copies@;
        copies.push(preconditions[i].duplicate());
        proof {
            let f = |p: CfgPrecondition| p@;
            assert(copies@.map_values(f) =~= old_copies.map_values(f).push(
                preconditions@[i as int]@,
            ));
            assert(preconditions@.take(i as int + 1) =~= preconditions@.take(i as int).push(
                preconditions@[i as int],
            ));
            assert(preconditions@.take(i as int + 1).map_values(f) =~= preconditions@.take(
                i as int,
            ).map_values(f).push(f(preconditions@[i as int])));
        }
        i = i + 1;
    }
    proof {
        assert(preconditions@.take(preconditions@.len() as int) =~= preconditions@);
        assert(clauses_of(copies@) =~= clauses_of(preconditions@)) by {
            assert forall|k: int| 0 <= k < copies@.len() implies #[trigger] clauses_of(copies@)[k]
                == clauses_of(preconditions@)[k] by {
                assert(copies@.map_values(|p: CfgPrecondition| p@)[k] == copies@[k]@);
                assert(preconditions@.map_values(|p: CfgPrecondition| p@)[k]
                    == preconditions@[k]@);
            }
        }
    }
    let sorted = sort_preconditions(copies);
    let mut out: Vec<Precondition> = Vec::new();
    let mut k: usize = 0;
    proof {
        assert(clauses_of(sorted@).skip(0) =~= clauses_of(sorted@));
    }
    while k < sorted.len()
        invariant
            k <= sorted@.len(),
            dedup_adjacent(clauses_of(sorted@)) == out@.map_values(|p: Precondition| p@)
                + dedup_adjacent(clauses_of(sorted@).skip(k as int)),
        decreases sorted@.len() - k,
    {
        let ghost rest = clauses_of(sorted@).skip(k as int);
        let keep = if k + 1 < sorted.len() {
            !sorted[k].precondition.same_clause(&sorted[k + 1].precondition)
        } else {
            true
        };
        proof {
            assert(rest.len() == sorted@.len() - k);
            assert(rest[0] == clauses_of(sorted@)[k as int]);
            assert(clauses_of(sorted@)[k as int] == sorted@[k as int]@.clause);
            if k + 1 < sorted@.len() {
                assert(rest[1] == clauses_of(sorted@)[k as int + 1]);
                assert(clauses_of(sorted@)[k as int + 1] == sorted@[k as int + 1]@.clause);
            }
            assert(rest.skip(1) =~= clauses_of(sorted@).skip(k as int + 1));
        }
        if keep {
            let ghost old_out = out@;
            out.push(sorted[k].precondition.duplicate());
            proof {
                let f = |p: Precondition| p@;
                assert(out@.map_values(f) =~= old_out.map_values(f).push(
                    sorted@[k as int]@.clause,
                ));
                if k as int + 1 < sorted@.len() {
                    assert(dedup_adjacent(rest) == seq![rest[0]] + dedup_adjacent(rest.skip(1)));
                } else {
                    assert(rest.len() == 1);
                    assert(dedup_adjacent(rest) == rest);
                    assert(rest =~= seq![rest[0]] + dedup_adjacent(rest.skip(1)));
                    assert(rest.skip(1) =~= Seq::<Clause>::empty());
                    assert(dedup_adjacent(rest.skip(1)) =~= Seq::<Clause>::empty());
                }
                assert(dedup_adjacent(clauses_of(sorted@)) =~= out@.map_values(f)
                    + dedup_adjacent(clauses_of(sorted@).skip(k as int + 1)));
            }
        } else {
            proof {
                assert(dedup_adjacent(rest) == dedup_adjacent(rest.skip(1)));
            }
        }
        k = k + 1;
    }
    proof {
        assert(clauses_of(sorted@).skip(sorted@.len() as int) =~= Seq::<Clause>::empty());
        assert(dedup_adjacent(Seq::<Clause>::empty()) =~= Seq::<Clause>::empty());
        assert(dedup_adjacent(clauses_of(sorted@)) =~= out@.map_values(|p: Precondition| p@));
    }
    out
}

/// The texts of the boolean clauses of a precondition list, in order.
pub open spec fn boolean_exprs(cs: Seq<Clause>) -> Seq<Seq<char>>
    decreases cs.len(),
{
    if cs.len() == 0 {
        Seq::empty()
    } else {
        let rest = boolean_exprs(cs.skip(1));
        match cs[0] {
            Clause::Boolean { expr } => seq![expr] + rest,
            _ => rest,
        }
    }
}

/// The runtime self-checks for the boolean clauses of a precondition
/// list: one check per boolean clause. Each check is inserted in front of
/// the body in turn, so the last-declared clause ends up checked first.
pub fn debug_assert_exprs(preconditions: &Vec<CfgPrecondition>) -> (r: Vec<String>)
    ensures
        r@.map_values(|s: String| s@) == boolean_exprs(clauses_of(preconditions@)).reverse(),
{
    let mut out: Vec<String> = Vec::new();
    let mut i: usize = preconditions.len();
    proof {
        assert(clauses_of(preconditions@).skip(preconditions@.len() as int) =~= Seq::<
            Clause,
        >::empty());
        assert(boolean_exprs(Seq::<Clause>::empty()).reverse() =~= Seq::<Seq<char>>::empty());
        assert(out@.map_values(|s: String| s@) =~= Seq::<Seq<char>>::empty());
    }
    while i > 0
        invariant
            i <= preconditions@.len(),
            out@.map_values(|s: String| s@) == boolean_exprs(
                clauses_of(preconditions@).skip(i as int),
            ).reverse(),
        decreases i,
    {
        i = i - 1;
        let ghost rest = clauses_of(preconditions@).skip(i as int);
        proof {
            assert(rest.len() == preconditions@.len() - i);
            assert(rest[0] == clauses_of(preconditions@)[i as int]);
            assert(clauses_of(preconditions@)[i as int] == preconditions@[i as int]@.clause);
            assert(rest.skip(1) =~= clauses_of(preconditions@).skip(i as int + 1));
        }
        match &preconditions[i].precondition {
            Precondition::Boolean { expr } => {
                let ghost old_out = out@;
                out.push(expr.clone());
                proof {
                    let f = |s: String| s@;
                    assert(out@.map_values(f) =~= old_out.map_values(f).push(expr@));
                    assert(boolean_exprs(rest) == seq![expr@] + boolean_exprs(rest.skip(1)));
                    assert(boolean_exprs(rest).reverse() =~= boolean_exprs(
                        rest.skip(1),
                    ).reverse().push(expr@));
                }
            }
            _ => {
                proof {
                    assert(boolean_exprs(rest) == boolean_exprs(rest.skip(1)));
                }
            }
        }
    }
    proof {
        assert(clauses_of(preconditions@).skip(0) =~= clauses_of(preconditions@));
    }
    out
}

/// The field names of the nominal record, in canonical order.
fn nominal_fields(sorted: &Vec<CfgPrecondition>) -> (r: Vec<String>)
    ensures
        r@.map_values(|s: String| s@) == clauses_of(sorted@).map_values(
            |c: Clause| spec_render_as_ident(c),
        ),
{
    let mut r: Vec<String> = Vec::new();
    let mut i: usize = 0;
    while i < sorted.len()
        invariant
            i <= sorted@.len(),
            r@.map_values(|s: String| s@) == clauses_of(sorted@).take(i as int).map_values(
                |c: Clause| spec_render_as_ident(c),
            ),
        decreases sorted@.len() - i,
    {
        let ghost old_r = r@;
        let name = render_as_ident(&sorted[i].precondition);
        let ghost name_model = name@;
        r.push(name);
        proof {
            let f = |s: String| s@;
            let g = |c: Clause| spec_render_as_ident(c);
            assert(r@.map_values(f) =~= old_r.map_values(f).push(name_model));
            assert(clauses_of(sorted@)[i as int] == sorted@[i as int]@.clause);
            assert(clauses_of(sorted@).take(i as int + 1) =~= clauses_of(sorted@).take(
                i as int,
            ).push(clauses_of(sorted@)[i as int]));
            assert(clauses_of(sorted@).take(i as int + 1).map_values(g) =~= clauses_of(
                sorted@,
            ).take(i as int).map_values(g).push(g(clauses_of(sorted@)[i as int])));
        }
        i = i + 1;
    }
    proof {
        assert(clauses_of(sorted@).take(sorted@.len() as int) =~= clauses_of(sorted@));
    }
    r
}

/// Rewrites one declaration from its preconditions and flags.
///
/// Without preconditions the declaration stays as written. Otherwise the
/// hidden parameter is built by the selected encoder strategy over the
/// canonical ordering; the documentation list is ordered and
/// de-duplicated; the boolean self-checks are collected unless they are
/// suppressed; a boolean clause consisting of a bare identifier is
/// reported as a probable misspelled keyword; the nominal strategy
/// additionally reports methods as unsupported and combines the clauses'
/// conditional-compilation predicates.
pub fn render_pre(
    mode: EncoderMode,
    name: &str,
    is_method: bool,
    no_doc: bool,
    no_debug_assert: bool,
    preconditions: Vec<CfgPrecondition>,
) -> (r: (RewrittenDecl, Vec<Diagnostic>))
    ensures
        preconditions@.len() == 0 ==> r.0 is Unchanged && r.1@ == Seq::<Diagnostic>::empty(),
        preconditions@.len() > 0 && mode == EncoderMode::Record && is_method ==> r.0 is Unchanged
            && r.1@ == keyword_diags(clauses_of(preconditions@), 0) + seq![
            Diagnostic::MethodNotSupported,
        ],
        preconditions@.len() > 0 && !(mode == EncoderMode::Record && is_method) ==> ({
            &&& r.0 matches RewrittenDecl::Contracted { hidden, combined_cfg, doc_list, debug_asserts }
            &&& (match hidden {
                HiddenParamRepr::Markers(h) => mode == EncoderMode::Markers && h@
                    == encoding_of(clauses_of(preconditions@)),
                HiddenParamRepr::Record(t) => mode == EncoderMode::Record && t.name@ == name@
                    && t.fields@.map_values(|s: String| s@) == crate::encode::sorted_clauses(
                    clauses_of(preconditions@),
                ).map_values(|c: Clause| spec_render_as_ident(c)),
            })
            &&& (match doc_list {
                Some(ds) => !no_doc && ds@.map_values(|p: Precondition| p@) == dedup_adjacent(
                    crate::encode::sorted_clauses(clauses_of(preconditions@)),
                ),
                None => no_doc,
            })
            &&& (if no_debug_assert {
                debug_asserts@.len() == 0
            } else {
                debug_asserts@.map_values(|s: String| s@) == boolean_exprs(
                    clauses_of(preconditions@),
                ).reverse()
            })
            &&& (match combined_cfg {
                Some(cfg) => mode == EncoderMode::Record && preconditions@[0]@.cfg == Some(cfg@),
                None => mode == EncoderMode::Markers || preconditions@[0]@.cfg is None,
            })
            &&& (if mode == EncoderMode::Record {
                r.1@ == keyword_diags(clauses_of(preconditions@), 0) + spec_cfg_mismatches(
                    preconditions@.map_values(|p: CfgPrecondition| p@),
                    1,
                )
            } else {
                r.1@ == keyword_diags(clauses_of(preconditions@), 0)
            })
        }),
{
    let mut diags = check_keywords(&preconditions);
    if preconditions.len() == 0 {
        let empty: Vec<Diagnostic> = Vec::new();
        proof {
            assert(keyword_diags(clauses_of(preconditions@), 0) =~= Seq::<Diagnostic>::empty());
            assert(empty@ =~= Seq::<Diagnostic>::empty());
        }
        return (RewrittenDecl::Unchanged, empty);
    }
    if is_method {
        match mode {
            EncoderMode::Record => {
                diags.push(Diagnostic::MethodNotSupported);
                proof {
                    assert(diags@ =~= keyword_diags(clauses_of(preconditions@), 0) + seq![
                        Diagnostic::MethodNotSupported,
                    ]);
                }
                return (RewrittenDecl::Unchanged, diags);
            }
            EncoderMode::Markers => {}
        }
    }
    let doc_list: Option<Vec<Precondition>> = if no_doc {
        None
    } else {
        Some(doc_preconditions(&preconditions))
    };
    let debug_asserts: Vec<String> = if no_debug_assert {
        Vec::new()
    } else {
        debug_assert_exprs(&preconditions)
    };
    match mode {
        EncoderMode::Markers => {
            let hidden = encode_for_declaration(preconditions);
            (
                RewrittenDecl::Contracted {
                    hidden: HiddenParamRepr::Markers(hidden),
                    combined_cfg: None,
                    doc_list,
                    debug_asserts,
                },
                diags,
            )
        }
        EncoderMode::Record => {
            let (combined_cfg, mut cfg_diags) = combine_cfg(&preconditions);
            diags.append(&mut cfg_diags);
            let sorted = sort_preconditions(preconditions);
            let fields = nominal_fields(&sorted);
            let name_chars = str_chars(name);
            let record_name = crate::text::chars_to_string(&name_chars);
            (
                RewrittenDecl::Contracted {
                    hidden: HiddenParamRepr::Record(
                        NominalType { name: record_name, fields },
                    ),
                    combined_cfg,
                    doc_list,
                    debug_asserts,
                },
                diags,
            )
        }
    }
}

/// The diagnostics for boolean clauses that consist of one bare
/// identifier, which is probably a misspelled keyword.
pub open spec fn keyword_diags(cs: Seq<Clause>, i: int) -> Seq<Diagnostic>
    decreases cs.len() - i,
{
    if i < 0 || i >= cs.len() {
        Seq::empty()
    } else {
        let rest = keyword_diags(cs, i + 1);
        if is_bare_ident_clause(cs[i]) {
            seq![Diagnostic::UnknownKeyword] + rest
        } else {
            rest
        }
    }
}

/// Whether a clause is a boolean clause whose whole text is one
/// identifier.
pub open spec fn is_bare_ident_clause(c: Clause) -> bool {
    match c {
        Clause::Boolean { expr } => crate::text::is_ident_text(expr),
        _ => false,
    }
}

/// Reports each boolean clause that consists of one bare identifier.
fn check_keywords(preconditions: &Vec<CfgPrecondition>) -> (r: Vec<Diagnostic>)
    ensures
        r@ == keyword_diags(clauses_of(preconditions@), 0),
{
    let ghost cs = clauses_of(preconditions@);
    let mut diags: Vec<Diagnostic> = Vec::new();
    let mut i: usize = 0;
    proof {
        assert(keyword_diags(cs, 0) =~= diags@ + keyword_diags(cs, 0));
    }
    while i < preconditions.len()
        invariant
            i <= preconditions@.len(),
            cs == clauses_of(preconditions@),
            keyword_diags(cs, 0) == diags@ + keyword_diags(cs, i as int),
        decreases preconditions@.len() - i,
    {
        proof {
            assert(cs[i as int] == preconditions@[i as int]@.clause);
        }
        let bare = match &preconditions[i].precondition {
            Precondition::Boolean { expr } => {
                let ev = str_chars(expr.as_str());
                is_ident_vec(&ev)
            }
            _ => false,
        };
        if bare {
            diags.push(Diagnostic::UnknownKeyword);
        }
        proof {
            assert(bare == is_bare_ident_clause(cs[i as int]));
            assert(keyword_diags(cs, i as int) == (if is_bare_ident_clause(cs[i as int]) {
                seq![Diagnostic::UnknownKeyword] + keyword_diags(cs, i as int + 1)
            } else {
                keyword_diags(cs, i as int + 1)
            }));
            assert(keyword_diags(cs, 0) =~= diags@ + keyword_diags(cs, i as int + 1));
        }
        i = i + 1;
    }
    proof {
        assert(keyword_diags(cs, preconditions@.len() as int) =~= Seq::<Diagnostic>::empty());
        assert(keyword_diags(cs, 0) =~= diags@);
    }
    diags
}

/// Whether a character vector is one well-formed identifier.
pub fn is_ident_vec(v: &Vec<char>) -> (r: bool)
    ensures
        r == crate::text::is_ident_text(v@),
{
    if v.len() == 0 {
        return false;
    }
    if !crate::text::ident_start_char(v[0]) {
        return false;
    }
    let mut i: usize = 0;
    while i < v.len()
        invariant
            i <= v@.len(),
            v@.len() > 0,
            crate::text::is_ident_start(v@[0]),
            forall|k: int| 0 <= k < i ==> crate::text::is_ident_char(#[trigger] v@[k]),
        decreases v@.len() - i,
    {
        if !crate::text::ident_char(v[i]) {
            return false;
        }
        i = i + 1;
    }
    true
}


/// The clause sequence of a precondition-model list.
pub open spec fn clauses_of_models(ps: Seq<crate::precondition::CfgClause>) -> Seq<Clause> {
    ps.map_values(|c: crate::precondition::CfgClause| c.clause)
}

/// Rewrites one declaration straight from its attribute list: the engine's
/// whole declaration pass. The `pre` annotations are collected and removed
/// (malformed carriers are reported and left in place), the flags and the
/// precondition list are read out of them, and the declaration is
/// rewritten as `render_pre` describes; the scan's diagnostics come first.
pub fn process_declaration(
    mode: EncoderMode,
    name: &str,
    is_method: bool,
    attrs: Vec<crate::attrs::RawAttr>,
    alias: &str,
) -> (r: (RewrittenDecl, Vec<crate::attrs::RawAttr>, Vec<Diagnostic>))
    ensures
        ({
            let scan = crate::attrs::spec_scan_pre(
                attrs@.map_values(|x: crate::attrs::RawAttr| x@),
                alias@,
                0,
            );
            let pres = crate::attrs::spec_collected_preconditions(scan.collected, 0);
            let cs = clauses_of_models(pres);
            let no_doc = crate::attrs::spec_any_no_doc(scan.collected);
            let no_debug_assert = crate::attrs::spec_any_no_debug_assert(scan.collected);
            &&& r.1@.map_values(|x: crate::attrs::RawAttr| x@) == scan.kept
            &&& (pres.len() == 0 ==> r.0 is Unchanged && r.2@ == scan.diags)
            &&& (pres.len() > 0 && mode == EncoderMode::Record && is_method ==> r.0 is Unchanged
                && r.2@ == scan.diags + keyword_diags(cs, 0) + seq![
                Diagnostic::MethodNotSupported,
            ])
            &&& (pres.len() > 0 && !(mode == EncoderMode::Record && is_method) ==> {
                &&& r.0 matches RewrittenDecl::Contracted {
                    hidden,
                    combined_cfg,
                    doc_list,
                    debug_asserts,
                }
                &&& (match hidden {
                    HiddenParamRepr::Markers(h) => mode == EncoderMode::Markers && h@
                        == encoding_of(cs),
                    HiddenParamRepr::Record(t) => mode == EncoderMode::Record && t.name@ == name@
                        && t.fields@.map_values(|s: String| s@) == crate::encode::sorted_clauses(
                        cs,
                    ).map_values(|c: Clause| spec_render_as_ident(c)),
                })
                &&& (match doc_list {
                    Some(ds) => !no_doc && ds@.map_values(|p: Precondition| p@) == dedup_adjacent(
                        crate::encode::sorted_clauses(cs),
                    ),
                    None => no_doc,
                })
                &&& (if no_debug_assert {
                    debug_asserts@.len() == 0
                } else {
                    debug_asserts@.map_values(|s: String| s@) == boolean_exprs(cs).reverse()
                })
                &&& (match combined_cfg {
                    Some(cfg) => mode == EncoderMode::Record && pres[0].cfg == Some(cfg@),
                    None => mode == EncoderMode::Markers || pres[0].cfg is None,
                })
                &&& (if mode == EncoderMode::Record {
                    r.2@ == scan.diags + keyword_diags(cs, 0) + spec_cfg_mismatches(pres, 1)
                } else {
                    r.2@ == scan.diags + keyword_diags(cs, 0)
                })
            })
        }),
{
    let (collected, kept, mut diags) = crate::attrs::scan_pre_attrs(&attrs, alias);
    let (no_doc, no_debug_assert, preconditions) = crate::attrs::collect_declaration_input(
        collected,
    );
    proof {
        let scan = crate::attrs::spec_scan_pre(
            attrs@.map_values(|x: crate::attrs::RawAttr| x@),
            alias@,
            0,
        );
        let pres = crate::attrs::spec_collected_preconditions(scan.collected, 0);
        assert(preconditions@.map_values(|p: CfgPrecondition| p@) == pres);
        assert(preconditions@.map_values(|p: CfgPrecondition| p@).len()
            == preconditions@.len());
        assert forall|k: int| 0 <= k < preconditions@.len() implies #[trigger] clauses_of(
            preconditions@,
        )[k] == clauses_of_models(pres)[k] by {
            assert(preconditions@.map_values(|p: CfgPrecondition| p@)[k]
                == preconditions@[k]@);
            assert(clauses_of_models(pres)[k] == pres[k].clause);
        }
        assert(clauses_of(preconditions@) =~= clauses_of_models(pres));
    }
    let (decl, mut render_diags) = render_pre(
        mode,
        name,
        is_method,
        no_doc,
        no_debug_assert,
        preconditions,
    );
    diags.append(&mut render_diags);
    (decl, kept, diags)
}

} // verus!
