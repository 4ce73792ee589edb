//! The precondition model: a single clause, its display rendering, and the
//! canonical total order over clauses that every declaration and call site
//! applies alike, so that set equality reduces to sequence equality after
//! sorting.

use vstd::prelude::*;

use crate::diag::Diagnostic;
use crate::text::{
    chars_eq, chars_to_string, lemma_lex_le_antisymmetric, lemma_lex_le_connected,
    lemma_lex_le_transitive, lex_le, lex_le_chars, str_chars,
};

verus! {

/// The access modes a pointer precondition can demand.
#[derive(Clone, Copy, PartialEq, Eq, Structural, Debug)]
pub enum Access {
    /// The pointer must be valid for reads.
    Read,
    /// The pointer must be valid for writes.
    Write,
    /// The pointer must be valid for reads and writes.
    Both,
}

impl Access {
    /// The text rendering of the access mode, as it appears in annotations.
    pub open spec fn spec_render(&self) -> Seq<char> {
        match self {
            Access::Read => seq!['r'],
            Access::Write => seq!['w'],
            Access::Both => seq!['r', '+', 'w'],
        }
    }

    /// A fixed rank used only to order access modes deterministically.
    pub open spec fn spec_rank(&self) -> int {
        match self {
            Access::Read => 0,
            Access::Write => 1,
            Access::Both => 2,
        }
    }

    /// Runtime rendering of the access mode.
    pub fn render_chars(&self) -> (r: Vec<char>)
        ensures
            r@ == self.spec_render(),
    {
        let mut v: Vec<char> = Vec::new();
        match self {
            Access::Read => {
                v.push('r');
            }
            Access::Write => {
                v.push('w');
            }
            Access::Both => {
                v.push('r');
                v.push('+');
                v.push('w');
            }
        }
        proof {
            assert(v@ =~= self.spec_render());
        }
        v
    }

    /// Runtime rank of the access mode.
    pub fn rank(&self) -> (r: u8)
        ensures
            r as int == self.spec_rank(),
    {
        match self {
            Access::Read => 0,
            Access::Write => 1,
            Access::Both => 2,
        }
    }
}

/// The mathematical model of a single precondition clause.
pub enum Clause {
    /// The named pointer argument must be valid for the given accesses.
    ValidPtr { ident: Seq<char>, access: Access },
    /// The named pointer argument must have a type-correct alignment.
    ProperAlign { ident: Seq<char> },
    /// An expression that must evaluate to true, held as its canonical text.
    Boolean { expr: Seq<char> },
    /// An arbitrary descriptive string.
    Custom { text: Seq<char> },
}

impl Clause {
    /// The fixed priority of the clause kind in the canonical order.
    pub open spec fn rank(&self) -> int {
        match self {
            Clause::ValidPtr { .. } => 0,
            Clause::ProperAlign { .. } => 1,
            Clause::Boolean { .. } => 2,
            Clause::Custom { .. } => 3,
        }
    }
}

/// The canonical total order over clauses: primarily by kind, secondarily by
/// identifier or textual content (and, for pointer clauses with one
/// identifier, by access mode), so that sorting is deterministic and two
/// equal sets sort to equal sequences.
pub open spec fn clause_le(a: Clause, b: Clause) -> bool {
    if a.rank() != b.rank() {
        a.rank() < b.rank()
    } else {
        match (a, b) {
            (
                Clause::ValidPtr { ident: ia, access: aa },
                Clause::ValidPtr { ident: ib, access: ab },
            ) => {
                if ia == ib {
                    aa.spec_rank() <= ab.spec_rank()
                } else {
                    lex_le(ia, ib)
                }
            }
            (Clause::ProperAlign { ident: ia }, Clause::ProperAlign { ident: ib }) => lex_le(
                ia,
                ib,
            ),
            (Clause::Boolean { expr: ea }, Clause::Boolean { expr: eb }) => lex_le(ea, eb),
            (Clause::Custom { text: ta }, Clause::Custom { text: tb }) => lex_le(ta, tb),
            _ => false,
        }
    }
}

/// `clause_le` is reflexive.
pub proof fn lemma_clause_le_reflexive(a: Clause)
    ensures
        clause_le(a, a),
{
    match a {
        Clause::ValidPtr { ident, access } => {}
        Clause::ProperAlign { ident } => lemma_lex_le_connected(ident, ident),
        Clause::Boolean { expr } => lemma_lex_le_connected(expr, expr),
        Clause::Custom { text } => lemma_lex_le_connected(text, text),
    }
}

/// `clause_le` is antisymmetric: mutually ordered clauses are equal.
pub proof fn lemma_clause_le_antisymmetric(a: Clause, b: Clause)
    requires
        clause_le(a, b),
        clause_le(b, a),
    ensures
        a == b,
{
    match (a, b) {
        (
            Clause::ValidPtr { ident: ia, access: aa },
            Clause::ValidPtr { ident: ib, access: ab },
        ) => {
            if ia == ib {
                assert(aa.spec_rank() == ab.spec_rank());
                assert(aa == ab);
            } else {
                lemma_lex_le_antisymmetric(ia, ib);
            }
        }
        (Clause::ProperAlign { ident: ia }, Clause::ProperAlign { ident: ib }) => {
            lemma_lex_le_antisymmetric(ia, ib);
        }
        (Clause::Boolean { expr: ea }, Clause::Boolean { expr: eb }) => {
            lemma_lex_le_antisymmetric(ea, eb);
        }
        (Clause::Custom { text: ta }, Clause::Custom { text: tb }) => {
            lemma_lex_le_antisymmetric(ta, tb);
        }
        _ => {}
    }
}

/// `clause_le` is transitive.
pub proof fn lemma_clause_le_transitive(a: Clause, b: Clause, c: Clause)
    requires
        clause_le(a, b),
        clause_le(b, c),
    ensures
        clause_le(a, c),
{
    if a.rank() == b.rank() && b.rank() == c.rank() {
        match (a, b, c) {
            (
                Clause::ValidPtr { ident: ia, access: aa },
                Clause::ValidPtr { ident: ib, access: ab },
                Clause::ValidPtr { ident: ic, access: ac },
            ) => {
                if ia == ib && ib == ic {
                } else if ia == ib {
                } else if ib == ic {
                } else {
                    lemma_lex_le_transitive(ia, ib, ic);
                    if ia == ic {
                        lemma_lex_le_antisymmetric(ia, ib);
                    }
                }
            }
            (
                Clause::ProperAlign { ident: ia },
                Clause::ProperAlign { ident: ib },
                Clause::ProperAlign { ident: ic },
            ) => {
                lemma_lex_le_transitive(ia, ib, ic);
            }
            (
                Clause::Boolean { expr: ea },
                Clause::Boolean { expr: eb },
                Clause::Boolean { expr: ec },
            ) => {
                lemma_lex_le_transitive(ea, eb, ec);
            }
            (
                Clause::Custom { text: ta },
                Clause::Custom { text: tb },
                Clause::Custom { text: tc },
            ) => {
                lemma_lex_le_transitive(ta, tb, tc);
            }
            _ => {}
        }
    }
}

/// Any two clauses are ordered one way or the other.
pub proof fn lemma_clause_le_connected(a: Clause, b: Clause)
    ensures
        clause_le(a, b) || clause_le(b, a),
{
    if a.rank() == b.rank() {
        match (a, b) {
            (
                Clause::ValidPtr { ident: ia, access: aa },
                Clause::ValidPtr { ident: ib, access: ab },
            ) => {
                lemma_lex_le_connected(ia, ib);
            }
            (Clause::ProperAlign { ident: ia }, Clause::ProperAlign { ident: ib }) => {
                lemma_lex_le_connected(ia, ib);
            }
            (Clause::Boolean { expr: ea }, Clause::Boolean { expr: eb }) => {
                lemma_lex_le_connected(ea, eb);
            }
            (Clause::Custom { text: ta }, Clause::Custom { text: tb }) => {
                lemma_lex_le_connected(ta, tb);
            }
            _ => {}
        }
    }
}

/// `clause_le` is a total ordering in the sense of `vstd::relations`.
pub proof fn lemma_clause_le_total_ordering()
    ensures
        vstd::relations::total_ordering(|a: Clause, b: Clause| clause_le(a, b)),
{
    let leq = |a: Clause, b: Clause| clause_le(a, b);
    assert forall|a: Clause| #[trigger] leq(a, a) by {
        lemma_clause_le_reflexive(a);
    }
    assert forall|a: Clause, b: Clause| #[trigger] leq(a, b) && #[trigger] leq(b, a) implies a
        == b by {
        lemma_clause_le_antisymmetric(a, b);
    }
    assert forall|a: Clause, b: Clause, c: Clause|
        #[trigger] leq(a, b) && #[trigger] leq(b, c) implies leq(a, c) by {
        lemma_clause_le_transitive(a, b, c);
    }
    assert forall|a: Clause, b: Clause| #[trigger] leq(a, b) || #[trigger] leq(b, a) by {
        lemma_clause_le_connected(a, b);
    }
}

/// How two clauses stand in the canonical order.
#[derive(Clone, Copy, PartialEq, Eq, Structural, Debug)]
pub enum ClauseOrder {
    /// The first clause comes strictly first.
    Less,
    /// The clauses are the same.
    Equal,
    /// The first clause comes strictly later.
    Greater,
}

/// A single precondition clause, as parsed from an annotation.
#[derive(Debug)]
pub enum Precondition {
    /// The named pointer argument must be valid for the given accesses.
    ValidPtr { ident: String, access: Access },
    /// The named pointer argument must have a type-correct alignment.
    ProperAlign { ident: String },
    /// An expression that must evaluate to true, held as its canonical text.
    Boolean { expr: String },
    /// An arbitrary descriptive string.
    Custom { text: String },
}

impl View for Precondition {
    type V = Clause;

    open spec fn view(&self) -> Clause {
        match self {
            Precondition::ValidPtr { ident, access } => Clause::ValidPtr {
                ident: ident@,
                access: *access,
            },
            Precondition::ProperAlign { ident } => Clause::ProperAlign { ident: ident@ },
            Precondition::Boolean { expr } => Clause::Boolean { expr: expr@ },
            Precondition::Custom { text } => Clause::Custom { text: text@ },
        }
    }
}

/// The escape used when rendering a custom clause as a quoted string:
/// quotes, backslashes and the common control characters get a backslash
/// escape; every other character stands for itself.
pub open spec fn escape_char(c: char) -> Seq<char> {
    if c == '"' {
        seq!['\\', '"']
    } else if c == '\\' {
        seq!['\\', '\\']
    } else if c == '\n' {
        seq!['\\', 'n']
    } else if c == '\r' {
        seq!['\\', 'r']
    } else if c == '\t' {
        seq!['\\', 't']
    } else if c == '\0' {
        seq!['\\', '0']
    } else {
        seq![c]
    }
}

/// The escaped form of a whole character sequence.
pub open spec fn escape_text(s: Seq<char>) -> Seq<char>
    decreases s.len(),
{
    if s.len() == 0 {
        Seq::empty()
    } else {
        escape_char(s[0]) + escape_text(s.skip(1))
    }
}

/// The display rendering of a clause: the form in which it is written in an
/// annotation, with one canonical spacing.
pub open spec fn spec_display(c: Clause) -> Seq<char> {
    match c {
        Clause::ValidPtr { ident, access } => "valid_ptr("@ + ident + ", "@ + access.spec_render()
            + ")"@,
        Clause::ProperAlign { ident } => "proper_align("@ + ident + ")"@,
        Clause::Boolean { expr } => expr,
        Clause::Custom { text } => "\""@ + escape_text(text) + "\""@,
    }
}

impl Precondition {
    /// A copy of this precondition with the same model.
    pub fn duplicate(&self) -> (r: Self)
        ensures
            r@ == self@,
    {
        match self {
            Precondition::ValidPtr { ident, access } => Precondition::ValidPtr {
                ident: ident.clone(),
                access: *access,
            },
            Precondition::ProperAlign { ident } => Precondition::ProperAlign {
                ident: ident.clone(),
            },
            Precondition::Boolean { expr } => Precondition::Boolean { expr: expr.clone() },
            Precondition::Custom { text } => Precondition::Custom { text: text.clone() },
        }
    }

    /// The display rendering, as characters.
    pub fn display_chars(&self) -> (r: Vec<char>)
        ensures
            r@ == spec_display(self@),
    {
        match self {
            Precondition::ValidPtr { ident, access } => {
                let mut out = str_chars("valid_ptr(");
                let mut id = str_chars(ident.as_str());
                out.append(&mut id);
                let mut sep = str_chars(", ");
                out.append(&mut sep);
                let mut acc = access.render_chars();
                out.append(&mut acc);
                out.push(')');
                proof {
                    assert(seq![')'] =~= ")"@) by {
                        reveal_strlit(")");
                    }
                    assert(out@ =~= spec_display(self@));
                }
                out
            }
            Precondition::ProperAlign { ident } => {
                let mut out = str_chars("proper_align(");
                let mut id = str_chars(ident.as_str());
                out.append(&mut id);
                out.push(')');
                proof {
                    assert(seq![')'] =~= ")"@) by {
                        reveal_strlit(")");
                    }
                    assert(out@ =~= spec_display(self@));
                }
                out
            }
            Precondition::Boolean { expr } => {
                let out = str_chars(expr.as_str());
                out
            }
            Precondition::Custom { text } => {
                let mut out: Vec<char> = Vec::new();
                out.push('"');
                let tv = str_chars(text.as_str());
                let mut esc = escape_chars(&tv);
                out.append(&mut esc);
                out.push('"');
                proof {
                    assert(seq!['"'] =~= "\""@) by {
                        reveal_strlit("\"");
                    }
                    assert(out@ =~= spec_display(self@));
                }
                out
            }
        }
    }

    /// The display rendering, as a string.
    pub fn display_string(&self) -> (r: String)
        ensures
            r@ == spec_display(self@),
    {
        let v = self.display_chars();
        chars_to_string(&v)
    }

    /// Runtime check of the canonical order between two preconditions.
    pub fn le(&self, other: &Precondition) -> (r: bool)
        ensures
            r == clause_le(self@, other@),
    {
        let ra = self.kind_rank();
        let rb = other.kind_rank();
        if ra != rb {
            return ra < rb;
        }
        match (self, other) {
            (
                Precondition::ValidPtr { ident: ia, access: aa },
                Precondition::ValidPtr { ident: ib, access: ab },
            ) => {
                let va = str_chars(ia.as_str());
                let vb = str_chars(ib.as_str());
                if chars_eq(&va, &vb) {
                    aa.rank() <= ab.rank()
                } else {
                    lex_le_chars(&va, &vb)
                }
            }
            (Precondition::ProperAlign { ident: ia }, Precondition::ProperAlign { ident: ib }) => {
                let va = str_chars(ia.as_str());
                let vb = str_chars(ib.as_str());
                lex_le_chars(&va, &vb)
            }
            (Precondition::Boolean { expr: ea }, Precondition::Boolean { expr: eb }) => {
                let va = str_chars(ea.as_str());
                let vb = str_chars(eb.as_str());
                lex_le_chars(&va, &vb)
            }
            (Precondition::Custom { text: ta }, Precondition::Custom { text: tb }) => {
                let va = str_chars(ta.as_str());
                let vb = str_chars(tb.as_str());
                lex_le_chars(&va, &vb)
            }
            _ => {
                proof {
                    assert(false);
                }
                false
            }
        }
    }

    /// Compares two preconditions under the canonical order.
    pub fn compare(&self, other: &Precondition) -> (r: ClauseOrder)
        ensures
            r == ClauseOrder::Equal <==> self@ == other@,
            r == ClauseOrder::Less <==> clause_le(self@, other@) && self@ != other@,
            r == ClauseOrder::Greater <==> clause_le(other@, self@) && self@ != other@,
    {
        let forward_le = self.le(other);
        let backward_le = other.le(self);
        proof {
            if forward_le && backward_le {
                lemma_clause_le_antisymmetric(self@, other@);
            }
            if self@ == other@ {
                lemma_clause_le_reflexive(self@);
            }
            lemma_clause_le_connected(self@, other@);
        }
        if forward_le && backward_le {
            ClauseOrder::Equal
        } else if forward_le {
            ClauseOrder::Less
        } else {
            ClauseOrder::Greater
        }
    }

    /// Whether two preconditions have the same model.
    pub fn same_clause(&self, other: &Precondition) -> (r: bool)
        ensures
            r == (self@ == other@),
    {
        let first = self.le(other);
        let second = other.le(self);
        proof {
            if first && second {
                lemma_clause_le_antisymmetric(self@, other@);
            }
            if self@ == other@ {
                lemma_clause_le_reflexive(self@);
            }
        }
        first && second
    }

    /// The fixed kind priority, at runtime.
    pub fn kind_rank(&self) -> (r: u8)
        ensures
            r as int == self@.rank(),
    {
        match self {
            Precondition::ValidPtr { .. } => 0,
            Precondition::ProperAlign { .. } => 1,
            Precondition::Boolean { .. } => 2,
            Precondition::Custom { .. } => 3,
        }
    }
}

/// The escape of one character, at runtime.
pub fn escape_one(c: char) -> (r: Vec<char>)
    ensures
        r@ == escape_char(c),
{
    let mut r: Vec<char> = Vec::new();
    if c == '"' {
        r.push('\\');
        r.push('"');
    } else if c == '\\' {
        r.push('\\');
        r.push('\\');
    } else if c == '\n' {
        r.push('\\');
        r.push('n');
    } else if c == '\r' {
        r.push('\\');
        r.push('r');
    } else if c == '\t' {
        r.push('\\');
        r.push('t');
    } else if c == '\0' {
        r.push('\\');
        r.push('0');
    } else {
        r.push(c);
    }
    proof {
        assert(r@ =~= escape_char(c));
    }
    r
}

/// Runtime escaping of a character vector, as `escape_text` describes.
pub fn escape_chars(s: &Vec<char>) -> (r: Vec<char>)
    ensures
        r@ == escape_text(s@),
{
    let mut r: Vec<char> = Vec::new();
    let mut i: usize = 0;
    proof {
        assert(s@.take(0) =~= Seq::<char>::empty());
    }
    while i < s.len()
        invariant
            i <= s@.len(),
            r@ == escape_text(s@.take(i as int)),
        decreases s@.len() - i,
    {
        let c = s[i];
        let mut e = escape_one(c);
        r.append(&mut e);
        proof {
            lemma_escape_text_take_step(s@, i as int);
        }
        i = i + 1;
    }
    proof {
        assert(s@.take(s@.len() as int) =~= s@);
    }
    r
}

/// Escaping one more character appends that character's escape.
proof fn lemma_escape_text_take_step(s: Seq<char>, i: int)
    requires
        0 <= i < s.len(),
    ensures
        escape_text(s.take(i + 1)) == escape_text(s.take(i)) + escape_char(s[i]),
    decreases i,
{
    if i == 0 {
        assert(s.take(1).len() == 1);
        assert(s.take(1)[0] == s[0]);
        assert(s.take(1).skip(1) =~= Seq::<char>::empty());
        assert(s.take(0) =~= Seq::<char>::empty());
        assert(escape_text(Seq::<char>::empty()) =~= Seq::<char>::empty());
        assert(escape_text(s.take(1)) == escape_char(s.take(1)[0]) + escape_text(
            s.take(1).skip(1),
        ));
        assert(escape_text(s.take(1)) =~= escape_char(s[0]));
        assert(escape_text(s.take(0)) + escape_char(s[0]) =~= escape_char(s[0]));
    } else {
        let t = s.skip(1);
        lemma_escape_text_take_step(t, i - 1);
        assert(s.take(i + 1)[0] == s[0]);
        assert(s.take(i + 1).skip(1) =~= t.take(i));
        assert(s.take(i).skip(1) =~= t.take(i - 1));
        assert(t[i - 1] == s[i]);
        assert(escape_text(s.take(i + 1)) == escape_char(s[0]) + escape_text(t.take(i)));
        assert(escape_text(s.take(i)) == escape_char(s[0]) + escape_text(t.take(i - 1)));
        assert(escape_char(s[0]) + (escape_text(t.take(i - 1)) + escape_char(t[i - 1]))
            =~= (escape_char(s[0]) + escape_text(t.take(i - 1))) + escape_char(t[i - 1]));
    }
}

/// The conditional-compilation predicate attached to a clause, held as its
/// source text; clauses without a predicate hold `None`.
#[derive(Debug)]
pub struct CfgPrecondition {
    /// The precondition itself.
    pub precondition: Precondition,
    /// The conditional-compilation predicate applying to it, if any.
    pub cfg: Option<String>,
}

/// The model of a clause together with its optional predicate.
pub struct CfgClause {
    /// The clause itself.
    pub clause: Clause,
    /// The predicate text, if any.
    pub cfg: Option<Seq<char>>,
}

impl View for CfgPrecondition {
    type V = CfgClause;

    open spec fn view(&self) -> CfgClause {
        CfgClause {
            clause: self.precondition@,
            cfg: match &self.cfg {
                Some(s) => Some(s@),
                None => None,
            },
        }
    }
}

impl CfgPrecondition {
    /// The raw precondition.
    pub fn precondition(&self) -> (r: &Precondition)
        ensures
            r@ == self@.clause,
    {
        &self.precondition
    }

    /// A copy of this value with the same model.
    pub fn duplicate(&self) -> (r: Self)
        ensures
            r@ == self@,
    {
        CfgPrecondition {
            precondition: self.precondition.duplicate(),
            cfg: match &self.cfg {
                Some(s) => Some(s.clone()),
                None => None,
            },
        }
    }
}

/// The diagnostics that `combine_cfg` reports: one mismatch error for each
/// clause from position 1 on whose predicate differs syntactically from the
/// first clause's predicate.
pub open spec fn spec_cfg_mismatches(ps: Seq<CfgClause>, i: int) -> Seq<Diagnostic>
    decreases ps.len() - i,
{
    if i < 1 || i >= ps.len() {
        Seq::empty()
    } else if ps[i].cfg != ps[0].cfg {
        seq![Diagnostic::MismatchedCfg { index: i as usize }] + spec_cfg_mismatches(ps, i + 1)
    } else {
        spec_cfg_mismatches(ps, i + 1)
    }
}

/// Combines the predicates of all clauses feeding one encoding: all must be
/// syntactically identical (or all absent). The first predicate is returned
/// as the combined one; every later clause whose predicate differs gets a
/// mismatch error.
pub fn combine_cfg(preconditions: &Vec<CfgPrecondition>) -> (r: (Option<String>, Vec<Diagnostic>))
    ensures
        preconditions@.len() == 0 ==> r.0 is None,
        preconditions@.len() > 0 ==> cfg_text_model(&r.0) == preconditions@[0]@.cfg,
        r.1@ == spec_cfg_mismatches(preconditions@.map_values(|p: CfgPrecondition| p@), 1),
{
    let ghost model = preconditions@.map_values(|p: CfgPrecondition| p@);
    let mut diags: Vec<Diagnostic> = Vec::new();
    if preconditions.len() == 0 {
        proof {
            assert(diags@ =~= spec_cfg_mismatches(model, 1));
        }
        return (None, diags);
    }
    let first: Option<&String> = match &preconditions[0].cfg {
        Some(s) => Some(s),
        None => None,
    };
    let mut i: usize = 1;
    proof {
        assert(spec_cfg_mismatches(model, 1) =~= diags@ + spec_cfg_mismatches(model, 1));
    }
    while i < preconditions.len()
        invariant
            1 <= i <= preconditions@.len(),
            model == preconditions@.map_values(|p: CfgPrecondition| p@),
            cfg_ref_model(&first) == model[0].cfg,
            spec_cfg_mismatches(model, 1) == diags@ + spec_cfg_mismatches(model, i as int),
        decreases preconditions@.len() - i,
    {
        let current: Option<&String> = match &preconditions[i].cfg {
            Some(s) => Some(s),
            None => None,
        };
        let same = match (&first, &current) {
            (None, None) => true,
            (Some(a), Some(b)) => {
                let va = str_chars(a.as_str());
                let vb = str_chars(b.as_str());
                chars_eq(&va, &vb)
            }
            _ => false,
        };
        proof {
            assert(cfg_ref_model(&current) == model[i as int].cfg);
            assert(same == (model[i as int].cfg == model[0].cfg));
        }
        if !same {
            diags.push(Diagnostic::MismatchedCfg { index: i });
        }
        proof {
            assert(spec_cfg_mismatches(model, i as int) == (if model[i as int].cfg != model[0].cfg {
                seq![Diagnostic::MismatchedCfg { index: i as usize }] + spec_cfg_mismatches(
                    model,
                    i as int + 1,
                )
            } else {
                spec_cfg_mismatches(model, i as int + 1)
            }));
            assert(spec_cfg_mismatches(model, 1) =~= diags@ + spec_cfg_mismatches(
                model,
                i as int + 1,
            ));
        }
        i = i + 1;
    }
    proof {
        assert(spec_cfg_mismatches(model, preconditions@.len() as int) =~= Seq::<
            Diagnostic,
        >::empty());
        assert(spec_cfg_mismatches(model, 1) =~= diags@);
    }
    let combined: Option<String> = match first {
        Some(s) => Some(s.clone()),
        None => None,
    };
    (combined, diags)
}

/// The model of an optional predicate held by value.
pub open spec fn cfg_text_model(c: &Option<String>) -> Option<Seq<char>> {
    match c {
        Some(s) => Some(s@),
        None => None,
    }
}

/// The model of an optional predicate held by reference.
pub open spec fn cfg_ref_model(c: &Option<&String>) -> Option<Seq<char>> {
    match c {
        Some(s) => Some(s@),
        None => None,
    }
}

} // verus!
