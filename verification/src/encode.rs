//! The contract encoder: turns a canonical precondition list into the hidden
//! parameter of a declaration and the hidden argument of a call, such that
//! the two are structurally equal exactly when the precondition sets are
//! equal. The encoder never raises a contract mismatch itself: it only makes
//! mismatches visible as ordinary type and arity disagreements.

use vstd::prelude::*;

use crate::precondition::{
    clause_le, lemma_clause_le_total_ordering, Access, CfgPrecondition, Clause, Precondition,
};
use vstd::multiset::Multiset;
use vstd::relations::sorted_by;
use vstd::seq_lib::lemma_sorted_unique;

verus! {

broadcast use vstd::seq_lib::group_to_multiset_ensures, vstd::multiset::group_multiset_axioms;

/// A declaration that a custom condition holds; one marker of an encoding.
#[derive(Debug)]
pub struct CustomConditionHolds {
    /// The condition text.
    pub condition: String,
}

/// A declaration that the pointer named `ptr` is valid for the accesses
/// named by `access_type`; one marker of an encoding.
#[derive(Debug)]
pub struct ValidPtrConditionHolds {
    /// The name of the pointer argument.
    pub ptr: String,
    /// The access mode text: `r`, `w` or `r+w`.
    pub access_type: String,
}

/// A declaration that the pointer named `ptr` has a type-correct alignment;
/// one marker of an encoding.
#[derive(Debug)]
pub struct ProperAlignConditionHolds {
    /// The name of the pointer argument.
    pub ptr: String,
}

/// A declaration that a boolean condition holds; one marker of an encoding.
#[derive(Debug)]
pub struct BooleanConditionHolds {
    /// The canonical text of the condition expression.
    pub condition: String,
}

/// One marker of an encoding: a single precondition in its encoded form.
#[derive(Debug)]
pub enum Marker {
    /// The marker of a pointer-validity precondition.
    ValidPtr(ValidPtrConditionHolds),
    /// The marker of an alignment precondition.
    ProperAlign(ProperAlignConditionHolds),
    /// The marker of a boolean-expression precondition.
    Boolean(BooleanConditionHolds),
    /// The marker of a custom precondition.
    Custom(CustomConditionHolds),
}

/// The model of one marker.
pub enum MarkerModel {
    /// A pointer-validity marker.
    ValidPtr { ptr: Seq<char>, access_type: Seq<char> },
    /// An alignment marker.
    ProperAlign { ptr: Seq<char> },
    /// A boolean-expression marker.
    Boolean { condition: Seq<char> },
    /// A custom marker.
    Custom { condition: Seq<char> },
}

impl View for Marker {
    type V = MarkerModel;

    open spec fn view(&self) -> MarkerModel {
        match self {
            Marker::ValidPtr(m) => MarkerModel::ValidPtr {
                ptr: m.ptr@,
                access_type: m.access_type@,
            },
            Marker::ProperAlign(m) => MarkerModel::ProperAlign { ptr: m.ptr@ },
            Marker::Boolean(m) => MarkerModel::Boolean { condition: m.condition@ },
            Marker::Custom(m) => MarkerModel::Custom { condition: m.condition@ },
        }
    }
}

/// The marker a clause encodes to.
pub open spec fn marker_of(c: Clause) -> MarkerModel {
    match c {
        Clause::ValidPtr { ident, access } => MarkerModel::ValidPtr {
            ptr: ident,
            access_type: access.spec_render(),
        },
        Clause::ProperAlign { ident } => MarkerModel::ProperAlign { ptr: ident },
        Clause::Boolean { expr } => MarkerModel::Boolean { condition: expr },
        Clause::Custom { text } => MarkerModel::Custom { condition: text },
    }
}

/// Two clauses with the same marker are the same clause.
pub proof fn lemma_marker_of_injective(a: Clause, b: Clause)
    requires
        marker_of(a) == marker_of(b),
    ensures
        a == b,
{
    match (a, b) {
        (
            Clause::ValidPtr { ident: ia, access: aa },
            Clause::ValidPtr { ident: ib, access: ab },
        ) => {
            assert(aa.spec_render() == ab.spec_render());
            match (aa, ab) {
                (Access::Read, Access::Both) => {
                    assert(aa.spec_render().len() != ab.spec_render().len());
                }
                (Access::Both, Access::Read) => {
                    assert(aa.spec_render().len() != ab.spec_render().len());
                }
                (Access::Write, Access::Both) => {
                    assert(aa.spec_render().len() != ab.spec_render().len());
                }
                (Access::Both, Access::Write) => {
                    assert(aa.spec_render().len() != ab.spec_render().len());
                }
                (Access::Read, Access::Write) => {
                    assert(aa.spec_render()[0] == 'r');
                    assert(ab.spec_render()[0] == 'w');
                }
                (Access::Write, Access::Read) => {
                    assert(aa.spec_render()[0] == 'w');
                    assert(ab.spec_render()[0] == 'r');
                }
                _ => {}
            }
        }
        _ => {}
    }
}

/// The canonical sorting of a clause sequence.
pub open spec fn sorted_clauses(ps: Seq<Clause>) -> Seq<Clause> {
    ps.sort_by(|a: Clause, b: Clause| clause_le(a, b))
}

/// The encoding of a clause sequence: the markers of its clauses, in
/// canonical order. This is order-independent in the input: any permutation
/// encodes to the same marker sequence.
pub open spec fn encoding_of(ps: Seq<Clause>) -> Seq<MarkerModel> {
    sorted_clauses(ps).map_values(|c: Clause| marker_of(c))
}

/// The hidden parameter appended to a declaration's signature: a type built
/// from one marker per canonical precondition.
#[derive(Debug)]
pub struct HiddenParameter {
    /// The markers, in canonical order.
    pub markers: Vec<Marker>,
}

/// The hidden argument appended to a rewritten call: a value of the shape
/// the matching declaration's hidden parameter demands.
#[derive(Debug)]
pub struct HiddenArgument {
    /// The markers, in canonical order.
    pub markers: Vec<Marker>,
}

impl View for HiddenParameter {
    type V = Seq<MarkerModel>;

    open spec fn view(&self) -> Seq<MarkerModel> {
        self.markers@.map_values(|m: Marker| m@)
    }
}

impl View for HiddenArgument {
    type V = Seq<MarkerModel>;

    open spec fn view(&self) -> Seq<MarkerModel> {
        self.markers@.map_values(|m: Marker| m@)
    }
}

/// The marker a precondition encodes to, at runtime.
pub fn marker_from(p: &Precondition) -> (r: Marker)
    ensures
        r@ == marker_of(p@),
{
    match p {
        Precondition::ValidPtr { ident, access } => {
            let rw = access.render_chars();
            Marker::ValidPtr(
                ValidPtrConditionHolds {
                    ptr: ident.clone(),
                    access_type: crate::text::chars_to_string(&rw),
                },
            )
        }
        Precondition::ProperAlign { ident } => Marker::ProperAlign(
            ProperAlignConditionHolds { ptr: ident.clone() },
        ),
        Precondition::Boolean { expr } => Marker::Boolean(
            BooleanConditionHolds { condition: expr.clone() },
        ),
        Precondition::Custom { text } => Marker::Custom(
            CustomConditionHolds { condition: text.clone() },
        ),
    }
}

/// The clause sequence a precondition list models.
pub open spec fn clauses_of(ps: Seq<CfgPrecondition>) -> Seq<Clause> {
    ps.map_values(|p: CfgPrecondition| p@.clause)
}

/// Inserting into a sequence adds the element to its multiset.
proof fn lemma_insert_seq_multiset<A>(s: Seq<A>, x: A, j: int)
    requires
        0 <= j <= s.len(),
    ensures
        s.insert(j, x).to_multiset() == s.to_multiset().insert(x),
{
    let ins = s.insert(j, x);
    assert(ins =~= s.subrange(0, j) + seq![x] + s.subrange(j, s.len() as int));
    vstd::seq_lib::lemma_multiset_commutative(
        s.subrange(0, j) + seq![x],
        s.subrange(j, s.len() as int),
    );
    vstd::seq_lib::lemma_multiset_commutative(s.subrange(0, j), seq![x]);
    vstd::seq_lib::lemma_multiset_commutative(s.subrange(0, j), s.subrange(j, s.len() as int));
    assert(s =~= s.subrange(0, j) + s.subrange(j, s.len() as int));
    assert(seq![x] =~= Seq::<A>::empty().push(x));
    assert(seq![x].to_multiset() =~= Multiset::empty().insert(x));
    assert(ins.to_multiset() =~= s.to_multiset().insert(x));
}

/// Sorts a precondition list into the canonical order.
///
/// The result's clause sequence is exactly the canonical sorting of the
/// input's clause sequence.
pub fn sort_preconditions(ps: Vec<CfgPrecondition>) -> (r: Vec<CfgPrecondition>)
    ensures
        clauses_of(r@) == sorted_clauses(clauses_of(ps@)),
        sorted_by(clauses_of(r@), |a: Clause, b: Clause| clause_le(a, b)),
{
    let ghost cs = clauses_of(ps@);
    let mut out: Vec<CfgPrecondition> = Vec::new();
    let mut rest = ps;
    proof {
        lemma_clause_le_total_ordering();
        assert(clauses_of(out@) =~= Seq::<Clause>::empty());
        assert(clauses_of(out@).to_multiset().add(clauses_of(rest@).to_multiset())
            =~= cs.to_multiset());
    }
    while rest.len() > 0
        invariant
            sorted_by(clauses_of(out@), |a: Clause, b: Clause| clause_le(a, b)),
            clauses_of(out@).to_multiset().add(clauses_of(rest@).to_multiset())
                == cs.to_multiset(),
        decreases rest@.len(),
    {
        let ghost rest_before = rest@;
        let x = rest.pop().unwrap();
        proof {
            assert(rest_before =~= rest@.push(x));
            assert(clauses_of(rest_before) =~= clauses_of(rest@).push(x@.clause));
            assert(clauses_of(rest_before).to_multiset() == clauses_of(
                rest@,
            ).to_multiset().insert(x@.clause));
        }
        let pos = insert_position(&out, &x.precondition);
        let ghost old_out = out@;
        out.insert(pos, x);
        proof {
            lemma_insert_sorted(old_out, x, pos as int);
            assert(clauses_of(out@) =~= clauses_of(old_out).insert(pos as int, x@.clause));
            lemma_insert_seq_multiset(clauses_of(old_out), x@.clause, pos as int);
            assert(clauses_of(out@).to_multiset().add(clauses_of(rest@).to_multiset())
                =~= cs.to_multiset());
        }
    }
    proof {
        assert(clauses_of(rest@) =~= Seq::<Clause>::empty());
        assert(clauses_of(out@).to_multiset() =~= cs.to_multiset());
        cs.lemma_sort_by_ensures(|a: Clause, b: Clause| clause_le(a, b));
        assert(clauses_of(ps@) == cs);
        lemma_sorted_unique(
            clauses_of(out@),
            sorted_clauses(clauses_of(ps@)),
            |a: Clause, b: Clause| clause_le(a, b),
        );
    }
    out
}

/// The first position whose clause is strictly above `x`'s clause; inserting
/// `x` there keeps the list sorted.
fn insert_position(out: &Vec<CfgPrecondition>, x: &Precondition) -> (r: usize)
    requires
        sorted_by(clauses_of(out@), |a: Clause, b: Clause| clause_le(a, b)),
    ensures
        r <= out@.len(),
        forall|k: int| 0 <= k < r ==> clause_le(#[trigger] out@[k]@.clause, x@),
        forall|k: int| r <= k < out@.len() ==> clause_le(x@, #[trigger] out@[k]@.clause),
{
    let mut i: usize = 0;
    while i < out.len() && out[i].precondition.le(x)
        invariant
            i <= out@.len(),
            sorted_by(clauses_of(out@), |a: Clause, b: Clause| clause_le(a, b)),
            forall|k: int| 0 <= k < i ==> clause_le(#[trigger] out@[k]@.clause, x@),
        decreases out@.len() - i,
    {
        i = i + 1;
    }
    proof {
        if i < out@.len() {
            assert(!clause_le(out@[i as int]@.clause, x@));
            crate::precondition::lemma_clause_le_connected(out@[i as int]@.clause, x@);
            assert(clause_le(x@, out@[i as int]@.clause));
            assert forall|k: int| i <= k < out@.len() implies clause_le(
                x@,
                #[trigger] out@[k]@.clause,
            ) by {
                if k > i {
                    let leq = |a: Clause, b: Clause| clause_le(a, b);
                    assert(leq(clauses_of(out@)[i as int], clauses_of(out@)[k]));
                    crate::precondition::lemma_clause_le_transitive(
                        x@,
                        out@[i as int]@.clause,
                        out@[k]@.clause,
                    );
                }
            }
        }
    }
    i
}

/// Inserting at the position `insert_position` finds keeps the clause list
/// sorted.
proof fn lemma_insert_sorted(old_out: Seq<CfgPrecondition>, x: CfgPrecondition, pos: int)
    requires
        0 <= pos <= old_out.len(),
        sorted_by(clauses_of(old_out), |a: Clause, b: Clause| clause_le(a, b)),
        forall|k: int| 0 <= k < pos ==> clause_le(#[trigger] old_out[k]@.clause, x@.clause),
        forall|k: int|
            pos <= k < old_out.len() ==> clause_le(x@.clause, #[trigger] old_out[k]@.clause),
    ensures
        sorted_by(clauses_of(old_out.insert(pos, x)), |a: Clause, b: Clause| clause_le(a, b)),
{
    let leq = |a: Clause, b: Clause| clause_le(a, b);
    let ins = old_out.insert(pos, x);
    let cs = clauses_of(ins);
    let old_cs = clauses_of(old_out);
    assert forall|i: int, j: int| 0 <= i < j < cs.len() implies leq(cs[i], cs[j]) by {
        assert(cs[i] == ins[i]@.clause);
        assert(cs[j] == ins[j]@.clause);
        if i < pos {
            assert(ins[i] == old_out[i]);
        }
        if i > pos {
            assert(ins[i] == old_out[i - 1]);
        }
        if j < pos {
            assert(ins[j] == old_out[j]);
        }
        if j > pos {
            assert(ins[j] == old_out[j - 1]);
        }
        if i == pos && j == pos {
        } else if i < pos && j < pos {
            assert(leq(old_cs[i], old_cs[j]));
        } else if i < pos && j == pos {
            assert(clause_le(old_out[i]@.clause, x@.clause));
        } else if i < pos && j > pos {
            assert(leq(old_cs[i], old_cs[j - 1]));
        } else if i == pos && j > pos {
            assert(clause_le(x@.clause, old_out[j - 1]@.clause));
        } else {
            assert(leq(old_cs[i - 1], old_cs[j - 1]));
        }
    }
}

/// Builds the markers of an already-sorted precondition list.
fn markers_of_sorted(sorted: &Vec<CfgPrecondition>) -> (r: Vec<Marker>)
    ensures
        r@.map_values(|m: Marker| m@) == clauses_of(sorted@).map_values(|c: Clause| marker_of(c)),
{
    let mut r: Vec<Marker> = Vec::new();
    let mut i: usize = 0;
    while i < sorted.len()
        invariant
            i <= sorted@.len(),
            r@.map_values(|m: Marker| m@) == clauses_of(sorted@).take(i as int).map_values(
                |c: Clause| marker_of(c),
            ),
        decreases sorted@.len() - i,
    {
        let m = marker_from(&sorted[i].precondition);
        let ghost old_r = r@;
        r.push(m);
        proof {
            let f = |m: Marker| m@;
            let g = |c: Clause| marker_of(c);
            assert(r@ == old_r.push(m));
            assert(r@.map_values(f) =~= old_r.map_values(f).push(f(m)));
            assert(clauses_of(sorted@).take(i as int + 1) =~= clauses_of(sorted@).take(
                i as int,
            ).push(sorted@[i as int]@.clause));
            assert(clauses_of(sorted@).take(i as int + 1).map_values(g) =~= clauses_of(
                sorted@,
            ).take(i as int).map_values(g).push(g(sorted@[i as int]@.clause)));
            assert(f(m) == g(sorted@[i as int]@.clause));
        }
        i = i + 1;
    }
    proof {
        assert(clauses_of(sorted@).take(sorted@.len() as int) =~= clauses_of(sorted@));
    }
    r
}

/// Encodes a declaration's preconditions as its hidden parameter: one
/// marker per precondition, in canonical order, so that any permutation of
/// the same set yields the identical parameter.
pub fn encode_for_declaration(preconditions: Vec<CfgPrecondition>) -> (r: HiddenParameter)
    ensures
        r@ == encoding_of(clauses_of(preconditions@)),
{
    let ghost cs = clauses_of(preconditions@);
    let sorted = sort_preconditions(preconditions);
    let markers = markers_of_sorted(&sorted);
    HiddenParameter { markers }
}

/// Encodes a call's assured preconditions as its hidden argument: a value
/// of exactly the aggregate shape that the matching declaration's hidden
/// parameter demands.
pub fn encode_for_call(assurances: Vec<CfgPrecondition>) -> (r: HiddenArgument)
    ensures
        r@ == encoding_of(clauses_of(assurances@)),
{
    let ghost cs = clauses_of(assurances@);
    let sorted = sort_preconditions(assurances);
    let markers = markers_of_sorted(&sorted);
    HiddenArgument { markers }
}

/// Whether two markers are structurally equal.
fn marker_eq(a: &Marker, b: &Marker) -> (r: bool)
    ensures
        r == (a@ == b@),
{
    match (a, b) {
        (Marker::ValidPtr(ma), Marker::ValidPtr(mb)) => {
            ma.ptr == mb.ptr && ma.access_type == mb.access_type
        }
        (Marker::ProperAlign(ma), Marker::ProperAlign(mb)) => ma.ptr == mb.ptr,
        (Marker::Boolean(ma), Marker::Boolean(mb)) => ma.condition == mb.condition,
        (Marker::Custom(ma), Marker::Custom(mb)) => ma.condition == mb.condition,
        _ => false,
    }
}

/// Whether a declaration's hidden parameter and a call's hidden argument
/// are type-compatible: exactly when their marker sequences are equal,
/// which by the encoder's guarantee means the precondition sets are equal.
pub fn compatible(declaration: &HiddenParameter, call: &HiddenArgument) -> (r: bool)
    ensures
        r == (declaration@ == call@),
{
    if declaration.markers.len() != call.markers.len() {
        proof {
            assert(declaration@.len() != call@.len());
        }
        return false;
    }
    let n = declaration.markers.len();
    let mut i: usize = 0;
    while i < n
        invariant
            n == declaration.markers@.len() && n == call.markers@.len(),
            i <= n,
            forall|k: int| 0 <= k < i ==> declaration@[k] == call@[k],
        decreases n - i,
    {
        if !marker_eq(&declaration.markers[i], &call.markers[i]) {
            proof {
                assert(declaration@[i as int] != call@[i as int]);
            }
            return false;
        }
        i = i + 1;
    }
    proof {
        assert(declaration@ =~= call@);
    }
    true
}

/// Canonical-order invariance: any permutation of a precondition list
/// produces the identical encoding, for declarations and calls alike.
pub proof fn lemma_encoding_permutation_invariant(xs: Seq<Clause>, ys: Seq<Clause>)
    requires
        xs.to_multiset() == ys.to_multiset(),
    ensures
        encoding_of(xs) == encoding_of(ys),
{
    let leq = |a: Clause, b: Clause| clause_le(a, b);
    lemma_clause_le_total_ordering();
    xs.lemma_sort_by_ensures(leq);
    ys.lemma_sort_by_ensures(leq);
    lemma_sorted_unique(sorted_clauses(xs), sorted_clauses(ys), leq);
    assert(sorted_clauses(xs) == sorted_clauses(ys));
}

/// Exact-match acceptance and mismatch rejection in one statement: two
/// precondition lists encode to the same marker sequence exactly when they
/// hold the same clauses, as multisets. A declaration and a call site are
/// therefore type-compatible exactly when the asserted set equals the
/// declared set; a strict subset, strict superset, or a set differing in
/// one clause's canonical content yields incompatible encodings.
pub proof fn lemma_encoding_equal_iff_same_set(xs: Seq<Clause>, ys: Seq<Clause>)
    ensures
        encoding_of(xs) == encoding_of(ys) <==> xs.to_multiset() == ys.to_multiset(),
{
    let leq = |a: Clause, b: Clause| clause_le(a, b);
    lemma_clause_le_total_ordering();
    xs.lemma_sort_by_ensures(leq);
    ys.lemma_sort_by_ensures(leq);
    if xs.to_multiset() == ys.to_multiset() {
        lemma_encoding_permutation_invariant(xs, ys);
    }
    if encoding_of(xs) == encoding_of(ys) {
        let sx = sorted_clauses(xs);
        let sy = sorted_clauses(ys);
        assert(sx.map_values(|c: Clause| marker_of(c)).len() == sy.map_values(
            |c: Clause| marker_of(c),
        ).len());
        assert forall|i: int| 0 <= i < sx.len() implies sx[i] == sy[i] by {
            assert(sx.map_values(|c: Clause| marker_of(c))[i] == sy.map_values(
                |c: Clause| marker_of(c),
            )[i]);
            lemma_marker_of_injective(sx[i], sy[i]);
        }
        assert(sx =~= sy);
        assert(xs.to_multiset() == sx.to_multiset());
        assert(ys.to_multiset() == sy.to_multiset());
    }
}

} // verus!
