//! The forwarding resolver: redirects where a call's contract is looked up.
//! A `Direct` target prepends a path, a `Replace` target rewrites a path
//! prefix segment by segment, and an `ImplBlock` target redirects the
//! lookup to a zero-argument stub whose name combines the owning type and
//! the function name.

use vstd::prelude::*;

use crate::call::{Call, Callee, Path, PathModel};
use crate::diag::Diagnostic;
use crate::text::str_chars;

verus! {

/// Where the function a call's contract belongs to is located.
#[derive(Debug)]
pub enum ForwardTarget {
    /// The given path is prepended to the call's own path.
    Direct {
        /// The path to prepend.
        path: Path,
    },
    /// The contract is looked up at a stub under the given impl-block
    /// module path.
    ImplBlock {
        /// The module path of the mirrored impl block.
        path: Path,
    },
    /// The contract's function is found by replacing the prefix `from` of
    /// the call's path with `to`.
    Replace {
        /// The prefix to remove.
        from: Path,
        /// The path to splice in its place.
        to: Path,
    },
}

/// The model of a forwarding target.
pub enum ForwardTargetModel {
    /// Prepend a path.
    Direct { path: PathModel },
    /// Redirect to an impl-block stub.
    ImplBlock { path: PathModel },
    /// Replace a path prefix.
    Replace { from: PathModel, to: PathModel },
}

impl View for ForwardTarget {
    type V = ForwardTargetModel;

    open spec fn view(&self) -> ForwardTargetModel {
        match self {
            ForwardTarget::Direct { path } => ForwardTargetModel::Direct { path: path@ },
            ForwardTarget::ImplBlock { path } => ForwardTargetModel::ImplBlock { path: path@ },
            ForwardTarget::Replace { from, to } => ForwardTargetModel::Replace {
                from: from@,
                to: to@,
            },
        }
    }
}

/// Whether `from`'s segments are, segment by segment, a prefix of `path`'s.
pub open spec fn is_segment_prefix(from: PathModel, path: PathModel) -> bool {
    &&& from.segments.len() <= path.segments.len()
    &&& forall|k: int|
        0 <= k < from.segments.len() ==> from.segments[k] == #[trigger] path.segments[k]
}

/// The first position at which `from`'s segments differ from `path`'s,
/// assuming `from` is no longer than `path` and is not a prefix.
pub open spec fn first_mismatch(from: PathModel, path: PathModel, k: int) -> int
    decreases from.segments.len() - k,
{
    if k < 0 || k >= from.segments.len() {
        k
    } else if from.segments[k] != path.segments[k] {
        k
    } else {
        first_mismatch(from, path, k + 1)
    }
}

/// What checking the prefix reports: nothing, a too-long prefix, or the
/// first differing segment.
pub open spec fn spec_check_prefix(from: PathModel, path: PathModel) -> Option<Diagnostic> {
    if from.segments.len() > path.segments.len() {
        Some(Diagnostic::PrefixTooLong)
    } else if is_segment_prefix(from, path) {
        None
    } else {
        Some(Diagnostic::PrefixMismatch { segment: first_mismatch(from, path, 0) as usize })
    }
}

/// `first_mismatch` finds the smallest differing position.
proof fn lemma_first_mismatch(from: PathModel, path: PathModel, k: int)
    requires
        0 <= k <= from.segments.len(),
        from.segments.len() <= path.segments.len(),
        forall|j: int| 0 <= j < k ==> from.segments[j] == #[trigger] path.segments[j],
        !is_segment_prefix(from, path),
    ensures
        ({
            let m = first_mismatch(from, path, k);
            &&& k <= m < from.segments.len()
            &&& from.segments[m] != path.segments[m]
            &&& forall|j: int| 0 <= j < m ==> from.segments[j] == #[trigger] path.segments[j]
        }),
    decreases from.segments.len() - k,
{
    if k == from.segments.len() {
        assert(is_segment_prefix(from, path));
        assert(false);
    } else if from.segments[k] != path.segments[k] {
    } else {
        lemma_first_mismatch(from, path, k + 1);
    }
}

/// Checks that `from` is a segment-by-segment prefix of the call's path;
/// reports a too-long prefix, or the first differing segment, otherwise.
pub fn check_prefix(from: &Path, path: &Path) -> (r: Option<Diagnostic>)
    ensures
        r == spec_check_prefix(from@, path@),
        r is None <==> is_segment_prefix(from@, path@),
{
    if from.segments.len() > path.segments.len() {
        proof {
            assert(from@.segments.len() > path@.segments.len());
        }
        return Some(Diagnostic::PrefixTooLong);
    }
    let n = from.segments.len();
    let mut i: usize = 0;
    while i < n
        invariant
            n == from.segments@.len(),
            n <= path.segments@.len(),
            i <= n,
            forall|j: int| 0 <= j < i ==> from@.segments[j] == #[trigger] path@.segments[j],
        decreases n - i,
    {
        let a = str_chars(from.segments[i].as_str());
        let b = str_chars(path.segments[i].as_str());
        if !crate::text::chars_eq(&a, &b) {
            proof {
                assert(from@.segments[i as int] != path@.segments[i as int]);
                assert(!is_segment_prefix(from@, path@));
                lemma_first_mismatch(from@, path@, i as int);
                lemma_first_mismatch(from@, path@, 0);
                // Both runs find a mismatch no earlier than `i` and no
                // later than the one at `i`, so they agree.
                let m0 = first_mismatch(from@, path@, 0);
                let mi = first_mismatch(from@, path@, i as int);
                assert(mi == i as int);
                if m0 < i as int {
                    assert(from@.segments[m0] == path@.segments[m0]);
                    assert(false);
                }
                if m0 > i as int {
                    assert(from@.segments[i as int] == path@.segments[i as int]);
                    assert(false);
                }
            }
            return Some(Diagnostic::PrefixMismatch { segment: i });
        }
        i = i + 1;
    }
    proof {
        assert(is_segment_prefix(from@, path@));
    }
    None
}

/// The path a `Direct` target rewrites a call path to: the target's
/// segments in front of the call's own.
pub open spec fn spec_direct_path(target: PathModel, path: PathModel) -> PathModel {
    PathModel { leading_colon: path.leading_colon, segments: target.segments + path.segments }
}

/// The path a `Replace` target rewrites a matching call path to: `to`'s
/// segments followed by the call path with the prefix `from` removed.
pub open spec fn spec_replace_path(from: PathModel, to: PathModel, path: PathModel) -> PathModel {
    PathModel {
        leading_colon: path.leading_colon,
        segments: to.segments + path.segments.skip(from.segments.len() as int),
    }
}

/// Builds the segments of a rewritten path from a prefix and a tail taken
/// from position `cut` on.
fn splice_segments(head: &Path, tail: &Path, cut: usize) -> (r: Vec<String>)
    requires
        cut <= tail.segments@.len(),
    ensures
        crate::call::segs_model(r@) == head@.segments + tail@.segments.skip(cut as int),
{
    let mut r: Vec<String> = Vec::new();
    let mut i: usize = 0;
    while i < head.segments.len()
        invariant
            i <= head.segments@.len(),
            crate::call::segs_model(r@) == head@.segments.take(i as int),
        decreases head.segments@.len() - i,
    {
        let ghost old_r = r@;
        r.push(head.segments[i].clone());
        proof {
            assert(crate::call::segs_model(r@) =~= crate::call::segs_model(old_r).push(
                head.segments@[i as int]@,
            ));
            assert(head@.segments.take(i as int + 1) =~= head@.segments.take(i as int).push(
                head@.segments[i as int],
            ));
            assert(head@.segments[i as int] == head.segments@[i as int]@);
        }
        i = i + 1;
    }
    proof {
        assert(head@.segments.take(head.segments@.len() as int) =~= head@.segments);
    }
    let mut k: usize = cut;
    while k < tail.segments.len()
        invariant
            cut <= k <= tail.segments@.len(),
            crate::call::segs_model(r@) == head@.segments + tail@.segments.subrange(
                cut as int,
                k as int,
            ),
        decreases tail.segments@.len() - k,
    {
        let ghost old_r = r@;
        r.push(tail.segments[k].clone());
        proof {
            assert(crate::call::segs_model(r@) =~= crate::call::segs_model(old_r).push(
                tail.segments@[k as int]@,
            ));
            assert(tail@.segments.subrange(cut as int, k as int + 1) =~= tail@.segments.subrange(
                cut as int,
                k as int,
            ).push(tail@.segments[k as int]));
            assert(tail@.segments[k as int] == tail.segments@[k as int]@);
        }
        k = k + 1;
    }
    proof {
        assert(crate::call::segs_model(r@) =~= head@.segments + tail@.segments.skip(cut as int));
    }
    r
}

/// Resolves a `Direct` or `Replace` target against the call's path,
/// yielding the rewritten path; on a failed `Replace` prefix check, the
/// path is returned unchanged beside the diagnostic.
pub fn construct_new_path(target: &ForwardTarget, fn_path: &Path) -> (r: (Path, Vec<Diagnostic>))
    requires
        !(target is ImplBlock),
    ensures
        match target@ {
            ForwardTargetModel::Direct { path } => {
                &&& r.0@ == spec_direct_path(path, fn_path@)
                &&& r.1@ == Seq::<Diagnostic>::empty()
            }
            ForwardTargetModel::Replace { from, to } => {
                match spec_check_prefix(from, fn_path@) {
                    None => {
                        &&& r.0@ == spec_replace_path(from, to, fn_path@)
                        &&& r.1@ == Seq::<Diagnostic>::empty()
                    }
                    Some(d) => {
                        &&& r.0@ == fn_path@
                        &&& r.1@ == seq![d]
                    }
                }
            }
            ForwardTargetModel::ImplBlock { .. } => false,
        },
{
    match target {
        ForwardTarget::Direct { path } => {
            let segments = splice_segments(path, fn_path, 0);
            proof {
                assert(fn_path@.segments.skip(0) =~= fn_path@.segments);
            }
            let diags: Vec<Diagnostic> = Vec::new();
            proof {
                assert(diags@ =~= Seq::<Diagnostic>::empty());
            }
            (Path { leading_colon: fn_path.leading_colon, segments }, diags)
        }
        ForwardTarget::Replace { from, to } => {
            let mut diags: Vec<Diagnostic> = Vec::new();
            match check_prefix(from, fn_path) {
                None => {
                    let segments = splice_segments(to, fn_path, from.segments.len());
                    proof {
                        assert(diags@ =~= Seq::<Diagnostic>::empty());
                    }
                    (Path { leading_colon: fn_path.leading_colon, segments }, diags)
                }
                Some(d) => {
                    diags.push(d);
                    proof {
                        assert(diags@ =~= seq![d]);
                    }
                    (fn_path.duplicate(), diags)
                }
            }
        }
        ForwardTarget::ImplBlock { .. } => {
            proof {
                assert(false);
            }
            let diags: Vec<Diagnostic> = Vec::new();
            (fn_path.duplicate(), diags)
        }
    }
}

/// Forward resolution correctness for a prefix replacement: where `from`
/// is a true segment prefix of the call's path, the rewritten path is
/// `to` followed by the path with the prefix removed; where it is not, a
/// structural error identifies the first mismatched segment (or that the
/// prefix is longer than the path), and nothing is rewritten.
pub proof fn lemma_replace_resolution(from: PathModel, to: PathModel, path: PathModel)
    ensures
        is_segment_prefix(from, path) ==> {
            &&& spec_check_prefix(from, path) is None
            &&& spec_replace_path(from, to, path).segments == to.segments + path.segments.skip(
                from.segments.len() as int,
            )
        },
        !is_segment_prefix(from, path) ==> {
            let m = first_mismatch(from, path, 0);
            &&& (if from.segments.len() > path.segments.len() {
                spec_check_prefix(from, path) == Some(Diagnostic::PrefixTooLong)
            } else {
                &&& spec_check_prefix(from, path) == Some(
                    Diagnostic::PrefixMismatch { segment: m as usize },
                )
                &&& 0 <= m < from.segments.len()
                &&& from.segments[m] != path.segments[m]
                &&& forall|j: int| 0 <= j < m ==> from.segments[j] == #[trigger] path.segments[j]
            })
        },
{
    if !is_segment_prefix(from, path) && from.segments.len() <= path.segments.len() {
        lemma_first_mismatch(from, path, 0);
    }
}

/// The stub name an impl-block lookup combines from the owning type and
/// the function name: collision-resistant and fixed.
pub open spec fn spec_stub_name(ty: Seq<char>, fn_name: Seq<char>) -> Seq<char> {
    ty + "__impl__"@ + fn_name + "__"@
}

/// Builds the stub name for an impl-block lookup.
pub fn impl_block_stub_name(ty: &str, fn_name: &str) -> (r: String)
    ensures
        r@ == spec_stub_name(ty@, fn_name@),
{
    let mut out = str_chars(ty);
    let mut mid = str_chars("__impl__");
    out.append(&mut mid);
    let mut f = str_chars(fn_name);
    out.append(&mut f);
    let mut end = str_chars("__");
    out.append(&mut end);
    crate::text::chars_to_string(&out)
}

/// The path of the stub call an impl-block lookup resolves to: the target
/// path with its last segment replaced by the stub name built from that
/// segment and the function name.
pub open spec fn spec_stub_path(path: PathModel, fn_name: Seq<char>) -> PathModel {
    PathModel {
        leading_colon: path.leading_colon,
        segments: path.segments.take(path.segments.len() - 1).push(
            spec_stub_name(path.segments[path.segments.len() - 1], fn_name),
        ),
    }
}

/// Creates the zero-argument stub call for an impl-block lookup: the last
/// segment of the target path names the owning type, and is replaced by
/// the combined stub name. An empty target path is reported instead.
pub fn create_stub_call(path: &Path, fn_name: &str) -> (r: Result<Call, Diagnostic>)
    ensures
        match r {
            Ok(call) => {
                &&& path@.segments.len() > 0
                &&& call@ == crate::call::CallModel::Function {
                    callee: crate::call::CalleeModel::Named(spec_stub_path(path@, fn_name@)),
                    args: Seq::empty(),
                }
            }
            Err(d) => {
                &&& path@.segments.len() == 0
                &&& d == Diagnostic::EmptyPath
            }
        },
{
    if path.segments.len() == 0 {
        proof {
            assert(path@.segments.len() == 0);
        }
        return Err(Diagnostic::EmptyPath);
    }
    let mut segments: Vec<String> = Vec::new();
    let mut i: usize = 0;
    let last = path.segments.len() - 1;
    while i < last
        invariant
            i <= last < path.segments@.len(),
            crate::call::segs_model(segments@) == path@.segments.take(i as int),
        decreases last - i,
    {
        let ghost old_segments = segments@;
        segments.push(path.segments[i].clone());
        proof {
            assert(crate::call::segs_model(segments@) =~= crate::call::segs_model(
                old_segments,
            ).push(path.segments@[i as int]@));
            assert(path@.segments.take(i as int + 1) =~= path@.segments.take(i as int).push(
                path@.segments[i as int],
            ));
            assert(path@.segments[i as int] == path.segments@[i as int]@);
        }
        i = i + 1;
    }
    let stub = impl_block_stub_name(path.segments[last].as_str(), fn_name);
    let ghost before_stub = segments@;
    segments.push(stub);
    proof {
        assert(crate::call::segs_model(segments@) =~= crate::call::segs_model(before_stub).push(
            stub@,
        ));
        assert(crate::call::segs_model(segments@) =~= spec_stub_path(path@, fn_name@).segments);
    }
    let args: Vec<crate::call::CallArg> = Vec::new();
    proof {
        assert(args@.map_values(|a: crate::call::CallArg| a@) =~= Seq::<
            crate::call::CallArgModel,
        >::empty());
    }
    Ok(
        Call::Function {
            callee: Callee::Named(Path { leading_colon: path.leading_colon, segments }),
            args,
        },
    )
}

} // verus!
