//! The model of call expressions and callee paths that the rewriter works
//! on: a function call names its callee by a path (or by something the
//! engine cannot resolve), a method call names only its method; arguments
//! are carried through opaquely, and the rewriter only ever appends the
//! hidden contract argument.

use vstd::prelude::*;

use crate::encode::{HiddenArgument, MarkerModel};

verus! {

/// A plain path of identifiers, as `a::b::c` or `::a::b`.
#[derive(Debug)]
pub struct Path {
    /// Whether the path starts with a leading `::`.
    pub leading_colon: bool,
    /// The path's segments, in order.
    pub segments: Vec<String>,
}

/// The model of a path.
pub struct PathModel {
    /// Whether the path starts with a leading `::`.
    pub leading_colon: bool,
    /// The segment texts, in order.
    pub segments: Seq<Seq<char>>,
}

/// The models of a list of path segments.
pub open spec fn segs_model(v: Seq<String>) -> Seq<Seq<char>> {
    v.map_values(|s: String| s@)
}

impl View for Path {
    type V = PathModel;

    open spec fn view(&self) -> PathModel {
        PathModel { leading_colon: self.leading_colon, segments: segs_model(self.segments@) }
    }
}

impl Path {
    /// A copy of this path with the same model.
    pub fn duplicate(&self) -> (r: Self)
        ensures
            r@ == self@,
    {
        let mut segments: Vec<String> = Vec::new();
        let mut i: usize = 0;
        while i < self.segments.len()
            invariant
                i <= self.segments@.len(),
                segs_model(segments@) == segs_model(self.segments@).take(i as int),
            decreases self.segments@.len() - i,
        {
            let ghost old_segments = segments@;
            segments.push(self.segments[i].clone());
            proof {
                assert(segs_model(segments@) =~= segs_model(old_segments).push(
                    self.segments@[i as int]@,
                ));
                assert(segs_model(self.segments@).take(i as int + 1) =~= segs_model(
                    self.segments@,
                ).take(i as int).push(segs_model(self.segments@)[i as int]));
            }
            i = i + 1;
        }
        proof {
            assert(segs_model(self.segments@).take(self.segments@.len() as int) =~= segs_model(
                self.segments@,
            ));
        }
        Path { leading_colon: self.leading_colon, segments }
    }
}

/// What a function call's callee expression resolves to.
#[derive(Debug)]
pub enum Callee {
    /// The callee is named by a direct path.
    Named(Path),
    /// The callee is some other expression; which function is being called
    /// cannot be determined at compile time.
    Unresolved,
}

/// The model of a callee.
pub enum CalleeModel {
    /// A direct path.
    Named(PathModel),
    /// Not a direct path.
    Unresolved,
}

impl View for Callee {
    type V = CalleeModel;

    open spec fn view(&self) -> CalleeModel {
        match self {
            Callee::Named(p) => CalleeModel::Named(p@),
            Callee::Unresolved => CalleeModel::Unresolved,
        }
    }
}

/// One argument of a call: either an argument of the original program,
/// carried through as its source text and never inspected, or the hidden
/// contract argument the rewriter appends.
#[derive(Debug)]
pub enum CallArg {
    /// An argument of the original program, by its source text.
    Given(String),
    /// The appended hidden contract argument.
    Hidden(HiddenArgument),
}

/// The model of one argument.
pub enum CallArgModel {
    /// An original argument, by its text.
    Given(Seq<char>),
    /// The hidden contract argument, by its marker sequence.
    Hidden(Seq<MarkerModel>),
}

impl View for CallArg {
    type V = CallArgModel;

    open spec fn view(&self) -> CallArgModel {
        match self {
            CallArg::Given(s) => CallArgModel::Given(s@),
            CallArg::Hidden(h) => CallArgModel::Hidden(h@),
        }
    }
}

/// A call expression: a function call or a method call.
#[derive(Debug)]
pub enum Call {
    /// A function call, as `a::b::f(x)`.
    Function {
        /// What is being called.
        callee: Callee,
        /// The arguments, in order.
        args: Vec<CallArg>,
    },
    /// A method call, as `x.m(y)`; the receiver stays with the call and is
    /// never rewritten.
    Method {
        /// The method name.
        method: String,
        /// The arguments, in order, the receiver not included.
        args: Vec<CallArg>,
    },
}

/// The model of a call.
pub enum CallModel {
    /// A function call.
    Function { callee: CalleeModel, args: Seq<CallArgModel> },
    /// A method call.
    Method { method: Seq<char>, args: Seq<CallArgModel> },
}

impl View for Call {
    type V = CallModel;

    open spec fn view(&self) -> CallModel {
        match self {
            Call::Function { callee, args } => CallModel::Function {
                callee: callee@,
                args: args@.map_values(|a: CallArg| a@),
            },
            Call::Method { method, args } => CallModel::Method {
                method: method@,
                args: args@.map_values(|a: CallArg| a@),
            },
        }
    }
}

impl CallModel {
    /// The argument models of the call.
    pub open spec fn args(&self) -> Seq<CallArgModel> {
        match self {
            CallModel::Function { args, .. } => *args,
            CallModel::Method { args, .. } => *args,
        }
    }

    /// The call with the hidden contract argument appended: everything else
    /// unchanged.
    pub open spec fn with_hidden_arg(&self, markers: Seq<MarkerModel>) -> CallModel {
        match self {
            CallModel::Function { callee, args } => CallModel::Function {
                callee: *callee,
                args: args.push(CallArgModel::Hidden(markers)),
            },
            CallModel::Method { method, args } => CallModel::Method {
                method: *method,
                args: args.push(CallArgModel::Hidden(markers)),
            },
        }
    }

    /// The call with its callee replaced by the given path: the arguments
    /// unchanged. Meaningful only for function calls.
    pub open spec fn with_callee(&self, path: PathModel) -> CallModel {
        match self {
            CallModel::Function { callee, args } => CallModel::Function {
                callee: CalleeModel::Named(path),
                args: *args,
            },
            CallModel::Method { method, args } => CallModel::Method {
                method: *method,
                args: *args,
            },
        }
    }
}

impl Call {
    /// A copy of this call with the same model.
    pub fn duplicate(&self) -> (r: Self)
        ensures
            r@ == self@,
    {
        match self {
            Call::Function { callee, args } => {
                let new_callee = match callee {
                    Callee::Named(p) => Callee::Named(p.duplicate()),
                    Callee::Unresolved => Callee::Unresolved,
                };
                Call::Function { callee: new_callee, args: duplicate_args(args) }
            }
            Call::Method { method, args } => Call::Method {
                method: method.clone(),
                args: duplicate_args(args),
            },
        }
    }

    /// Replaces the callee of a function call by the given path.
    pub fn set_callee_path(&mut self, path: Path)
        requires
            old(self)@ is Function,
        ensures
            final (self)@ == old(self)@.with_callee(path@),
    {
        match self {
            Call::Function { callee, .. } => {
                *callee = Callee::Named(path);
            }
            Call::Method { .. } => {
                proof {
                    assert(false);
                }
            }
        }
    }

    /// Appends the hidden contract argument to this call.
    pub fn push_hidden_arg(&mut self, hidden: HiddenArgument)
        ensures
            final (self)@ == old(self)@.with_hidden_arg(hidden@),
    {
        let ghost h = hidden@;
        match self {
            Call::Function { callee, args } => {
                args.push(CallArg::Hidden(hidden));
                proof {
                    assert(args@.map_values(|a: CallArg| a@) =~= old(
                        self,
                    )@.args().push(CallArgModel::Hidden(h)));
                }
            }
            Call::Method { method, args } => {
                args.push(CallArg::Hidden(hidden));
                proof {
                    assert(args@.map_values(|a: CallArg| a@) =~= old(
                        self,
                    )@.args().push(CallArgModel::Hidden(h)));
                }
            }
        }
    }
}

/// A copy of an argument list with the same model.
fn duplicate_args(args: &Vec<CallArg>) -> (r: Vec<CallArg>)
    ensures
        r@.map_values(|a: CallArg| a@) == args@.map_values(|a: CallArg| a@),
{
    let mut r: Vec<CallArg> = Vec::new();
    let mut i: usize = 0;
    while i < args.len()
        invariant
            i <= args@.len(),
            r@.map_values(|a: CallArg| a@) == args@.take(i as int).map_values(|a: CallArg| a@),
        decreases args@.len() - i,
    {
        let copy = match &args[i] {
            CallArg::Given(s) => CallArg::Given(s.clone()),
            CallArg::Hidden(h) => CallArg::Hidden(
                crate::encode::HiddenArgument { markers: duplicate_markers(&h.markers) },
            ),
        };
        let ghost old_r = r@;
        let ghost cur = args@[i as int];
        r.push(copy);
        proof {
            let f = |a: CallArg| a@;
            assert(r@.map_values(f) =~= old_r.map_values(f).push(f(cur)));
            assert(args@.take(i as int + 1) =~= args@.take(i as int).push(cur));
            assert(args@.take(i as int + 1).map_values(f) =~= args@.take(i as int).map_values(
                f,
            ).push(f(cur)));
        }
        i = i + 1;
    }
    proof {
        assert(args@.take(args@.len() as int) =~= args@);
    }
    r
}

/// A copy of a marker list with the same model.
fn duplicate_markers(markers: &Vec<crate::encode::Marker>) -> (r: Vec<crate::encode::Marker>)
    ensures
        r@.map_values(|m: crate::encode::Marker| m@) == markers@.map_values(
            |m: crate::encode::Marker| m@,
        ),
{
    let mut r: Vec<crate::encode::Marker> = Vec::new();
    let mut i: usize = 0;
    while i < markers.len()
        invariant
            i <= markers@.len(),
            r@.map_values(|m: crate::encode::Marker| m@) == markers@.take(i as int).map_values(
                |m: crate::encode::Marker| m@,
            ),
        decreases markers@.len() - i,
    {
        let copy = match &markers[i] {
            crate::encode::Marker::ValidPtr(m) => crate::encode::Marker::ValidPtr(
                crate::encode::ValidPtrConditionHolds {
                    ptr: m.ptr.clone(),
                    access_type: m.access_type.clone(),
                },
            ),
            crate::encode::Marker::ProperAlign(m) => crate::encode::Marker::ProperAlign(
                crate::encode::ProperAlignConditionHolds { ptr: m.ptr.clone() },
            ),
            crate::encode::Marker::Boolean(m) => crate::encode::Marker::Boolean(
                crate::encode::BooleanConditionHolds { condition: m.condition.clone() },
            ),
            crate::encode::Marker::Custom(m) => crate::encode::Marker::Custom(
                crate::encode::CustomConditionHolds { condition: m.condition.clone() },
            ),
        };
        let ghost old_r = r@;
        let ghost cur = markers@[i as int];
        r.push(copy);
        proof {
            let f = |m: crate::encode::Marker| m@;
            assert(r@.map_values(f) =~= old_r.map_values(f).push(copy@));
            assert(copy@ == f(cur));
            assert(markers@.take(i as int + 1) =~= markers@.take(i as int).push(cur));
            assert(markers@.take(i as int + 1).map_values(f) =~= markers@.take(
                i as int,
            ).map_values(f).push(f(cur)));
        }
        i = i + 1;
    }
    proof {
        assert(markers@.take(markers@.len() as int) =~= markers@);
    }
    r
}

} // verus!
