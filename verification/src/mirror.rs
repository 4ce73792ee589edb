//! The external-mirror generator: expands a module skeleton of bodiless
//! declaration stubs, annotated with the real external module path it
//! mirrors, into a full module tree. Every level re-exports the real
//! module wholesale, so anything not explicitly mirrored stays usable;
//! each declared signature becomes a thin, contract-bearing wrapper whose
//! body is exactly one call to the real function; each impl-block method
//! becomes a zero-argument marker stub addressable by impl-block
//! forwarding. Generated items are visible wherever the mirror module
//! itself is, regardless of the visibility written in the skeleton.

use vstd::prelude::*;

use crate::attrs::{RawAttr, RawAttrModel};
use crate::call::{segs_model, Path, PathModel};
use crate::diag::Diagnostic;
use crate::forward::{impl_block_stub_name, spec_stub_name};
use crate::text::str_chars;

verus! {

/// A bodiless function signature of the skeleton, as far as the engine
/// reads it: its name, the annotations on it (carried through onto the
/// wrapper), and its argument names (forwarded to the real function).
#[derive(Debug)]
pub struct MirrorFn {
    /// The function's name.
    pub name: String,
    /// The whole signature, carried through opaquely as text.
    pub signature: String,
    /// The annotations written on the signature.
    pub attrs: Vec<RawAttr>,
    /// The names of the signature's arguments, in order.
    pub args: Vec<String>,
}

/// The model of a skeleton function.
pub struct MirrorFnModel {
    /// The name.
    pub name: Seq<char>,
    /// The signature text.
    pub signature: Seq<char>,
    /// The annotations.
    pub attrs: Seq<RawAttrModel>,
    /// The argument names.
    pub args: Seq<Seq<char>>,
}

impl View for MirrorFn {
    type V = MirrorFnModel;

    open spec fn view(&self) -> MirrorFnModel {
        MirrorFnModel {
            name: self.name@,
            signature: self.signature@,
            attrs: self.attrs@.map_values(|a: RawAttr| a@),
            args: segs_model(self.args@),
        }
    }
}

/// The kind of type arguments on an impl-block type.
#[derive(Clone, Copy, PartialEq, Eq, Structural, Debug)]
pub enum TypeArgsKind {
    /// No arguments.
    NoArguments,
    /// Angle-bracketed arguments, which are accepted and discarded.
    AngleBracketed,
    /// Parenthesized arguments, which are not supported here.
    Parenthesized,
}

/// The type an impl block of the skeleton is for.
#[derive(Debug)]
pub enum SelfTy {
    /// A type path.
    TypePath {
        /// Whether the path is qualified, as `<T as Trait>::X`.
        qualified: bool,
        /// The path segments.
        segments: Vec<String>,
        /// The kind of type arguments on the last segment.
        arguments: TypeArgsKind,
    },
    /// Any other type.
    Other,
}

/// The model of an impl-block type.
pub enum SelfTyModel {
    /// A type path.
    TypePath { qualified: bool, segments: Seq<Seq<char>>, arguments: TypeArgsKind },
    /// Any other type.
    Other,
}

impl View for SelfTy {
    type V = SelfTyModel;

    open spec fn view(&self) -> SelfTyModel {
        match self {
            SelfTy::TypePath { qualified, segments, arguments } => SelfTyModel::TypePath {
                qualified: *qualified,
                segments: segs_model(segments@),
                arguments: *arguments,
            },
            SelfTy::Other => SelfTyModel::Other,
        }
    }
}

/// An impl-like block of the skeleton: method signatures under a type.
#[derive(Debug)]
pub struct MirrorImplBlock {
    /// The type the block is for.
    pub self_ty: SelfTy,
    /// The method signatures.
    pub functions: Vec<MirrorFn>,
}

/// The model of an impl block.
pub struct MirrorImplBlockModel {
    /// The type.
    pub self_ty: SelfTyModel,
    /// The methods.
    pub functions: Seq<MirrorFnModel>,
}

impl View for MirrorImplBlock {
    type V = MirrorImplBlockModel;

    open spec fn view(&self) -> MirrorImplBlockModel {
        MirrorImplBlockModel {
            self_ty: self.self_ty@,
            functions: self.functions@.map_values(|f: MirrorFn| f@),
        }
    }
}

/// A module of the skeleton.
#[derive(Debug)]
pub struct MirrorModule {
    /// The module's name.
    pub name: String,
    /// Whether the skeleton wrote the module public.
    pub is_public: bool,
    /// The function signatures declared at this level.
    pub functions: Vec<MirrorFn>,
    /// The impl-like blocks at this level.
    pub impl_blocks: Vec<MirrorImplBlock>,
    /// The nested modules.
    pub modules: Vec<MirrorModule>,
}

/// The model of a skeleton module.
pub struct MirrorModuleModel {
    /// The name.
    pub name: Seq<char>,
    /// Whether the module was written public.
    pub is_public: bool,
    /// The functions.
    pub functions: Seq<MirrorFnModel>,
    /// The impl blocks.
    pub impl_blocks: Seq<MirrorImplBlockModel>,
    /// The nested modules.
    pub modules: Seq<MirrorModuleModel>,
}

/// The model of a skeleton module.
pub open spec fn module_model(m: MirrorModule) -> MirrorModuleModel
    decreases m, 0int,
{
    MirrorModuleModel {
        name: m.name@,
        is_public: m.is_public,
        functions: m.functions@.map_values(|f: MirrorFn| f@),
        impl_blocks: m.impl_blocks@.map_values(|b: MirrorImplBlock| b@),
        modules: modules_model(m.modules@, 0),
    }
}

/// The models of a module list, from position `i` on.
pub open spec fn modules_model(ms: Seq<MirrorModule>, i: int) -> Seq<MirrorModuleModel>
    decreases ms, ms.len() - i
        via modules_model_decreases
{
    if i < 0 || i >= ms.len() {
        Seq::empty()
    } else {
        seq![module_model(ms[i])] + modules_model(ms, i + 1)
    }
}

#[via_fn]
proof fn modules_model_decreases(ms: Seq<MirrorModule>, i: int) {
    if 0 <= i < ms.len() {
        assert(decreases_to!(ms => ms[i]));
    }
}

/// A generated wrapper function: the same name and annotations as the
/// skeleton signature, with its body delegating to the real function.
pub struct RenderedFnModel {
    /// The wrapper's name: the mirrored function's own.
    pub name: Seq<char>,
    /// The wrapper's signature: the mirrored signature, unchanged.
    pub signature: Seq<char>,
    /// The annotations carried over from the skeleton.
    pub attrs: Seq<RawAttrModel>,
    /// The full path of the real function the body calls.
    pub target: PathModel,
    /// The argument names forwarded to that call, unchanged and in order.
    pub forwarded_args: Seq<Seq<char>>,
}

/// A generated zero-argument marker stub for one impl-block method.
pub struct RenderedStubModel {
    /// The stub's name, combined from the owning type and the method name.
    pub name: Seq<char>,
    /// The annotations carried over from the method signature.
    pub attrs: Seq<RawAttrModel>,
}

/// A generated mirror module.
pub struct RenderedModuleModel {
    /// The module's name: the skeleton module's own.
    pub name: Seq<char>,
    /// Whether the module and everything generated inside it is `pub`;
    /// otherwise everything is visible crate-wide. The skeleton's written
    /// visibilities below the top level play no part.
    pub is_public: bool,
    /// The real module path this level re-exports wholesale.
    pub reexport: PathModel,
    /// The wrappers generated for the declared signatures.
    pub wrappers: Seq<RenderedFnModel>,
    /// The marker stubs generated for the impl-block methods.
    pub stubs: Seq<RenderedStubModel>,
    /// The rendered nested modules.
    pub modules: Seq<RenderedModuleModel>,
}

/// The owning type of an impl block, or why it cannot be used: only a
/// plain, unqualified type path of exactly one segment is supported, and
/// parenthesized type arguments are not.
pub open spec fn spec_impl_ty(t: SelfTyModel) -> Result<Seq<char>, Diagnostic> {
    match t {
        SelfTyModel::TypePath { qualified, segments, arguments } => {
            if segments.len() != 1 {
                Err(Diagnostic::ImplPathTooLong)
            } else if qualified {
                Err(Diagnostic::ImplQualifiedPath)
            } else if arguments == TypeArgsKind::Parenthesized {
                Err(Diagnostic::ImplParenthesizedArguments)
            } else {
                Ok(segments[0])
            }
        }
        SelfTyModel::Other => Err(Diagnostic::ImplNotAPath),
    }
}

/// Determines the owning type of an impl block, as `spec_impl_ty`
/// describes.
pub fn impl_ty(t: &SelfTy) -> (r: Result<String, Diagnostic>)
    ensures
        match r {
            Ok(name) => spec_impl_ty(t@) == Ok::<_, Diagnostic>(name@),
            Err(d) => spec_impl_ty(t@) == Err::<Seq<char>, _>(d),
        },
{
    match t {
        SelfTy::TypePath { qualified, segments, arguments } => {
            if segments.len() != 1 {
                proof {
                    assert(t@ matches SelfTyModel::TypePath { segments: s, .. } && s.len() != 1);
                }
                Err(Diagnostic::ImplPathTooLong)
            } else if *qualified {
                Err(Diagnostic::ImplQualifiedPath)
            } else {
                match arguments {
                    TypeArgsKind::Parenthesized => Err(Diagnostic::ImplParenthesizedArguments),
                    _ => Ok(segments[0].clone()),
                }
            }
        }
        SelfTy::Other => Err(Diagnostic::ImplNotAPath),
    }
}

/// The path with one more segment appended.
pub open spec fn spec_path_push(p: PathModel, seg: Seq<char>) -> PathModel {
    PathModel { leading_colon: p.leading_colon, segments: p.segments.push(seg) }
}

/// Appends one segment to a copy of the path.
pub fn path_push(p: &Path, seg: &str) -> (r: Path)
    ensures
        r@ == spec_path_push(p@, seg@),
{
    let mut out = p.duplicate();
    let seg_chars = str_chars(seg);
    out.segments.push(crate::text::chars_to_string(&seg_chars));
    proof {
        assert(segs_model(out.segments@) =~= p@.segments.push(seg@));
    }
    out
}

/// The wrapper generated for one skeleton signature under the given real
/// module path: the same name, the same annotations, the same arguments,
/// and a body of exactly one call to the real function.
pub open spec fn spec_render_fn(f: MirrorFnModel, path: PathModel) -> RenderedFnModel {
    RenderedFnModel {
        name: f.name,
        signature: f.signature,
        attrs: f.attrs,
        target: spec_path_push(path, f.name),
        forwarded_args: f.args,
    }
}

/// The wrappers of a function list, from position `i` on.
pub open spec fn spec_render_fns(fs: Seq<MirrorFnModel>, path: PathModel, i: int) -> Seq<
    RenderedFnModel,
>
    decreases fs.len() - i,
{
    if i < 0 || i >= fs.len() {
        Seq::empty()
    } else {
        seq![spec_render_fn(fs[i], path)] + spec_render_fns(fs, path, i + 1)
    }
}

/// The marker stubs of one impl block: one per method, named from the
/// owning type and the method, carrying the method's annotations; a block
/// whose type is unusable contributes no stubs and one diagnostic.
pub open spec fn spec_render_impl(b: MirrorImplBlockModel) -> (Seq<RenderedStubModel>, Seq<
    Diagnostic,
>) {
    match spec_impl_ty(b.self_ty) {
        Ok(ty) => (spec_render_stubs(b.functions, ty, 0), Seq::empty()),
        Err(d) => (Seq::empty(), seq![d]),
    }
}

/// The stubs of a method list, from position `i` on.
pub open spec fn spec_render_stubs(fs: Seq<MirrorFnModel>, ty: Seq<char>, i: int) -> Seq<
    RenderedStubModel,
>
    decreases fs.len() - i,
{
    if i < 0 || i >= fs.len() {
        Seq::empty()
    } else {
        seq![
            RenderedStubModel { name: spec_stub_name(ty, fs[i].name), attrs: fs[i].attrs },
        ] + spec_render_stubs(fs, ty, i + 1)
    }
}

/// The stubs and diagnostics of an impl-block list, from position `i` on.
pub open spec fn spec_render_impls(bs: Seq<MirrorImplBlockModel>, i: int) -> (Seq<
    RenderedStubModel,
>, Seq<Diagnostic>)
    decreases bs.len() - i,
{
    if i < 0 || i >= bs.len() {
        (Seq::empty(), Seq::empty())
    } else {
        let (stubs, diags) = spec_render_impl(bs[i]);
        let (rest_stubs, rest_diags) = spec_render_impls(bs, i + 1);
        (stubs + rest_stubs, diags + rest_diags)
    }
}

/// The rendering of one skeleton module under the given real path and
/// normalized visibility, and its diagnostics.
pub open spec fn spec_render_module(m: MirrorModuleModel, path: PathModel, is_public: bool) -> (
    RenderedModuleModel,
    Seq<Diagnostic>,
)
    decreases m, 0int,
{
    let (stubs, impl_diags) = spec_render_impls(m.impl_blocks, 0);
    let (subs, sub_diags) = spec_render_children(m.modules, path, is_public, 0);
    (
        RenderedModuleModel {
            name: m.name,
            is_public,
            reexport: path,
            wrappers: spec_render_fns(m.functions, path, 0),
            stubs,
            modules: subs,
        },
        impl_diags + sub_diags,
    )
}

/// The renderings of a nested-module list, from position `i` on; each
/// nested module extends the real path by its own name.
pub open spec fn spec_render_children(
    ms: Seq<MirrorModuleModel>,
    path: PathModel,
    is_public: bool,
    i: int,
) -> (Seq<RenderedModuleModel>, Seq<Diagnostic>)
    decreases ms, ms.len() - i
        via spec_render_children_decreases
{
    if i < 0 || i >= ms.len() {
        (Seq::empty(), Seq::empty())
    } else {
        let (sub, diags) = spec_render_module(ms[i], spec_path_push(path, ms[i].name), is_public);
        let (rest, rest_diags) = spec_render_children(ms, path, is_public, i + 1);
        (seq![sub] + rest, diags + rest_diags)
    }
}

#[via_fn]
proof fn spec_render_children_decreases(
    ms: Seq<MirrorModuleModel>,
    path: PathModel,
    is_public: bool,
    i: int,
) {
    if 0 <= i < ms.len() {
        assert(decreases_to!(ms => ms[i]));
    }
}

/// What rendering a whole skeleton yields: the top-level module keeps its
/// own written visibility and the real target path; everything below is
/// `pub` when the top module is and crate-visible otherwise.
pub open spec fn spec_render_mirror(m: MirrorModuleModel, target: PathModel) -> (
    RenderedModuleModel,
    Seq<Diagnostic>,
) {
    spec_render_module(m, target, m.is_public)
}


/// The element of the module-list model at a position is the model of the
/// element there.
pub proof fn lemma_modules_model_index(ms: Seq<MirrorModule>, i: int, k: int)
    requires
        0 <= i <= k < ms.len(),
    ensures
        modules_model(ms, i).len() == ms.len() - i,
        modules_model(ms, i)[k - i] == module_model(ms[k]),
    decreases k - i,
{
    if i < k {
        lemma_modules_model_index(ms, i + 1, k);
    } else {
        lemma_modules_model_len(ms, i + 1);
    }
}

/// The length of the module-list model.
pub proof fn lemma_modules_model_len(ms: Seq<MirrorModule>, i: int)
    ensures
        modules_model(ms, i).len() == if i < 0 {
            0
        } else if i > ms.len() {
            0
        } else {
            ms.len() - i
        },
    decreases ms.len() - i,
{
    if 0 <= i < ms.len() {
        lemma_modules_model_len(ms, i + 1);
    }
}

/// A generated wrapper function, at runtime.
#[derive(Debug)]
pub struct RenderedFn {
    /// The wrapper's name.
    pub name: String,
    /// The wrapper's signature, unchanged from the skeleton.
    pub signature: String,
    /// The annotations carried over.
    pub attrs: Vec<RawAttr>,
    /// The full path of the real function the body calls.
    pub target: Path,
    /// The forwarded argument names.
    pub forwarded_args: Vec<String>,
}

impl View for RenderedFn {
    type V = RenderedFnModel;

    open spec fn view(&self) -> RenderedFnModel {
        RenderedFnModel {
            name: self.name@,
            signature: self.signature@,
            attrs: self.attrs@.map_values(|a: RawAttr| a@),
            target: self.target@,
            forwarded_args: segs_model(self.forwarded_args@),
        }
    }
}

/// A generated marker stub, at runtime.
#[derive(Debug)]
pub struct RenderedStub {
    /// The stub's name.
    pub name: String,
    /// The annotations carried over.
    pub attrs: Vec<RawAttr>,
}

impl View for RenderedStub {
    type V = RenderedStubModel;

    open spec fn view(&self) -> RenderedStubModel {
        RenderedStubModel { name: self.name@, attrs: self.attrs@.map_values(|a: RawAttr| a@) }
    }
}

/// A generated mirror module, at runtime.
#[derive(Debug)]
pub struct RenderedModule {
    /// The module's name.
    pub name: String,
    /// Whether the module and its generated items are `pub`.
    pub is_public: bool,
    /// The real module path this level re-exports.
    pub reexport: Path,
    /// The generated wrappers.
    pub wrappers: Vec<RenderedFn>,
    /// The generated stubs.
    pub stubs: Vec<RenderedStub>,
    /// The rendered nested modules.
    pub modules: Vec<RenderedModule>,
}

/// The model of a rendered module.
pub open spec fn rendered_model(r: RenderedModule) -> RenderedModuleModel
    decreases r, 0int,
{
    RenderedModuleModel {
        name: r.name@,
        is_public: r.is_public,
        reexport: r.reexport@,
        wrappers: r.wrappers@.map_values(|f: RenderedFn| f@),
        stubs: r.stubs@.map_values(|st: RenderedStub| st@),
        modules: rendered_models(r.modules@, 0),
    }
}

/// The models of a rendered-module list, from position `i` on.
pub open spec fn rendered_models(rs: Seq<RenderedModule>, i: int) -> Seq<RenderedModuleModel>
    decreases rs, rs.len() - i
        via rendered_models_decreases
{
    if i < 0 || i >= rs.len() {
        Seq::empty()
    } else {
        seq![rendered_model(rs[i])] + rendered_models(rs, i + 1)
    }
}

#[via_fn]
proof fn rendered_models_decreases(rs: Seq<RenderedModule>, i: int) {
    if 0 <= i < rs.len() {
        assert(decreases_to!(rs => rs[i]));
    }
}

/// A copy of an annotation list with the same model.
fn duplicate_attrs(attrs: &Vec<RawAttr>) -> (r: Vec<RawAttr>)
    ensures
        r@.map_values(|a: RawAttr| a@) == attrs@.map_values(|a: RawAttr| a@),
{
    let mut r: Vec<RawAttr> = Vec::new();
    let mut i: usize = 0;
    while i < attrs.len()
        invariant
            i <= attrs@.len(),
            r@.map_values(|a: RawAttr| a@) == attrs@.take(i as int).map_values(|a: RawAttr| a@),
        decreases attrs@.len() - i,
    {
        let ghost old_r = r@;
        r.push(attrs[i].duplicate());
        proof {
            let f = |a: RawAttr| a@;
            assert(r@.map_values(f) =~= old_r.map_values(f).push(attrs@[i as int]@));
            assert(attrs@.take(i as int + 1) =~= attrs@.take(i as int).push(attrs@[i as int]));
            assert(attrs@.take(i as int + 1).map_values(f) =~= attrs@.take(i as int).map_values(
                f,
            ).push(f(attrs@[i as int])));
        }
        i = i + 1;
    }
    proof {
        assert(attrs@.take(attrs@.len() as int) =~= attrs@);
    }
    r
}

/// A copy of a name list with the same model.
fn duplicate_names(names: &Vec<String>) -> (r: Vec<String>)
    ensures
        segs_model(r@) == segs_model(names@),
{
    let mut r: Vec<String> = Vec::new();
    let mut i: usize = 0;
    while i < names.len()
        invariant
            i <= names@.len(),
            segs_model(r@) == segs_model(names@).take(i as int),
        decreases names@.len() - i,
    {
        let ghost old_r = r@;
        r.push(names[i].clone());
        proof {
            assert(segs_model(r@) =~= segs_model(old_r).push(names@[i as int]@));
            assert(segs_model(names@).take(i as int + 1) =~= segs_model(names@).take(
                i as int,
            ).push(segs_model(names@)[i as int]));
        }
        i = i + 1;
    }
    proof {
        assert(segs_model(names@).take(names@.len() as int) =~= segs_model(names@));
    }
    r
}

/// Renders the wrappers of a function list, from position `i` on.
fn render_fns(fs: &Vec<MirrorFn>, path: &Path, i: usize) -> (r: Vec<RenderedFn>)
    requires
        i <= fs@.len(),
    ensures
        r@.map_values(|f: RenderedFn| f@) == spec_render_fns(
            fs@.map_values(|f: MirrorFn| f@),
            path@,
            i as int,
        ),
    decreases fs@.len() - i,
{
    let ghost model = fs@.map_values(|f: MirrorFn| f@);
    if i >= fs.len() {
        let r: Vec<RenderedFn> = Vec::new();
        proof {
            assert(r@.map_values(|f: RenderedFn| f@) =~= spec_render_fns(model, path@, i as int));
        }
        return r;
    }
    let f = &fs[i];
    let head = RenderedFn {
        name: f.name.clone(),
        signature: f.signature.clone(),
        attrs: duplicate_attrs(&f.attrs),
        target: path_push(path, f.name.as_str()),
        forwarded_args: duplicate_names(&f.args),
    };
    let ghost head_model = head@;
    let rest = render_fns(fs, path, i + 1);
    let ghost rest_model = rest@.map_values(|f: RenderedFn| f@);
    let mut out = rest;
    out.insert(0, head);
    proof {
        assert(model[i as int] == fs@[i as int]@);
        assert(head_model == spec_render_fn(model[i as int], path@));
        assert(out@.map_values(|f: RenderedFn| f@) =~= seq![head_model] + rest_model);
    }
    out
}

/// Renders the marker stubs of a method list under one owning type, from
/// position `i` on.
fn render_stubs(fs: &Vec<MirrorFn>, ty: &str, i: usize) -> (r: Vec<RenderedStub>)
    requires
        i <= fs@.len(),
    ensures
        r@.map_values(|st: RenderedStub| st@) == spec_render_stubs(
            fs@.map_values(|f: MirrorFn| f@),
            ty@,
            i as int,
        ),
    decreases fs@.len() - i,
{
    let ghost model = fs@.map_values(|f: MirrorFn| f@);
    if i >= fs.len() {
        let r: Vec<RenderedStub> = Vec::new();
        proof {
            assert(r@.map_values(|st: RenderedStub| st@) =~= spec_render_stubs(
                model,
                ty@,
                i as int,
            ));
        }
        return r;
    }
    let f = &fs[i];
    let head = RenderedStub {
        name: impl_block_stub_name(ty, f.name.as_str()),
        attrs: duplicate_attrs(&f.attrs),
    };
    let ghost head_model = head@;
    let rest = render_stubs(fs, ty, i + 1);
    let ghost rest_model = rest@.map_values(|st: RenderedStub| st@);
    let mut out = rest;
    out.insert(0, head);
    proof {
        assert(model[i as int] == fs@[i as int]@);
        assert(out@.map_values(|st: RenderedStub| st@) =~= seq![head_model] + rest_model);
    }
    out
}

/// Renders the stubs and diagnostics of an impl-block list, from position
/// `i` on.
fn render_impls(bs: &Vec<MirrorImplBlock>, i: usize) -> (r: (Vec<RenderedStub>, Vec<Diagnostic>))
    requires
        i <= bs@.len(),
    ensures
        ({
            let (stubs, diags) = spec_render_impls(
                bs@.map_values(|b: MirrorImplBlock| b@),
                i as int,
            );
            &&& r.0@.map_values(|st: RenderedStub| st@) == stubs
            &&& r.1@ == diags
        }),
    decreases bs@.len() - i,
{
    let ghost model = bs@.map_values(|b: MirrorImplBlock| b@);
    if i >= bs.len() {
        let stubs: Vec<RenderedStub> = Vec::new();
        let diags: Vec<Diagnostic> = Vec::new();
        proof {
            assert(stubs@.map_values(|st: RenderedStub| st@) =~= Seq::<RenderedStubModel>::empty());
            assert(diags@ =~= Seq::<Diagnostic>::empty());
        }
        return (stubs, diags);
    }
    let b = &bs[i];
    proof {
        assert(model[i as int] == bs@[i as int]@);
    }
    let (mut head_stubs, mut head_diags) = match impl_ty(&b.self_ty) {
        Ok(ty) => {
            let stubs = render_stubs(&b.functions, ty.as_str(), 0);
            let diags: Vec<Diagnostic> = Vec::new();
            proof {
                assert(diags@ =~= Seq::<Diagnostic>::empty());
            }
            (stubs, diags)
        }
        Err(d) => {
            let stubs: Vec<RenderedStub> = Vec::new();
            let mut diags: Vec<Diagnostic> = Vec::new();
            diags.push(d);
            proof {
                assert(stubs@.map_values(|st: RenderedStub| st@) =~= Seq::<
                    RenderedStubModel,
                >::empty());
                assert(diags@ =~= seq![d]);
            }
            (stubs, diags)
        }
    };
    let ghost head_stub_model = head_stubs@.map_values(|st: RenderedStub| st@);
    let ghost head_diag_model = head_diags@;
    let (mut rest_stubs, mut rest_diags) = render_impls(bs, i + 1);
    head_stubs.append(&mut rest_stubs);
    head_diags.append(&mut rest_diags);
    (head_stubs, head_diags)
}

/// Renders one skeleton module under the given real path and normalized
/// visibility, as `spec_render_module` describes.
fn render_module(m: &MirrorModule, path: &Path, is_public: bool) -> (r: (
    RenderedModule,
    Vec<Diagnostic>,
))
    ensures
        ({
            let (rendered, diags) = spec_render_module(module_model(*m), path@, is_public);
            &&& rendered_model(r.0) == rendered
            &&& r.1@ == diags
        }),
    decreases *m, 0int,
{
    let wrappers = render_fns(&m.functions, path, 0);
    let (stubs, mut diags) = render_impls(&m.impl_blocks, 0);
    let (modules, mut sub_diags) = render_children(&m.modules, path, is_public, 0);
    let ghost impl_diags = diags@;
    diags.append(&mut sub_diags);
    let out = RenderedModule {
        name: m.name.clone(),
        is_public,
        reexport: path.duplicate(),
        wrappers,
        stubs,
        modules,
    };
    proof {
        assert(rendered_model(out) == spec_render_module(module_model(*m), path@, is_public).0);
    }
    (out, diags)
}

/// Renders a nested-module list, from position `i` on; each nested module
/// extends the real path by its own name.
fn render_children(ms: &Vec<MirrorModule>, path: &Path, is_public: bool, i: usize) -> (r: (
    Vec<RenderedModule>,
    Vec<Diagnostic>,
))
    requires
        i <= ms@.len(),
    ensures
        ({
            let (rendered, diags) = spec_render_children(
                modules_model(ms@, 0),
                path@,
                is_public,
                i as int,
            );
            &&& rendered_models(r.0@, 0) == rendered
            &&& r.1@ == diags
        }),
    decreases *ms, ms@.len() - i,
{
    proof {
        lemma_modules_model_len(ms@, 0);
    }
    if i >= ms.len() {
        let rendered: Vec<RenderedModule> = Vec::new();
        let diags: Vec<Diagnostic> = Vec::new();
        proof {
            assert(rendered_models(rendered@, 0) =~= Seq::<RenderedModuleModel>::empty());
            assert(spec_render_children(modules_model(ms@, 0), path@, is_public, i as int).0
                =~= Seq::<RenderedModuleModel>::empty());
            assert(spec_render_children(modules_model(ms@, 0), path@, is_public, i as int).1
                =~= Seq::<Diagnostic>::empty());
            assert(diags@ =~= Seq::<Diagnostic>::empty());
        }
        return (rendered, diags);
    }
    let sub = &ms[i];
    proof {
        assert(decreases_to!(*ms => ms@[i as int]));
        lemma_modules_model_index(ms@, 0, i as int);
    }
    let sub_path = path_push(path, sub.name.as_str());
    let (head, mut diags) = render_module(sub, &sub_path, is_public);
    let (rest, mut rest_diags) = render_children(ms, path, is_public, i + 1);
    let ghost head_model = rendered_model(head);
    let ghost rest_view = rest@;
    let ghost rest_models = rendered_models(rest@, 0);
    let mut out = rest;
    out.insert(0, head);
    diags.append(&mut rest_diags);
    proof {
        lemma_rendered_models_cons(out@);
        assert(out@[0] == head);
        assert(out@.skip(1) =~= rest_view);
        assert(rendered_models(out@.skip(1), 0) == rest_models);
        assert(rendered_models(out@, 0) =~= seq![head_model] + rest_models);
    }
    (out, diags)
}

/// The model of a non-empty rendered list is its head's model in front of
/// its tail's models.
proof fn lemma_rendered_models_cons(rs: Seq<RenderedModule>)
    requires
        rs.len() > 0,
    ensures
        rendered_models(rs, 0) == seq![rendered_model(rs[0])] + rendered_models_of_tail(rs),
        rendered_models_of_tail(rs) == rendered_models(rs.skip(1), 0),
    decreases rs.len(),
{
    lemma_rendered_models_shift(rs, 1);
}

/// The tail's models, phrased over the whole list.
pub open spec fn rendered_models_of_tail(rs: Seq<RenderedModule>) -> Seq<RenderedModuleModel> {
    rendered_models(rs, 1)
}

/// The models from position `i` of a list equal the models from zero of
/// the list with its first `i` elements dropped.
proof fn lemma_rendered_models_shift(rs: Seq<RenderedModule>, i: int)
    requires
        0 <= i <= rs.len(),
    ensures
        rendered_models(rs, i) == rendered_models(rs.skip(i), 0),
    decreases rs.len() - i,
{
    if i < rs.len() {
        lemma_rendered_models_shift(rs, i + 1);
        assert(rs.skip(i)[0] == rs[i]);
        assert(rs.skip(i + 1) =~= rs.skip(i).skip(1));
        lemma_rendered_models_shift_once(rs.skip(i));
    }
}

/// One unfolding step of the tail correspondence.
proof fn lemma_rendered_models_shift_once(rs: Seq<RenderedModule>)
    requires
        rs.len() > 0,
    ensures
        rendered_models(rs, 0) == seq![rendered_model(rs[0])] + rendered_models(rs, 1),
        rendered_models(rs, 1) == rendered_models(rs.skip(1), 0),
    decreases rs.len(),
{
    assert(rendered_models(rs, 0) == seq![rendered_model(rs[0])] + rendered_models(rs, 1));
    lemma_rendered_models_tail_eq(rs, 1);
}

/// Positions from `i` in the list match positions from `i - 1` in its
/// tail.
proof fn lemma_rendered_models_tail_eq(rs: Seq<RenderedModule>, i: int)
    requires
        1 <= i <= rs.len(),
    ensures
        rendered_models(rs, i) == rendered_models(rs.skip(1), i - 1),
    decreases rs.len() - i,
{
    if i < rs.len() {
        lemma_rendered_models_tail_eq(rs, i + 1);
        assert(rs.skip(1)[i - 1] == rs[i]);
    }
}

/// Renders a whole skeleton, as `spec_render_mirror` describes: the top
/// module keeps its own written visibility; everything below is `pub`
/// exactly when the top module is.
pub fn render_mirror(m: &MirrorModule, target: &Path) -> (r: (RenderedModule, Vec<Diagnostic>))
    ensures
        ({
            let (rendered, diags) = spec_render_mirror(module_model(*m), target@);
            &&& rendered_model(r.0) == rendered
            &&& r.1@ == diags
        }),
{
    render_module(m, target, m.is_public)
}

} // verus!
