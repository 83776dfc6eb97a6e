use crate::info::{CxxAbiArtifactInfo, LayoutView};
use crate::names::{clone_names, names_view};
use crate::regions::{region_count, region_at};
use vstd::prelude::*;
use vstd::string::StringExecFns;

verus! {

/// A lifetime parameter of a shadow type: its name and the names of the
/// regions it must outlive.
#[derive(Debug)]
pub struct LifetimeParam {
    pub name: String,
    pub bounds: Vec<String>,
}

impl View for LifetimeParam {
    type V = (Seq<char>, Seq<Seq<char>>);

    open spec fn view(&self) -> (Seq<char>, Seq<Seq<char>>) {
        (self.name@, names_view(self.bounds@))
    }
}

pub open spec fn params_view(v: Seq<LifetimeParam>) -> Seq<(Seq<char>, Seq<Seq<char>>)> {
    v.map_values(|p: LifetimeParam| p@)
}

/// A field of a shadow type.
#[derive(Debug, Clone, Copy, PartialEq, Eq, Structural)]
pub enum ShadowField {
    /// The opaque byte buffer, as long as the measured size.
    Layout,
    /// A marker that keeps the type from crossing or being shared between threads.
    NeitherSendNorSync,
    /// A marker that keeps the type at a stable address.
    Pinned,
    /// A marker that mentions each lifetime parameter once.
    Lifetimes,
}

/// An operation gated by a capability predicate: it is emitted as an
/// implementation on the shadow type and as the bridge function that the
/// implementation forwards to.
#[derive(Debug, Clone, Copy, PartialEq, Eq, Structural)]
pub enum Capability {
    /// Placement copy construction.
    CopyNew,
    /// Placement move construction.
    MoveNew,
    /// Placement default construction.
    DefaultNew,
    /// Destruction, forwarded to the foreign destructor.
    Destruct,
}

/// The declaration of a shadow type: a C-layout struct with the measured
/// alignment, whose data is a byte buffer of the measured size.
#[derive(Debug)]
pub struct ShadowStruct {
    pub ident: String,
    pub derive_copy: bool,
    pub align: usize,
    pub size: usize,
    pub generics: Vec<LifetimeParam>,
    pub fields: Vec<ShadowField>,
}

pub ghost struct ShadowStructView {
    pub ident: Seq<char>,
    pub derive_copy: bool,
    pub align: usize,
    pub size: usize,
    pub generics: Seq<(Seq<char>, Seq<Seq<char>>)>,
    pub fields: Seq<ShadowField>,
}

impl View for ShadowStruct {
    type V = ShadowStructView;

    open spec fn view(&self) -> ShadowStructView {
        ShadowStructView {
            ident: self.ident@,
            derive_copy: self.derive_copy,
            align: self.align,
            size: self.size,
            generics: params_view(self.generics@),
            fields: self.fields@,
        }
    }
}

/// The registration of a shadow type with the bridge: the foreign type it
/// stands for and whether it is classified as trivial or opaque.
#[derive(Debug)]
pub struct ExternTypeImpl {
    pub type_id: String,
    pub trivial: bool,
}

impl View for ExternTypeImpl {
    type V = (Seq<char>, bool);

    open spec fn view(&self) -> (Seq<char>, bool) {
        (self.type_id@, self.trivial)
    }
}

/// The bridge module of a shadow type: the foreign type it binds and the
/// foreign functions that its capability implementations call.
#[derive(Debug)]
pub struct ShadowBridge {
    pub cxx_include: String,
    pub cxx_namespace: String,
    pub cxx_name: String,
    pub functions: Vec<Capability>,
}

pub ghost struct ShadowBridgeView {
    pub cxx_include: Seq<char>,
    pub cxx_namespace: Seq<char>,
    pub cxx_name: Seq<char>,
    pub functions: Seq<Capability>,
}

impl View for ShadowBridge {
    type V = ShadowBridgeView;

    open spec fn view(&self) -> ShadowBridgeView {
        ShadowBridgeView {
            cxx_include: self.cxx_include@,
            cxx_namespace: self.cxx_namespace@,
            cxx_name: self.cxx_name@,
            functions: self.functions@,
        }
    }
}

/// The self-check of a shadow module: the size and alignment that the
/// shadow type must have, with every lifetime parameter set to the longest
/// one, and the marker traits it must implement.
#[derive(Debug, Clone, Copy, PartialEq, Eq, Structural)]
pub struct SelfCheck {
    pub align: usize,
    pub size: usize,
    pub lifetime_count: usize,
    pub assert_copy: bool,
    pub assert_unpin: bool,
}

/// The model of the module generated for one layout descriptor.
#[derive(Debug)]
pub struct ShadowModule {
    pub child_modules: Vec<String>,
    pub shadow: ShadowStruct,
    pub extern_type: ExternTypeImpl,
    pub impls: Vec<Capability>,
    pub bridge: ShadowBridge,
    pub self_check: SelfCheck,
}

pub ghost struct ShadowModuleView {
    pub child_modules: Seq<Seq<char>>,
    pub shadow: ShadowStructView,
    pub extern_type: (Seq<char>, bool),
    pub impls: Seq<Capability>,
    pub bridge: ShadowBridgeView,
    pub self_check: SelfCheck,
}

impl View for ShadowModule {
    type V = ShadowModuleView;

    open spec fn view(&self) -> ShadowModuleView {
        ShadowModuleView {
            child_modules: names_view(self.child_modules@),
            shadow: self.shadow@,
            extern_type: self.extern_type@,
            impls: self.impls@,
            bridge: self.bridge@,
            self_check: self.self_check,
        }
    }
}

/// `x` alone where `flag` holds, nothing otherwise.
pub open spec fn gated<T>(flag: bool, x: T) -> Seq<T> {
    if flag {
        seq![x]
    } else {
        Seq::empty()
    }
}

/// The fields of the shadow type: the byte buffer, then the markers that
/// the missing capabilities and the lifetime regions call for.
pub open spec fn spec_shadow_fields(v: LayoutView) -> Seq<ShadowField> {
    seq![ShadowField::Layout] + gated(!v.is_rust_send && !v.is_rust_sync, ShadowField::NeitherSendNorSync)
        + gated(!v.is_rust_unpin, ShadowField::Pinned) + gated(
        v.lifetimes.len() > 0,
        ShadowField::Lifetimes,
    )
}

pub open spec fn spec_shadow_struct(v: LayoutView) -> ShadowStructView {
    ShadowStructView {
        ident: v.rust_name,
        derive_copy: v.is_rust_copy,
        align: v.align,
        size: v.size,
        generics: v.lifetimes,
        fields: spec_shadow_fields(v),
    }
}

/// The foreign type's identity: its namespace and name joined by `::`.
pub open spec fn spec_type_id(v: LayoutView) -> Seq<char> {
    v.cxx_namespace + seq![':', ':'] + v.cxx_name
}

/// The capability implementations, in the order they are emitted.
pub open spec fn spec_impls(v: LayoutView) -> Seq<Capability> {
    gated(v.is_rust_drop, Capability::Destruct) + gated(v.is_rust_default, Capability::DefaultNew)
        + gated(v.is_rust_copy_new, Capability::CopyNew) + gated(
        v.is_rust_move_new,
        Capability::MoveNew,
    )
}

/// The bridge functions that the capability implementations call, in the
/// order they are declared.
pub open spec fn spec_bridge_functions(v: LayoutView) -> Seq<Capability> {
    gated(v.is_rust_copy_new, Capability::CopyNew) + gated(v.is_rust_move_new, Capability::MoveNew)
        + gated(v.is_rust_default, Capability::DefaultNew) + gated(
        v.is_rust_drop,
        Capability::Destruct,
    )
}

pub open spec fn spec_self_check(v: LayoutView) -> SelfCheck {
    SelfCheck {
        align: v.align,
        size: v.size,
        lifetime_count: v.lifetimes.len() as usize,
        assert_copy: v.is_rust_copy,
        assert_unpin: v.is_rust_unpin,
    }
}

/// The shadow module of a layout descriptor.
pub open spec fn spec_shadow_module(v: LayoutView) -> ShadowModuleView {
    ShadowModuleView {
        child_modules: v.path_descendants,
        shadow: spec_shadow_struct(v),
        extern_type: (spec_type_id(v), v.is_rust_cxx_extern_type_trivial),
        impls: spec_impls(v),
        bridge: ShadowBridgeView {
            cxx_include: v.cxx_include,
            cxx_namespace: v.cxx_namespace,
            cxx_name: v.cxx_name,
            functions: spec_bridge_functions(v),
        },
        self_check: spec_self_check(v),
    }
}

/// The lifetime parameters of the shadow type, with their bounds, in the
/// order of the descriptor's regions.
fn emit_generics(info: &CxxAbiArtifactInfo) -> (r: Vec<LifetimeParam>)
    ensures
        params_view(r@) == info@.lifetimes,
{
    let n = region_count(&info.lifetimes);
    let mut r: Vec<LifetimeParam> = Vec::new();
    let mut i: usize = 0;
    while i < n
        invariant
            i <= n,
            n == info@.lifetimes.len(),
            r@.len() == i,
            forall|j: int| 0 <= j < i ==> r@[j]@ == info@.lifetimes[j],
        decreases n - i,
    {
        let (name, bounds) = region_at(&info.lifetimes, i);
        r.push(LifetimeParam { name, bounds });
        i += 1;
    }
    assert(params_view(r@) =~= info@.lifetimes);
    r
}

fn field_neither_send_nor_sync(info: &CxxAbiArtifactInfo) -> (r: Option<ShadowField>)
    ensures
        r == (if !info.is_rust_send && !info.is_rust_sync {
            Some(ShadowField::NeitherSendNorSync)
        } else {
            None
        }),
{
    if !info.is_rust_send && !info.is_rust_sync {
        Some(ShadowField::NeitherSendNorSync)
    } else {
        None
    }
}

fn field_pinned(info: &CxxAbiArtifactInfo) -> (r: Option<ShadowField>)
    ensures
        r == (if info.is_rust_unpin {
            None
        } else {
            Some(ShadowField::Pinned)
        }),
{
    if info.is_rust_unpin {
        None
    } else {
        Some(ShadowField::Pinned)
    }
}

fn field_lifetimes(generics: &Vec<LifetimeParam>) -> (r: Option<ShadowField>)
    ensures
        r == (if generics@.len() > 0 {
            Some(ShadowField::Lifetimes)
        } else {
            None
        }),
{
    if generics.len() > 0 {
        Some(ShadowField::Lifetimes)
    } else {
        None
    }
}

fn push_gated<T>(v: &mut Vec<T>, x: Option<T>)
    ensures
        final(v)@ == old(v)@ + (match x {
            Some(y) => seq![y],
            None => Seq::empty(),
        }),
{
    match x {
        Some(y) => {
            v.push(y);
            assert(final(v)@ =~= old(v)@ + seq![y]);
        },
        None => {
            assert(final(v)@ =~= old(v)@ + Seq::<T>::empty());
        },
    }
}

fn emit_struct(info: &CxxAbiArtifactInfo) -> (r: ShadowStruct)
    ensures
        r@ == spec_shadow_struct(info@),
{
    let generics = emit_generics(info);
    let mut fields: Vec<ShadowField> = Vec::new();
    fields.push(ShadowField::Layout);
    push_gated(&mut fields, field_neither_send_nor_sync(info));
    push_gated(&mut fields, field_pinned(info));
    push_gated(&mut fields, field_lifetimes(&generics));
    assert(fields@ =~= spec_shadow_fields(info@));
    ShadowStruct {
        ident: info.rust_name.clone(),
        derive_copy: info.is_rust_copy,
        align: info.align,
        size: info.size,
        generics,
        fields,
    }
}

fn emit_impl_cxx_extern_type(info: &CxxAbiArtifactInfo) -> (r: ExternTypeImpl)
    ensures
        r@ == (spec_type_id(info@), info.is_rust_cxx_extern_type_trivial),
{
    let mut type_id = info.cxx_namespace.clone();
    type_id.append("::");
    proof {
        reveal_strlit("::");
    }
    type_id.append(info.cxx_name.as_str());
    assert(type_id@ =~= spec_type_id(info@));
    ExternTypeImpl { type_id, trivial: info.is_rust_cxx_extern_type_trivial }
}

fn gate(flag: bool, c: Capability) -> (r: Option<Capability>)
    ensures
        r == (if flag {
            Some(c)
        } else {
            None
        }),
{
    if flag {
        Some(c)
    } else {
        None
    }
}

/// The destructor, forwarded to the foreign one, where the type is destructible.
fn emit_impl_drop(info: &CxxAbiArtifactInfo) -> (r: Option<Capability>)
    ensures
        r == (if info.is_rust_drop {
            Some(Capability::Destruct)
        } else {
            None
        }),
{
    gate(info.is_rust_drop, Capability::Destruct)
}

/// Placement default construction, where the type is default-constructible.
fn emit_impl_default(info: &CxxAbiArtifactInfo) -> (r: Option<Capability>)
    ensures
        r == (if info.is_rust_default {
            Some(Capability::DefaultNew)
        } else {
            None
        }),
{
    gate(info.is_rust_default, Capability::DefaultNew)
}

/// Placement copy construction, where the type supports it.
fn emit_impl_moveit_copy_new(info: &CxxAbiArtifactInfo) -> (r: Option<Capability>)
    ensures
        r == (if info.is_rust_copy_new {
            Some(Capability::CopyNew)
        } else {
            None
        }),
{
    gate(info.is_rust_copy_new, Capability::CopyNew)
}

/// Placement move construction, where the type supports it.
fn emit_impl_moveit_move_new(info: &CxxAbiArtifactInfo) -> (r: Option<Capability>)
    ensures
        r == (if info.is_rust_move_new {
            Some(Capability::MoveNew)
        } else {
            None
        }),
{
    gate(info.is_rust_move_new, Capability::MoveNew)
}

fn emit_impls(info: &CxxAbiArtifactInfo) -> (r: Vec<Capability>)
    ensures
        r@ == spec_impls(info@),
{
    let mut r: Vec<Capability> = Vec::new();
    push_gated(&mut r, emit_impl_drop(info));
    push_gated(&mut r, emit_impl_default(info));
    push_gated(&mut r, emit_impl_moveit_copy_new(info));
    push_gated(&mut r, emit_impl_moveit_move_new(info));
    assert(r@ =~= spec_impls(info@));
    r
}

fn emit_item_mod_cxx_bridge(info: &CxxAbiArtifactInfo) -> (r: ShadowBridge)
    ensures
        r@ == spec_shadow_module(info@).bridge,
{
    let mut functions: Vec<Capability> = Vec::new();
    push_gated(&mut functions, emit_impl_moveit_copy_new(info));
    push_gated(&mut functions, emit_impl_moveit_move_new(info));
    push_gated(&mut functions, emit_impl_default(info));
    push_gated(&mut functions, emit_impl_drop(info));
    assert(functions@ =~= spec_bridge_functions(info@));
    ShadowBridge {
        cxx_include: info.cxx_include.clone(),
        cxx_namespace: info.cxx_namespace.clone(),
        cxx_name: info.cxx_name.clone(),
        functions,
    }
}

fn emit_info_test_module(info: &CxxAbiArtifactInfo) -> (r: SelfCheck)
    ensures
        r == spec_self_check(info@),
{
    SelfCheck {
        align: info.align,
        size: info.size,
        lifetime_count: region_count(&info.lifetimes),
        assert_copy: info.is_rust_copy,
        assert_unpin: info.is_rust_unpin,
    }
}

impl CxxAbiArtifactInfo {
    /// The model of the module generated for this layout descriptor.
    pub fn emit_file(&self) -> (r: ShadowModule)
        ensures
            r@ == spec_shadow_module(self@),
    {
        ShadowModule {
            child_modules: clone_names(&self.path_descendants),
            shadow: emit_struct(self),
            extern_type: emit_impl_cxx_extern_type(self),
            impls: emit_impls(self),
            bridge: emit_item_mod_cxx_bridge(self),
            self_check: emit_info_test_module(self),
        }
    }
}

} // verus!
