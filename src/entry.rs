use crate::emit::{LifetimeParam, params_view};
use crate::info::{AbiProbes, CxxAbiArtifactInfo, LayoutView, spec_trivial_abi};
use crate::names::{clone_names, names_view};
use crate::regions::{region_count, region_at, region_entries};
use indexmap::IndexMap;
use vstd::prelude::*;

verus! {

/// One descriptor: the foreign type to mirror, where its declaration and
/// its reflection probes are found, the name of its shadow type, and its
/// lifetime regions, each with the regions it must outlive.
pub struct CxxAbiEntry {
    pub cxx_include: String,
    pub cxx_proxy_include: Option<String>,
    pub cxx_namespace: String,
    pub cxx_proxy_namespace: Option<String>,
    pub cxx_name: Option<String>,
    pub rust_name: String,
    pub rust_lifetimes: IndexMap<String, Vec<String>>,
}

pub ghost struct EntryView {
    pub cxx_include: Seq<char>,
    pub cxx_proxy_include: Option<Seq<char>>,
    pub cxx_namespace: Seq<char>,
    pub cxx_proxy_namespace: Option<Seq<char>>,
    pub cxx_name: Option<Seq<char>>,
    pub rust_name: Seq<char>,
    pub rust_lifetimes: Seq<(Seq<char>, Seq<Seq<char>>)>,
}

pub open spec fn opt_text(o: Option<String>) -> Option<Seq<char>> {
    match o {
        Some(s) => Some(s@),
        None => None,
    }
}

impl View for CxxAbiEntry {
    type V = EntryView;

    open spec fn view(&self) -> EntryView {
        EntryView {
            cxx_include: self.cxx_include@,
            cxx_proxy_include: opt_text(self.cxx_proxy_include),
            cxx_namespace: self.cxx_namespace@,
            cxx_proxy_namespace: opt_text(self.cxx_proxy_namespace),
            cxx_name: opt_text(self.cxx_name),
            rust_name: self.rust_name@,
            rust_lifetimes: region_entries(self.rust_lifetimes),
        }
    }
}

/// The foreign name: the one given, else the shadow type's name.
pub open spec fn spec_cxx_name(e: EntryView) -> Seq<char> {
    match e.cxx_name {
        Some(n) => n,
        None => e.rust_name,
    }
}

/// Where the reflection probes are declared: the proxy header if one is
/// given, else the type's own.
pub open spec fn spec_probe_include(e: EntryView) -> Seq<char> {
    match e.cxx_proxy_include {
        Some(p) => p,
        None => e.cxx_include,
    }
}

/// The namespace of the reflection probes: the proxy namespace if one is
/// given, else the type's own.
pub open spec fn spec_probe_namespace(e: EntryView) -> Seq<char> {
    match e.cxx_proxy_namespace {
        Some(p) => p,
        None => e.cxx_namespace,
    }
}

/// What the generated measuring routine of a typed module assembles into a
/// layout descriptor, besides the probe answers.
#[derive(Debug)]
pub struct ArtifactInfoStub {
    pub path_components: Vec<String>,
    pub path_descendants: Vec<String>,
    pub cxx_include: String,
    pub cxx_namespace: String,
    pub cxx_name: String,
    pub rust_name: String,
    pub lifetimes: Vec<LifetimeParam>,
}

pub ghost struct ArtifactInfoStubView {
    pub path_components: Seq<Seq<char>>,
    pub path_descendants: Seq<Seq<char>>,
    pub cxx_include: Seq<char>,
    pub cxx_namespace: Seq<char>,
    pub cxx_name: Seq<char>,
    pub rust_name: Seq<char>,
    pub lifetimes: Seq<(Seq<char>, Seq<Seq<char>>)>,
}

impl View for ArtifactInfoStub {
    type V = ArtifactInfoStubView;

    open spec fn view(&self) -> ArtifactInfoStubView {
        ArtifactInfoStubView {
            path_components: names_view(self.path_components@),
            path_descendants: names_view(self.path_descendants@),
            cxx_include: self.cxx_include@,
            cxx_namespace: self.cxx_namespace@,
            cxx_name: self.cxx_name@,
            rust_name: self.rust_name@,
            lifetimes: params_view(self.lifetimes@),
        }
    }
}

/// The bridge through which a typed module calls its reflection probes.
#[derive(Debug)]
pub struct ProbeBridge {
    pub cxx_include: String,
    pub cxx_namespace: String,
}

impl View for ProbeBridge {
    type V = (Seq<char>, Seq<char>);

    open spec fn view(&self) -> (Seq<char>, Seq<char>) {
        (self.cxx_include@, self.cxx_namespace@)
    }
}

pub open spec fn spec_artifact_info_stub(
    e: EntryView,
    path_components: Seq<Seq<char>>,
    path_descendants: Seq<Seq<char>>,
) -> ArtifactInfoStubView {
    ArtifactInfoStubView {
        path_components,
        path_descendants,
        cxx_include: e.cxx_include,
        cxx_namespace: e.cxx_namespace,
        cxx_name: spec_cxx_name(e),
        rust_name: e.rust_name,
        lifetimes: e.rust_lifetimes,
    }
}

impl CxxAbiEntry {
    /// The foreign name of the type: the one given, else the shadow type's name.
    pub fn cxx_name(&self) -> (r: &str)
        ensures
            r@ == spec_cxx_name(self@),
    {
        match &self.cxx_name {
            Some(n) => n.as_str(),
            None => self.rust_name.as_str(),
        }
    }

    /// The header that declares the reflection probes.
    pub fn probe_include(&self) -> (r: &str)
        ensures
            r@ == spec_probe_include(self@),
    {
        match &self.cxx_proxy_include {
            Some(p) => p.as_str(),
            None => self.cxx_include.as_str(),
        }
    }

    /// The namespace of the reflection probes.
    pub fn probe_namespace(&self) -> (r: &str)
        ensures
            r@ == spec_probe_namespace(self@),
    {
        match &self.cxx_proxy_namespace {
            Some(p) => p.as_str(),
            None => self.cxx_namespace.as_str(),
        }
    }

    /// The lifetime regions in order, each with its bounds.
    pub fn lifetime_params(&self) -> (r: Vec<LifetimeParam>)
        ensures
            params_view(r@) == self@.rust_lifetimes,
    {
        let n = region_count(&self.rust_lifetimes);
        let mut r: Vec<LifetimeParam> = Vec::new();
        let mut i: usize = 0;
        while i < n
            invariant
                i <= n,
                n == self@.rust_lifetimes.len(),
                r@.len() == i,
                forall|j: int| 0 <= j < i ==> r@[j]@ == self@.rust_lifetimes[j],
            decreases n - i,
        {
            let (name, bounds) = region_at(&self.rust_lifetimes, i);
            r.push(LifetimeParam { name, bounds });
            i += 1;
        }
        assert(params_view(r@) =~= self@.rust_lifetimes);
        r
    }

    /// What the measuring routine of the module at `path_components`, with
    /// the child modules `path_descendants`, needs besides the probe answers.
    pub fn emit_items_write_module_for_file(
        &self,
        path_components: &Vec<String>,
        path_descendants: &Vec<String>,
    ) -> (r: ArtifactInfoStub)
        ensures
            r@ == spec_artifact_info_stub(self@, names_view(path_components@), names_view(path_descendants@)),
    {
        ArtifactInfoStub {
            path_components: clone_names(path_components),
            path_descendants: clone_names(path_descendants),
            cxx_include: self.cxx_include.clone(),
            cxx_namespace: self.cxx_namespace.clone(),
            cxx_name: self.cxx_name().to_owned(),
            rust_name: self.rust_name.clone(),
            lifetimes: self.lifetime_params(),
        }
    }

    /// The bridge that declares the reflection probes of this type.
    pub fn emit_item_mod_cxx_bridge(&self) -> (r: ProbeBridge)
        ensures
            r@ == (spec_probe_include(self@), spec_probe_namespace(self@)),
    {
        ProbeBridge {
            cxx_include: self.probe_include().to_owned(),
            cxx_namespace: self.probe_namespace().to_owned(),
        }
    }

    /// The layout descriptor of this type, from the module it is generated
    /// into and the answers of its reflection probes.
    pub fn into_artifact_info(
        self,
        path_components: Vec<String>,
        path_descendants: Vec<String>,
        probes: &AbiProbes,
    ) -> (r: CxxAbiArtifactInfo)
        ensures
            r@ == (LayoutView {
                path_components: names_view(path_components@),
                path_descendants: names_view(path_descendants@),
                cxx_include: self@.cxx_include,
                cxx_namespace: self@.cxx_namespace,
                cxx_name: spec_cxx_name(self@),
                rust_name: self@.rust_name,
                lifetimes: self@.rust_lifetimes,
                align: probes.align,
                size: probes.size,
                is_rust_cxx_extern_type_trivial: spec_trivial_abi(
                    probes.cxx_is_trivially_movable,
                    probes.rust_should_impl_cxx_extern_type_trivial,
                ),
                is_rust_unpin: probes.rust_should_impl_unpin,
                is_rust_send: probes.rust_should_impl_send,
                is_rust_sync: probes.rust_should_impl_sync,
                is_rust_copy: probes.rust_should_impl_copy,
                is_rust_default: probes.rust_should_impl_default,
                is_rust_drop: probes.rust_should_impl_drop,
                is_rust_copy_new: probes.rust_should_impl_cxx_memory_copy_new,
                is_rust_move_new: probes.rust_should_impl_cxx_memory_move_new,
            }),
    {
        let cxx_name = self.cxx_name().to_owned();
        CxxAbiArtifactInfo::from_probes(
            path_components,
            path_descendants,
            self.cxx_include,
            self.cxx_namespace,
            cxx_name,
            self.rust_name,
            self.rust_lifetimes,
            probes,
        )
    }
}

} // verus!
