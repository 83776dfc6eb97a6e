use crate::names::{names_view, rust_identifier, is_identifier};
use crate::regions::{region_count, region_at, region_entries};
use crate::error::AbiError;
use indexmap::IndexMap;
use vstd::prelude::*;

verus! {

/// The answers of the reflection probes for one foreign type: its measured
/// layout and the capability predicates, measured or declared.
#[derive(Debug, Clone, Copy, PartialEq, Eq, Structural)]
pub struct AbiProbes {
    pub align: usize,
    pub size: usize,
    /// Measured: the foreign type is trivially relocatable.
    pub cxx_is_trivially_movable: bool,
    /// Declared: the shadow type should be classified as trivial.
    pub rust_should_impl_cxx_extern_type_trivial: bool,
    pub rust_should_impl_unpin: bool,
    pub rust_should_impl_send: bool,
    pub rust_should_impl_sync: bool,
    pub rust_should_impl_copy: bool,
    pub rust_should_impl_drop: bool,
    pub rust_should_impl_default: bool,
    pub rust_should_impl_cxx_memory_copy_new: bool,
    pub rust_should_impl_cxx_memory_move_new: bool,
}

/// The trivial-ABI classification: where measurement and declaration agree
/// their common value, where they disagree the declaration.
pub open spec fn spec_trivial_abi(measured: bool, declared: bool) -> bool {
    if measured == declared {
        measured
    } else {
        declared
    }
}

/// Reconciles the measured relocatability of a foreign type with the
/// declared intent for its shadow type.
pub fn resolve_trivial_abi(measured: bool, declared: bool) -> (r: bool)
    ensures
        r == spec_trivial_abi(measured, declared),
        r == declared,
{
    if measured == declared {
        measured
    } else {
        declared
    }
}

impl AbiProbes {
    /// Whether measurement and declaration disagree on the trivial-ABI
    /// classification, a conflict worth reporting even though it is resolved.
    pub fn trivial_abi_disagreement(&self) -> (r: bool)
        ensures
            r == (self.cxx_is_trivially_movable != self.rust_should_impl_cxx_extern_type_trivial),
    {
        self.cxx_is_trivially_movable != self.rust_should_impl_cxx_extern_type_trivial
    }
}

/// The layout descriptor of one mirrored type: where its module lies, its
/// identity, its measured layout and its resolved capability predicates.
pub struct CxxAbiArtifactInfo {
    pub path_components: Vec<String>,
    pub path_descendants: Vec<String>,
    pub cxx_include: String,
    pub cxx_namespace: String,
    pub cxx_name: String,
    pub rust_name: String,
    pub lifetimes: IndexMap<String, Vec<String>>,
    pub align: usize,
    pub size: usize,
    pub is_rust_cxx_extern_type_trivial: bool,
    pub is_rust_unpin: bool,
    pub is_rust_send: bool,
    pub is_rust_sync: bool,
    pub is_rust_copy: bool,
    pub is_rust_default: bool,
    pub is_rust_drop: bool,
    pub is_rust_copy_new: bool,
    pub is_rust_move_new: bool,
}

/// The mathematical value of a layout descriptor.
pub ghost struct LayoutView {
    pub path_components: Seq<Seq<char>>,
    pub path_descendants: Seq<Seq<char>>,
    pub cxx_include: Seq<char>,
    pub cxx_namespace: Seq<char>,
    pub cxx_name: Seq<char>,
    pub rust_name: Seq<char>,
    pub lifetimes: Seq<(Seq<char>, Seq<Seq<char>>)>,
    pub align: usize,
    pub size: usize,
    pub is_rust_cxx_extern_type_trivial: bool,
    pub is_rust_unpin: bool,
    pub is_rust_send: bool,
    pub is_rust_sync: bool,
    pub is_rust_copy: bool,
    pub is_rust_default: bool,
    pub is_rust_drop: bool,
    pub is_rust_copy_new: bool,
    pub is_rust_move_new: bool,
}

impl View for CxxAbiArtifactInfo {
    type V = LayoutView;

    open spec fn view(&self) -> LayoutView {
        LayoutView {
            path_components: names_view(self.path_components@),
            path_descendants: names_view(self.path_descendants@),
            cxx_include: self.cxx_include@,
            cxx_namespace: self.cxx_namespace@,
            cxx_name: self.cxx_name@,
            rust_name: self.rust_name@,
            lifetimes: region_entries(self.lifetimes),
            align: self.align,
            size: self.size,
            is_rust_cxx_extern_type_trivial: self.is_rust_cxx_extern_type_trivial,
            is_rust_unpin: self.is_rust_unpin,
            is_rust_send: self.is_rust_send,
            is_rust_sync: self.is_rust_sync,
            is_rust_copy: self.is_rust_copy,
            is_rust_default: self.is_rust_default,
            is_rust_drop: self.is_rust_drop,
            is_rust_copy_new: self.is_rust_copy_new,
            is_rust_move_new: self.is_rust_move_new,
        }
    }
}

/// Every name of a layout descriptor that generated code uses as an
/// identifier is one: the type name, the module path, the child modules,
/// and each lifetime region with its bounds.
pub open spec fn layout_identifiers_valid(v: LayoutView) -> bool {
    &&& rust_identifier(v.rust_name)
    &&& forall|i: int| 0 <= i < v.path_components.len() ==> rust_identifier(#[trigger] v.path_components[i])
    &&& forall|i: int| 0 <= i < v.path_descendants.len() ==> rust_identifier(#[trigger] v.path_descendants[i])
    &&& forall|i: int| 0 <= i < v.lifetimes.len() ==> rust_identifier(#[trigger] v.lifetimes[i].0)
    &&& forall|i: int, j: int|
        0 <= i < v.lifetimes.len() && 0 <= j < v.lifetimes[i].1.len() ==> rust_identifier(
            #[trigger] v.lifetimes[i].1[j],
        )
}

/// The first name of `names` that is not an identifier, if any.
pub(crate) fn check_names(names: &Vec<String>) -> (r: Result<(), AbiError>)
    ensures
        r is Ok <==> forall|i: int| 0 <= i < names@.len() ==> rust_identifier(#[trigger] names@[i]@),
        r matches Err(AbiError::InvalidIdentifier { name }) ==> !rust_identifier(name@),
{
    let mut i: usize = 0;
    while i < names.len()
        invariant
            i <= names@.len(),
            forall|j: int| 0 <= j < i ==> rust_identifier(#[trigger] names@[j]@),
        decreases names.len() - i,
    {
        if !is_identifier(names[i].as_str()) {
            return Err(AbiError::InvalidIdentifier { name: names[i].clone() });
        }
        i += 1;
    }
    Ok(())
}

impl CxxAbiArtifactInfo {
    /// Assembles the layout descriptor of a typed module from its identity
    /// and the answers of its reflection probes.
    pub fn from_probes(
        path_components: Vec<String>,
        path_descendants: Vec<String>,
        cxx_include: String,
        cxx_namespace: String,
        cxx_name: String,
        rust_name: String,
        lifetimes: IndexMap<String, Vec<String>>,
        probes: &AbiProbes,
    ) -> (r: CxxAbiArtifactInfo)
        ensures
            r@ == (LayoutView {
                path_components: names_view(path_components@),
                path_descendants: names_view(path_descendants@),
                cxx_include: cxx_include@,
                cxx_namespace: cxx_namespace@,
                cxx_name: cxx_name@,
                rust_name: rust_name@,
                lifetimes: region_entries(lifetimes),
                align: probes.align,
                size: probes.size,
                is_rust_cxx_extern_type_trivial: spec_trivial_abi(
                    probes.cxx_is_trivially_movable,
                    probes.rust_should_impl_cxx_extern_type_trivial,
                ),
                is_rust_unpin: probes.rust_should_impl_unpin,
                is_rust_send: probes.rust_should_impl_send,
                is_rust_sync: probes.rust_should_impl_sync,
                is_rust_copy: probes.rust_should_impl_copy,
                is_rust_default: probes.rust_should_impl_default,
                is_rust_drop: probes.rust_should_impl_drop,
                is_rust_copy_new: probes.rust_should_impl_cxx_memory_copy_new,
                is_rust_move_new: probes.rust_should_impl_cxx_memory_move_new,
            }),
    {
        CxxAbiArtifactInfo {
            path_components,
            path_descendants,
            cxx_include,
            cxx_namespace,
            cxx_name,
            rust_name,
            lifetimes,
            align: probes.align,
            size: probes.size,
            is_rust_cxx_extern_type_trivial: resolve_trivial_abi(
                probes.cxx_is_trivially_movable,
                probes.rust_should_impl_cxx_extern_type_trivial,
            ),
            is_rust_unpin: probes.rust_should_impl_unpin,
            is_rust_send: probes.rust_should_impl_send,
            is_rust_sync: probes.rust_should_impl_sync,
            is_rust_copy: probes.rust_should_impl_copy,
            is_rust_default: probes.rust_should_impl_default,
            is_rust_drop: probes.rust_should_impl_drop,
            is_rust_copy_new: probes.rust_should_impl_cxx_memory_copy_new,
            is_rust_move_new: probes.rust_should_impl_cxx_memory_move_new,
        }
    }

    /// Checks that every name that the shadow module uses as an identifier
    /// is one, and names the first that is not.
    pub fn check_identifiers(&self) -> (r: Result<(), AbiError>)
        ensures
            r is Ok <==> layout_identifiers_valid(self@),
            r matches Err(AbiError::InvalidIdentifier { name }) ==> !rust_identifier(name@),
    {
        if !is_identifier(self.rust_name.as_str()) {
            return Err(AbiError::InvalidIdentifier { name: self.rust_name.clone() });
        }
        let r = check_names(&self.path_components);
        if r.is_err() {
            proof {
                let k = choose|k: int| 0 <= k < self.path_components@.len() && !rust_identifier(#[trigger] self.path_components@[k]@);
                assert(self@.path_components[k] == self.path_components@[k]@);
            }
            return r;
        }
        let r = check_names(&self.path_descendants);
        if r.is_err() {
            proof {
                let k = choose|k: int| 0 <= k < self.path_descendants@.len() && !rust_identifier(#[trigger] self.path_descendants@[k]@);
                assert(self@.path_descendants[k] == self.path_descendants@[k]@);
            }
            return r;
        }
        let n = region_count(&self.lifetimes);
        let mut i: usize = 0;
        while i < n
            invariant
                i <= n,
                n == self@.lifetimes.len(),
                rust_identifier(self@.rust_name),
                forall|k: int| 0 <= k < self@.path_components.len() ==> rust_identifier(#[trigger] self@.path_components[k]),
                forall|k: int| 0 <= k < self@.path_descendants.len() ==> rust_identifier(#[trigger] self@.path_descendants[k]),
                forall|k: int| 0 <= k < i ==> rust_identifier(#[trigger] self@.lifetimes[k].0),
                forall|k: int, j: int|
                    0 <= k < i && 0 <= j < self@.lifetimes[k].1.len() ==> rust_identifier(
                        #[trigger] self@.lifetimes[k].1[j],
                    ),
            decreases n - i,
        {
            let (name, bounds) = region_at(&self.lifetimes, i);
            if !is_identifier(name.as_str()) {
                return Err(AbiError::InvalidIdentifier { name });
            }
            let r = check_names(&bounds);
            if r.is_err() {
                proof {
                    let k = choose|k: int| 0 <= k < bounds@.len() && !rust_identifier(#[trigger] bounds@[k]@);
                    assert(self@.lifetimes[i as int].1[k] == bounds@[k]@);
                }
                return r;
            }
            proof {
                assert forall|j: int| 0 <= j < self@.lifetimes[i as int].1.len() implies rust_identifier(
                    #[trigger] self@.lifetimes[i as int].1[j],
                ) by {
                    assert(self@.lifetimes[i as int].1[j] == bounds@[j]@);
                }
            }
            i += 1;
        }
        Ok(())
    }
}

} // verus!
