//! Layout and capability mirroring of foreign value types.
//!
//! A tree of descriptor files names the foreign types to mirror. Walking it
//! yields a plan of generated modules; each typed module, once the foreign
//! reflection probes have answered, becomes a layout descriptor, and each
//! layout descriptor becomes the model of a shadow module: a byte buffer of
//! the measured size and alignment, capability implementations gated by the
//! measured predicates, the bridge declarations they call, and a self-check.
//! Rendering these models as source text is left to the caller.

pub mod ctypes;
mod emit;
mod entry;
mod error;
mod info;
mod laws;
mod names;
mod order;
mod regions;
mod tree;

pub use emit::{
    Capability, ExternTypeImpl, LifetimeParam, SelfCheck, ShadowBridge, ShadowField, ShadowModule,
    ShadowStruct,
};
pub use entry::{ArtifactInfoStub, CxxAbiEntry, ProbeBridge};
pub use error::AbiError;
pub use info::{AbiProbes, CxxAbiArtifactInfo, resolve_trivial_abi};
pub use laws::{
    lemma_destructor_gated, lemma_directory_file_duality, lemma_directory_file_visited_once,
    lemma_generation_idempotent,
    lemma_shadow_layout_matches_descriptor, lemma_shadow_module_idempotent,
    lemma_trivial_abi_declared_wins,
};
pub use names::{is_identifier, name_less};
pub use order::{path_less, sort_paths};
pub use tree::{
    AbiModulePlan, AbiRootModule, AbiSubModule, DescriptorNode, DescriptorTree, SubModuleBody,
    TreeEntry, file_stem_of, process_src_abi_module,
};

use vstd::prelude::*;

verus! {

/// Plans every module that generation writes for a descriptor tree: the
/// entry point of the pipeline.
pub fn process_artifacts(tree: &DescriptorTree) -> (r: Result<AbiModulePlan, AbiError>)
    ensures
        r matches Ok(p) ==> p@ == tree::spec_plan(tree@),
        r is Ok <==> tree::plan_identifiers_valid(tree::spec_plan(tree@)),
        r matches Err(AbiError::InvalidIdentifier { name }) ==> !names::rust_identifier(name@),
{
    process_src_abi_module(tree)
}

} // verus!
