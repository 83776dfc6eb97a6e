use cxx_memory_abi::{
    resolve_trivial_abi, AbiError, AbiProbes, Capability, CxxAbiArtifactInfo, CxxAbiEntry,
    ShadowField,
};
use indexmap::IndexMap;

fn probes(size: usize, align: usize) -> AbiProbes {
    AbiProbes {
        align,
        size,
        cxx_is_trivially_movable: false,
        rust_should_impl_cxx_extern_type_trivial: false,
        rust_should_impl_unpin: true,
        rust_should_impl_send: true,
        rust_should_impl_sync: true,
        rust_should_impl_copy: false,
        rust_should_impl_drop: false,
        rust_should_impl_default: false,
        rust_should_impl_cxx_memory_copy_new: false,
        rust_should_impl_cxx_memory_move_new: false,
    }
}

fn entry(rust_name: &str) -> CxxAbiEntry {
    CxxAbiEntry {
        cxx_include: "geo/shapes.hxx".to_string(),
        cxx_proxy_include: None,
        cxx_namespace: "geo".to_string(),
        cxx_proxy_namespace: None,
        cxx_name: None,
        rust_name: rust_name.to_string(),
        rust_lifetimes: IndexMap::new(),
    }
}

fn info(rust_name: &str, p: &AbiProbes) -> CxxAbiArtifactInfo {
    entry(rust_name).into_artifact_info(vec![rust_name.to_string()], vec![], p)
}

fn count(caps: &[Capability], c: Capability) -> usize {
    caps.iter().filter(|x| **x == c).count()
}

#[test]
fn point_scenario_emits_layout_default_and_self_check() {
    let mut p = probes(8, 4);
    p.rust_should_impl_drop = false;
    p.rust_should_impl_default = true;
    let m = info("Point", &p).emit_file();
    assert_eq!(m.shadow.ident, "Point");
    assert_eq!(m.shadow.size, 8);
    assert_eq!(m.shadow.align, 4);
    assert_eq!(m.shadow.fields, vec![ShadowField::Layout]);
    assert!(m.shadow.generics.is_empty());
    assert_eq!(count(&m.impls, Capability::Destruct), 0);
    assert_eq!(count(&m.bridge.functions, Capability::Destruct), 0);
    assert_eq!(m.impls, vec![Capability::DefaultNew]);
    assert_eq!(m.bridge.functions, vec![Capability::DefaultNew]);
    assert_eq!(m.self_check.size, 8);
    assert_eq!(m.self_check.align, 4);
    assert_eq!(m.self_check.lifetime_count, 0);
    assert!(m.child_modules.is_empty());
}

#[test]
fn destructible_type_forwards_destruction_once() {
    let mut p = probes(16, 8);
    p.rust_should_impl_drop = true;
    let m = info("Buffer", &p).emit_file();
    assert_eq!(count(&m.impls, Capability::Destruct), 1);
    assert_eq!(count(&m.bridge.functions, Capability::Destruct), 1);
    p.rust_should_impl_drop = false;
    let m = info("Buffer", &p).emit_file();
    assert_eq!(count(&m.impls, Capability::Destruct), 0);
    assert_eq!(count(&m.bridge.functions, Capability::Destruct), 0);
}

#[test]
fn all_capabilities_in_emission_order() {
    let mut p = probes(24, 8);
    p.rust_should_impl_drop = true;
    p.rust_should_impl_default = true;
    p.rust_should_impl_cxx_memory_copy_new = true;
    p.rust_should_impl_cxx_memory_move_new = true;
    let m = info("Everything", &p).emit_file();
    assert_eq!(
        m.impls,
        vec![Capability::Destruct, Capability::DefaultNew, Capability::CopyNew, Capability::MoveNew]
    );
    assert_eq!(
        m.bridge.functions,
        vec![Capability::CopyNew, Capability::MoveNew, Capability::DefaultNew, Capability::Destruct]
    );
}

#[test]
fn layout_matches_descriptor_for_a_corpus() {
    for (size, align) in [(0usize, 1usize), (1, 1), (8, 4), (12, 4), (24, 8), (64, 16), (4096, 64)] {
        let m = info("Blob", &probes(size, align)).emit_file();
        assert_eq!(m.shadow.size, size);
        assert_eq!(m.shadow.align, align);
        assert_eq!(m.shadow.fields[0], ShadowField::Layout);
        assert_eq!(m.self_check.size, size);
        assert_eq!(m.self_check.align, align);
    }
}

#[test]
fn trivial_abi_declared_value_wins() {
    assert!(!resolve_trivial_abi(true, false));
    assert!(resolve_trivial_abi(false, true));
    assert!(resolve_trivial_abi(true, true));
    assert!(!resolve_trivial_abi(false, false));
    let mut p = probes(8, 8);
    p.cxx_is_trivially_movable = true;
    p.rust_should_impl_cxx_extern_type_trivial = false;
    assert!(p.trivial_abi_disagreement());
    let i = info("Handle", &p);
    assert!(!i.is_rust_cxx_extern_type_trivial);
    assert!(!i.emit_file().extern_type.trivial);
    p.cxx_is_trivially_movable = false;
    p.rust_should_impl_cxx_extern_type_trivial = true;
    let i = info("Handle", &p);
    assert!(i.is_rust_cxx_extern_type_trivial);
    assert!(i.emit_file().extern_type.trivial);
    p.cxx_is_trivially_movable = true;
    assert!(!p.trivial_abi_disagreement());
}

#[test]
fn marker_fields_follow_missing_capabilities() {
    let mut p = probes(8, 8);
    p.rust_should_impl_send = false;
    p.rust_should_impl_sync = false;
    p.rust_should_impl_unpin = false;
    let m = info("Pinned", &p).emit_file();
    assert_eq!(
        m.shadow.fields,
        vec![ShadowField::Layout, ShadowField::NeitherSendNorSync, ShadowField::Pinned]
    );
    p.rust_should_impl_send = true;
    let m = info("Pinned", &p).emit_file();
    assert_eq!(m.shadow.fields, vec![ShadowField::Layout, ShadowField::Pinned]);
}

#[test]
fn lifetime_regions_become_generics_and_a_marker() {
    let mut e = entry("View");
    e.rust_lifetimes.insert("a".to_string(), vec![]);
    e.rust_lifetimes.insert("b".to_string(), vec!["a".to_string()]);
    let mut p = probes(16, 8);
    p.rust_should_impl_copy = true;
    let i = e.into_artifact_info(vec!["View".to_string()], vec![], &p);
    assert!(i.check_identifiers().is_ok());
    let m = i.emit_file();
    assert_eq!(m.shadow.generics.len(), 2);
    assert_eq!(m.shadow.generics[0].name, "a");
    assert!(m.shadow.generics[0].bounds.is_empty());
    assert_eq!(m.shadow.generics[1].name, "b");
    assert_eq!(m.shadow.generics[1].bounds, vec!["a".to_string()]);
    assert_eq!(m.shadow.fields, vec![ShadowField::Layout, ShadowField::Lifetimes]);
    assert!(m.shadow.derive_copy);
    assert!(m.self_check.assert_copy);
    assert!(m.self_check.assert_unpin);
    assert_eq!(m.self_check.lifetime_count, 2);
}

#[test]
fn extern_type_and_bridge_name_the_foreign_type() {
    let mut e = entry("Circle");
    e.cxx_name = Some("circle_t".to_string());
    e.cxx_proxy_include = Some("geo/probes.hxx".to_string());
    e.cxx_proxy_namespace = Some("geo::probes".to_string());
    assert_eq!(e.cxx_name(), "circle_t");
    assert_eq!(e.probe_include(), "geo/probes.hxx");
    assert_eq!(e.probe_namespace(), "geo::probes");
    let bridge = e.emit_item_mod_cxx_bridge();
    assert_eq!(bridge.cxx_include, "geo/probes.hxx");
    assert_eq!(bridge.cxx_namespace, "geo::probes");
    let i = e.into_artifact_info(vec!["Circle".to_string()], vec![], &probes(8, 8));
    let m = i.emit_file();
    assert_eq!(m.extern_type.type_id, "geo::circle_t");
    assert_eq!(m.bridge.cxx_name, "circle_t");
    assert_eq!(m.bridge.cxx_include, "geo/shapes.hxx");
    assert_eq!(m.bridge.cxx_namespace, "geo");
}

#[test]
fn foreign_name_and_probe_location_default_to_the_primary_ones() {
    let e = entry("Square");
    assert_eq!(e.cxx_name(), "Square");
    assert_eq!(e.probe_include(), "geo/shapes.hxx");
    assert_eq!(e.probe_namespace(), "geo");
}

#[test]
fn invalid_identifiers_are_reported() {
    let i = info("type", &probes(8, 8));
    match i.check_identifiers() {
        Err(AbiError::InvalidIdentifier { name }) => assert_eq!(name, "type"),
        Ok(()) => panic!("a keyword was accepted as a type name"),
    }
    let mut e = entry("Ok");
    e.rust_lifetimes.insert("a".to_string(), vec!["not valid".to_string()]);
    let i = e.into_artifact_info(vec!["Ok".to_string()], vec![], &probes(8, 8));
    let err = i.check_identifiers().unwrap_err();
    assert_eq!(err.name(), "not valid");
    let i = info("Fine", &probes(8, 8));
    assert!(i.check_identifiers().is_ok());
}

#[test]
fn stub_carries_identity_and_module_place() {
    let mut e = entry("Circle");
    e.rust_lifetimes.insert("a".to_string(), vec![]);
    let stub = e.emit_items_write_module_for_file(
        &vec!["Shapes".to_string(), "Circle".to_string()],
        &vec!["Detail".to_string()],
    );
    assert_eq!(stub.path_components, vec!["Shapes".to_string(), "Circle".to_string()]);
    assert_eq!(stub.path_descendants, vec!["Detail".to_string()]);
    assert_eq!(stub.cxx_name, "Circle");
    assert_eq!(stub.rust_name, "Circle");
    assert_eq!(stub.cxx_include, "geo/shapes.hxx");
    assert_eq!(stub.lifetimes.len(), 1);
    assert_eq!(stub.lifetimes[0].name, "a");
}
