use cxx_memory_abi::{
    file_stem_of, is_identifier, name_less, path_less, process_artifacts, process_src_abi_module,
    sort_paths, AbiError, AbiModulePlan, CxxAbiEntry, DescriptorNode, DescriptorTree,
    SubModuleBody, TreeEntry,
};
use indexmap::IndexMap;

fn path(segments: &[&str]) -> Vec<String> {
    segments.iter().map(|s| s.to_string()).collect()
}

fn dir(segments: &[&str]) -> TreeEntry {
    TreeEntry { path: path(segments), node: DescriptorNode::Directory }
}

fn file(segments: &[&str], rust_name: &str) -> TreeEntry {
    TreeEntry {
        path: path(segments),
        node: DescriptorNode::File(CxxAbiEntry {
            cxx_include: "shapes.hxx".to_string(),
            cxx_proxy_include: None,
            cxx_namespace: "shapes".to_string(),
            cxx_proxy_namespace: None,
            cxx_name: None,
            rust_name: rust_name.to_string(),
            rust_lifetimes: IndexMap::new(),
        }),
    }
}

fn components(plan: &AbiModulePlan) -> Vec<Vec<String>> {
    plan.modules.iter().map(|m| m.path_components.clone()).collect()
}

#[test]
fn shapes_scenario_aggregates_and_orders() {
    let tree = DescriptorTree {
        entries: vec![
            dir(&["Shapes"]),
            file(&["Shapes", "Square.json"], "Square"),
            file(&["Shapes", "Circle.json"], "Circle"),
        ],
    };
    let plan = process_artifacts(&tree).unwrap();
    assert_eq!(
        components(&plan),
        vec![path(&["Shapes"]), path(&["Shapes", "Square"]), path(&["Shapes", "Circle"])]
    );
    let shapes = &plan.modules[0];
    assert_eq!(shapes.child_modules, path(&["Circle", "Square"]));
    assert!(matches!(shapes.body, SubModuleBody::Aggregator));
    for m in &plan.modules[1..] {
        match &m.body {
            SubModuleBody::Typed { info, bridge } => {
                assert_eq!(info.rust_name, m.path_components[1]);
                assert_eq!(info.path_components, m.path_components);
                assert!(info.path_descendants.is_empty());
                assert_eq!(bridge.cxx_include, "shapes.hxx");
            }
            SubModuleBody::Aggregator => panic!("a descriptor became an aggregator"),
        }
    }
    assert_eq!(plan.root.child_modules, path(&["Shapes"]));
    assert_eq!(
        plan.root.process_order,
        vec![path(&[]), path(&["Shapes"]), path(&["Shapes", "Circle"]), path(&["Shapes", "Square"])]
    );
}

#[test]
fn directory_and_file_forms_make_one_module() {
    for entries in [
        vec![dir(&["Foo"]), file(&["Foo", "Bar.json"], "Bar"), file(&["Foo.json"], "Foo")],
        vec![file(&["Foo.json"], "Foo"), dir(&["Foo"]), file(&["Foo", "Bar.json"], "Bar")],
    ] {
        let plan = process_src_abi_module(&DescriptorTree { entries }).unwrap();
        let foo: Vec<_> = plan.modules.iter().filter(|m| m.path_components == path(&["Foo"])).collect();
        assert_eq!(foo.len(), 1);
        assert_eq!(foo[0].child_modules, path(&["Bar"]));
        match &foo[0].body {
            SubModuleBody::Typed { info, .. } => {
                assert_eq!(info.rust_name, "Foo");
                assert_eq!(info.path_descendants, path(&["Bar"]));
            }
            SubModuleBody::Aggregator => panic!("the descriptor of Foo was lost"),
        }
        assert_eq!(plan.modules.len(), 2);
        assert_eq!(plan.root.child_modules, path(&["Foo"]));
        assert_eq!(plan.root.process_order, vec![path(&[]), path(&["Foo"]), path(&["Foo", "Bar"])]);
    }
}

#[test]
fn generation_twice_gives_the_same_plan() {
    let tree = DescriptorTree {
        entries: vec![
            dir(&["b"]),
            file(&["b", "y.json"], "Y"),
            file(&["b", "x.json"], "X"),
            file(&["a.json"], "A"),
        ],
    };
    let first = format!("{:?}", process_src_abi_module(&tree).unwrap());
    let second = format!("{:?}", process_src_abi_module(&tree).unwrap());
    assert_eq!(first, second);
}

#[test]
fn empty_tree_plans_only_the_root() {
    let plan = process_src_abi_module(&DescriptorTree { entries: vec![] }).unwrap();
    assert!(plan.modules.is_empty());
    assert!(plan.root.child_modules.is_empty());
    assert_eq!(plan.root.process_order, vec![path(&[])]);
}

#[test]
fn invalid_segment_is_an_error() {
    let tree = DescriptorTree { entries: vec![dir(&["my-dir"]), file(&["my-dir", "A.json"], "A")] };
    match process_src_abi_module(&tree) {
        Err(AbiError::InvalidIdentifier { name }) => assert_eq!(name, "my-dir"),
        Ok(_) => panic!("an invalid module name was accepted"),
    }
}

#[test]
fn file_stems_follow_the_path_rules() {
    assert_eq!(file_stem_of("Circle.json"), "Circle");
    assert_eq!(file_stem_of("a.b.json"), "a.b");
    assert_eq!(file_stem_of(".hidden"), ".hidden");
    assert_eq!(file_stem_of("plain"), "plain");
    assert_eq!(file_stem_of("trailing."), "trailing");
    assert_eq!(file_stem_of(""), "");
}

#[test]
fn identifiers_are_checked() {
    assert!(is_identifier("Circle"));
    assert!(is_identifier("_private"));
    assert!(!is_identifier("type"));
    assert!(!is_identifier("my-dir"));
    assert!(!is_identifier("1abc"));
    assert!(!is_identifier(""));
}

#[test]
fn names_and_paths_are_ordered_like_std() {
    assert!(name_less("Circle", "Square"));
    assert!(!name_less("Square", "Circle"));
    assert!(name_less("Sq", "Square"));
    assert!(!name_less("Same", "Same"));
    assert!(name_less("Z", "a"));
    assert!(path_less(&path(&["a"]), &path(&["a", "b"])));
    assert!(!path_less(&path(&["b"]), &path(&["a", "z"])));
    let sorted = sort_paths(&vec![path(&["b"]), path(&["a", "z"]), path(&[]), path(&["a"]), path(&["b"])]);
    assert_eq!(sorted, vec![path(&[]), path(&["a"]), path(&["a", "z"]), path(&["b"]), path(&["b"])]);
}
