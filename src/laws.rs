use crate::emit::{Capability, ShadowField, spec_shadow_module};
use crate::entry::spec_artifact_info_stub;
use crate::info::{LayoutView, spec_trivial_abi};
use crate::order::sorted_name_set;
use crate::tree::{
    PlanView, SubModuleView, TreeEntryView, child_stems, descriptor_path, dir_of, file_of,
    find_from, module_of, spec_plan, stem_path, visited_after, walk,
};
use vstd::prelude::*;

verus! {

/// The shadow type of every layout descriptor has the descriptor's size
/// and alignment: its only data is a byte buffer of `size` bytes, it is
/// declared with alignment `align`, and its self-check asserts both.
pub proof fn lemma_shadow_layout_matches_descriptor(v: LayoutView)
    ensures
        spec_shadow_module(v).shadow.size == v.size,
        spec_shadow_module(v).shadow.align == v.align,
        spec_shadow_module(v).shadow.fields[0] == ShadowField::Layout,
        forall|i: int|
            1 <= i < spec_shadow_module(v).shadow.fields.len() ==> #[trigger] spec_shadow_module(
                v,
            ).shadow.fields[i] != ShadowField::Layout,
        spec_shadow_module(v).self_check.size == v.size,
        spec_shadow_module(v).self_check.align == v.align,
{
}

pub open spec fn destructor_count(s: Seq<Capability>) -> nat {
    s.filter(|c: Capability| c == Capability::Destruct).len()
}

proof fn lemma_destructor_count_gated(flag: bool, c: Capability)
    ensures
        destructor_count(crate::emit::gated(flag, c)) == (if flag && c == Capability::Destruct {
            1nat
        } else {
            0nat
        }),
{
    reveal_with_fuel(Seq::filter, 2);
    if flag {
        assert(crate::emit::gated(flag, c) =~= seq![c]);
        assert(seq![c].drop_last() =~= Seq::<Capability>::empty());
    } else {
        assert(crate::emit::gated(flag, c) =~= Seq::<Capability>::empty());
    }
}

/// A shadow module forwards destruction exactly when the type is
/// destructible: once, both as an implementation and as a bridge
/// function, and otherwise not at all.
pub proof fn lemma_destructor_gated(v: LayoutView)
    ensures
        destructor_count(spec_shadow_module(v).impls) == (if v.is_rust_drop {
            1nat
        } else {
            0nat
        }),
        destructor_count(spec_shadow_module(v).bridge.functions) == (if v.is_rust_drop {
            1nat
        } else {
            0nat
        }),
{
    broadcast use Seq::filter_distributes_over_add;

    lemma_destructor_count_gated(v.is_rust_drop, Capability::Destruct);
    lemma_destructor_count_gated(v.is_rust_default, Capability::DefaultNew);
    lemma_destructor_count_gated(v.is_rust_copy_new, Capability::CopyNew);
    lemma_destructor_count_gated(v.is_rust_move_new, Capability::MoveNew);
}

/// Where measurement and declaration disagree on the trivial-ABI
/// classification, the declaration decides.
pub proof fn lemma_trivial_abi_declared_wins(measured: bool, declared: bool)
    requires
        measured != declared,
    ensures
        spec_trivial_abi(measured, declared) == declared,
{
}

/// Generation is a function of the descriptor tree: two runs over trees
/// with the same paths and descriptors plan the same modules.
pub proof fn lemma_generation_idempotent(
    t: Seq<TreeEntryView>,
    unchanged: Seq<TreeEntryView>,
    first: PlanView,
    second: PlanView,
)
    requires
        unchanged == t,
        first == spec_plan(t),
        second == spec_plan(unchanged),
    ensures
        first == second,
{
}

/// Generation turns equal layout descriptors into equal shadow modules.
pub proof fn lemma_shadow_module_idempotent(v1: LayoutView, v2: LayoutView)
    requires
        v1 == v2,
    ensures
        spec_shadow_module(v1) == spec_shadow_module(v2),
{
}

pub open spec fn paths_distinct(t: Seq<TreeEntryView>) -> bool {
    forall|a: int, b: int| 0 <= a < b < t.len() ==> t[a].path != t[b].path
}

proof fn lemma_find_distinct(t: Seq<TreeEntryView>, k: int, from: int)
    requires
        paths_distinct(t),
        0 <= from <= k < t.len(),
    ensures
        find_from(t, t[k].path, from) == Some(k),
    decreases k - from,
{
    if from < k {
        assert(t[from].path != t[k].path);
        lemma_find_distinct(t, k, from + 1);
    }
}

/// A node with both a directory `d` and a descriptor file beside it is one
/// module, whichever form the walk meets first: it takes its child modules
/// from the directory's entries and its descriptor from the file, and
/// marks both forms visited, so the walk skips the other form.
pub proof fn lemma_directory_file_duality(
    t: Seq<TreeEntryView>,
    i: int,
    k: int,
    visited: Seq<Seq<Seq<char>>>,
)
    requires
        paths_distinct(t),
        0 <= i < t.len(),
        0 <= k < t.len(),
        t[i].descriptor is None,
        t[k].descriptor is Some,
        stem_path(t[i].path) == t[i].path,
        stem_path(t[k].path) == t[i].path,
        t[k].path == descriptor_path(t[i].path),
    ensures
        module_of(t, i) == module_of(t, k),
        module_of(t, i).child_modules == sorted_name_set(child_stems(t, t[i].path)),
        module_of(t, i).body == Some(
            (
                spec_artifact_info_stub(
                    t[k].descriptor.unwrap(),
                    t[i].path,
                    sorted_name_set(child_stems(t, t[i].path)),
                ),
                (
                    crate::entry::spec_probe_include(t[k].descriptor.unwrap()),
                    crate::entry::spec_probe_namespace(t[k].descriptor.unwrap()),
                ),
            ),
        ),
        visited_after(t, i, visited).contains(t[i].path),
        visited_after(t, i, visited).contains(t[k].path),
        visited_after(t, k, visited).contains(t[i].path),
        visited_after(t, k, visited).contains(t[k].path),
{
    lemma_find_distinct(t, i, 0);
    lemma_find_distinct(t, k, 0);
    assert(dir_of(t, i) == Some(t[i].path));
    assert(dir_of(t, k) == Some(t[i].path));
    assert(file_of(t, i) == Some(k));
    assert(file_of(t, k) == Some(k));
    let v1 = visited.push(t[i].path).push(t[k].path);
    assert(visited_after(t, i, visited) == v1);
    assert(visited_after(t, k, visited) == v1);
    assert(v1[visited.len() as int] == t[i].path);
    assert(v1[visited.len() as int + 1] == t[k].path);
}

/// The modules of `s` generated at path `c`.
pub open spec fn modules_at(s: Seq<SubModuleView>, c: Seq<Seq<char>>) -> Seq<SubModuleView> {
    s.filter(|m: SubModuleView| m.path_components == c)
}

proof fn lemma_modules_at_cons(m: SubModuleView, rest: Seq<SubModuleView>, c: Seq<Seq<char>>)
    ensures
        modules_at(seq![m] + rest, c) == (if m.path_components == c {
            seq![m]
        } else {
            Seq::empty()
        }) + modules_at(rest, c),
{
    broadcast use Seq::filter_distributes_over_add;

    reveal_with_fuel(Seq::filter, 2);
    assert(seq![m].drop_last() =~= Seq::<SubModuleView>::empty());
    if m.path_components == c {
        assert(modules_at(seq![m], c) =~= seq![m]);
    } else {
        assert(modules_at(seq![m], c) =~= Seq::<SubModuleView>::empty());
    }
}

/// No entry of the tree but the directory at `i` and the descriptor file
/// at `k` is a form of their node: none has the node's path as its stem
/// path, and none has the node's descriptor file beside it.
pub open spec fn only_forms_of_node(t: Seq<TreeEntryView>, i: int, k: int) -> bool {
    forall|m: int|
        0 <= m < t.len() && m != i && m != k ==> stem_path(#[trigger] t[m].path) != t[i].path
            && descriptor_path(t[m].path) != t[k].path
}

pub open spec fn dual_node(t: Seq<TreeEntryView>, i: int, k: int) -> bool {
    &&& paths_distinct(t)
    &&& 0 <= i < t.len()
    &&& 0 <= k < t.len()
    &&& t[i].descriptor is None
    &&& t[k].descriptor is Some
    &&& stem_path(t[i].path) == t[i].path
    &&& stem_path(t[k].path) == t[i].path
    &&& t[k].path == descriptor_path(t[i].path)
}

proof fn lemma_visited_after_keeps(t: Seq<TreeEntryView>, m: int, visited: Seq<Seq<Seq<char>>>, p: Seq<Seq<char>>)
    requires
        visited.contains(p),
    ensures
        visited_after(t, m, visited).contains(p),
{
    let j = choose|j: int| 0 <= j < visited.len() && visited[j] == p;
    let v1 = match dir_of(t, m) {
        Some(d) => visited.push(d),
        None => visited,
    };
    assert(v1[j] == p);
    let v2 = visited_after(t, m, visited);
    assert(v2[j] == p);
}

proof fn lemma_find_found(t: Seq<TreeEntryView>, p: Seq<Seq<char>>, from: int)
    requires
        find_from(t, p, from) is Some,
    ensures
        0 <= find_from(t, p, from).unwrap() < t.len(),
        t[find_from(t, p, from).unwrap()].path == p,
    decreases t.len() - from,
{
    if from >= 0 && from < t.len() && t[from].path != p {
        lemma_find_found(t, p, from + 1);
    }
}

proof fn lemma_walk_skips_visited_node(
    t: Seq<TreeEntryView>,
    i: int,
    k: int,
    j: int,
    visited: Seq<Seq<Seq<char>>>,
)
    requires
        dual_node(t, i, k),
        only_forms_of_node(t, i, k),
        0 <= j,
        visited.contains(t[i].path),
        visited.contains(t[k].path),
    ensures
        modules_at(walk(t, j, visited), t[i].path) == Seq::<SubModuleView>::empty(),
    decreases t.len() - j,
{
    reveal_with_fuel(Seq::filter, 1);
    if j < t.len() {
        if visited.contains(t[j].path) {
            lemma_walk_skips_visited_node(t, i, k, j + 1, visited);
        } else {
            assert(j != i && j != k);
            let v2 = visited_after(t, j, visited);
            lemma_visited_after_keeps(t, j, visited, t[i].path);
            lemma_visited_after_keeps(t, j, visited, t[k].path);
            lemma_walk_skips_visited_node(t, i, k, j + 1, v2);
            lemma_modules_at_cons(module_of(t, j), walk(t, j + 1, v2), t[i].path);
            assert(modules_at(walk(t, j, visited), t[i].path) =~= Seq::<SubModuleView>::empty());
        }
    } else {
        assert(modules_at(walk(t, j, visited), t[i].path) =~= Seq::<SubModuleView>::empty());
    }
}

proof fn lemma_walk_meets_node_once(
    t: Seq<TreeEntryView>,
    i: int,
    k: int,
    j: int,
    visited: Seq<Seq<Seq<char>>>,
)
    requires
        dual_node(t, i, k),
        only_forms_of_node(t, i, k),
        0 <= j <= i,
        j <= k,
        !visited.contains(t[i].path),
        !visited.contains(t[k].path),
    ensures
        modules_at(walk(t, j, visited), t[i].path) == seq![module_of(t, i)],
    decreases t.len() - j,
{
    if visited.contains(t[j].path) {
        lemma_walk_meets_node_once(t, i, k, j + 1, visited);
    } else if j == i || j == k {
        lemma_directory_file_duality(t, i, k, visited);
        let v2 = visited_after(t, j, visited);
        lemma_walk_skips_visited_node(t, i, k, j + 1, v2);
        lemma_modules_at_cons(module_of(t, j), walk(t, j + 1, v2), t[i].path);
        assert(modules_at(walk(t, j, visited), t[i].path) =~= seq![module_of(t, i)]);
    } else {
        lemma_find_distinct(t, i, 0);
        lemma_find_distinct(t, k, 0);
        let v2 = visited_after(t, j, visited);
        assert(t[j].path != t[i].path && t[j].path != t[k].path);
        match dir_of(t, j) {
            Some(d) => {
                assert(d != t[i].path);
                assert(d != t[k].path);
            },
            None => {},
        }
        match file_of(t, j) {
            Some(f) => {
                if f != j {
                    lemma_find_found(t, descriptor_path(t[j].path), 0);
                    assert(t[f].path == descriptor_path(t[j].path));
                    assert(f != i && f != k);
                }
                assert(t[f].path != t[i].path);
                assert(t[f].path != t[k].path);
            },
            None => {},
        }
        let v1 = match dir_of(t, j) {
            Some(d) => visited.push(d),
            None => visited,
        };
        assert(!v1.contains(t[i].path));
        assert(!v1.contains(t[k].path));
        assert(!v2.contains(t[i].path));
        assert(!v2.contains(t[k].path));
        lemma_walk_meets_node_once(t, i, k, j + 1, v2);
        lemma_modules_at_cons(module_of(t, j), walk(t, j + 1, v2), t[i].path);
        assert(modules_at(walk(t, j, visited), t[i].path) =~= seq![module_of(t, i)]);
    }
}

/// A node with both a directory and a descriptor file beside it, and no
/// other form, is generated exactly once: the plan holds one module at its
/// path, the one that both forms describe.
pub proof fn lemma_directory_file_visited_once(t: Seq<TreeEntryView>, i: int, k: int)
    requires
        dual_node(t, i, k),
        only_forms_of_node(t, i, k),
    ensures
        modules_at(spec_plan(t).modules, t[i].path) == seq![module_of(t, i)],
        module_of(t, i) == module_of(t, k),
{
    lemma_directory_file_duality(t, i, k, Seq::empty());
    lemma_walk_meets_node_once(t, i, k, 0, Seq::empty());
}

} // verus!
