use crate::entry::{
    ArtifactInfoStub, ArtifactInfoStubView, CxxAbiEntry, EntryView, ProbeBridge,
    spec_artifact_info_stub, spec_probe_include, spec_probe_namespace,
};
use crate::error::AbiError;
use crate::info::check_names;
use crate::names::{clone_names, names_view, rust_identifier, same_names};
use crate::order::{
    insert_name, lemma_sorted_name_set, names_strictly_sorted, paths_view, sort_paths,
    sorted_name_set, sorted_paths,
};
use vstd::prelude::*;
use vstd::string::{StrSliceExecFns, StringExecFns};

verus! {

/// What a path of the descriptor tree holds.
pub enum DescriptorNode {
    /// A directory, whose entries are the node's child modules.
    Directory,
    /// A descriptor file, read into its entry.
    File(CxxAbiEntry),
}

/// One path of the descriptor tree, as its segments below the tree's root.
pub struct TreeEntry {
    pub path: Vec<String>,
    pub node: DescriptorNode,
}

/// The descriptor tree: every path below its root, in the order of a
/// depth-first walk that lists a directory before its contents.
pub struct DescriptorTree {
    pub entries: Vec<TreeEntry>,
}

pub ghost struct TreeEntryView {
    pub path: Seq<Seq<char>>,
    /// The descriptor of a file; `None` for a directory.
    pub descriptor: Option<EntryView>,
}

impl View for TreeEntry {
    type V = TreeEntryView;

    open spec fn view(&self) -> TreeEntryView {
        TreeEntryView {
            path: names_view(self.path@),
            descriptor: match self.node {
                DescriptorNode::Directory => None,
                DescriptorNode::File(e) => Some(e@),
            },
        }
    }
}

impl View for DescriptorTree {
    type V = Seq<TreeEntryView>;

    open spec fn view(&self) -> Seq<TreeEntryView> {
        self.entries@.map_values(|e: TreeEntry| e@)
    }
}

/// The position of the last `.` of a file name, or -1.
pub open spec fn last_dot(n: Seq<char>) -> int
    decreases n.len(),
{
    if n.len() == 0 {
        -1
    } else if n.last() == '.' {
        n.len() - 1
    } else {
        last_dot(n.drop_last())
    }
}

/// The stem of a file name: the part before its last `.`, or the whole name
/// where it holds no `.` or only a leading one.
pub open spec fn file_stem(n: Seq<char>) -> Seq<char> {
    if last_dot(n) <= 0 {
        n
    } else {
        n.take(last_dot(n))
    }
}

/// A path with its last segment replaced by that segment's stem.
pub open spec fn stem_path(p: Seq<Seq<char>>) -> Seq<Seq<char>> {
    if p.len() == 0 {
        p
    } else {
        p.drop_last().push(file_stem(p.last()))
    }
}

/// The descriptor file that stands beside a directory of the same stem.
pub open spec fn descriptor_path(p: Seq<Seq<char>>) -> Seq<Seq<char>> {
    if p.len() == 0 {
        p
    } else {
        p.drop_last().push(file_stem(p.last()) + seq!['.', 'j', 's', 'o', 'n'])
    }
}

/// The first position at or after `k` whose path is `p`.
pub open spec fn find_from(t: Seq<TreeEntryView>, p: Seq<Seq<char>>, k: int) -> Option<int>
    decreases t.len() - k,
{
    if k < 0 || k >= t.len() {
        None
    } else if t[k].path == p {
        Some(k)
    } else {
        find_from(t, p, k + 1)
    }
}

pub open spec fn is_directory(t: Seq<TreeEntryView>, p: Seq<Seq<char>>) -> bool {
    match find_from(t, p, 0) {
        Some(k) => t[k].descriptor is None,
        None => false,
    }
}

pub open spec fn file_position(t: Seq<TreeEntryView>, p: Seq<Seq<char>>) -> Option<int> {
    match find_from(t, p, 0) {
        Some(k) => if t[k].descriptor is Some {
            Some(k)
        } else {
            None
        },
        None => None,
    }
}

/// The directory form of the node at position `i`: the path itself if it
/// is a directory, else the directory of the same stem, if there is one.
pub open spec fn dir_of(t: Seq<TreeEntryView>, i: int) -> Option<Seq<Seq<char>>> {
    if t[i].descriptor is None {
        Some(t[i].path)
    } else if is_directory(t, stem_path(t[i].path)) {
        Some(stem_path(t[i].path))
    } else {
        None
    }
}

/// The position of the file form of the node at position `i`: the path
/// itself if it is a file, else the descriptor file beside the directory.
pub open spec fn file_of(t: Seq<TreeEntryView>, i: int) -> Option<int> {
    if t[i].descriptor is Some {
        Some(i)
    } else {
        file_position(t, descriptor_path(t[i].path))
    }
}

pub open spec fn is_child(p: Seq<Seq<char>>, d: Seq<Seq<char>>) -> bool {
    p.len() == d.len() + 1 && p.take(d.len() as int) == d
}

/// The stems of the immediate entries of directory `d`.
pub open spec fn child_stems(t: Seq<TreeEntryView>, d: Seq<Seq<char>>) -> Set<Seq<char>> {
    Set::new(
        |n: Seq<char>|
            exists|k: int| 0 <= k < t.len() && is_child(t[k].path, d) && n == file_stem(#[trigger] t[k].path.last()),
    )
}

/// The child modules of the node at position `i`, sorted.
pub open spec fn descendants_of(t: Seq<TreeEntryView>, i: int) -> Seq<Seq<char>> {
    match dir_of(t, i) {
        Some(d) => sorted_name_set(child_stems(t, d)),
        None => Seq::empty(),
    }
}

/// The model of a generated module that the tree walk produces.
pub ghost struct SubModuleView {
    pub path_components: Seq<Seq<char>>,
    pub child_modules: Seq<Seq<char>>,
    /// The measuring routine and probe bridge of a typed module; `None`
    /// for an aggregator.
    pub body: Option<(ArtifactInfoStubView, (Seq<char>, Seq<char>))>,
}

pub open spec fn module_of(t: Seq<TreeEntryView>, i: int) -> SubModuleView {
    let comps = stem_path(t[i].path);
    let desc = descendants_of(t, i);
    SubModuleView {
        path_components: comps,
        child_modules: desc,
        body: match file_of(t, i) {
            Some(k) => {
                let e = t[k].descriptor.unwrap();
                Some(
                    (
                        spec_artifact_info_stub(e, comps, desc),
                        (spec_probe_include(e), spec_probe_namespace(e)),
                    ),
                )
            },
            None => None,
        },
    }
}

/// The paths visited once the node at position `i` has been processed:
/// both of its forms.
pub open spec fn visited_after(t: Seq<TreeEntryView>, i: int, visited: Seq<Seq<Seq<char>>>) -> Seq<
    Seq<Seq<char>>,
> {
    let v1 = match dir_of(t, i) {
        Some(d) => visited.push(d),
        None => visited,
    };
    match file_of(t, i) {
        Some(k) => v1.push(t[k].path),
        None => v1,
    }
}

/// The modules produced by walking the tree from position `i`, skipping
/// the paths already visited under either form.
pub open spec fn walk(t: Seq<TreeEntryView>, i: int, visited: Seq<Seq<Seq<char>>>) -> Seq<SubModuleView>
    decreases t.len() - i,
{
    if i < 0 || i >= t.len() {
        Seq::empty()
    } else if visited.contains(t[i].path) {
        walk(t, i + 1, visited)
    } else {
        seq![module_of(t, i)] + walk(t, i + 1, visited_after(t, i, visited))
    }
}

pub ghost struct RootModuleView {
    pub child_modules: Seq<Seq<char>>,
    pub process_order: Seq<Seq<Seq<char>>>,
}

pub ghost struct PlanView {
    pub modules: Seq<SubModuleView>,
    pub root: RootModuleView,
}

/// The generation plan of a descriptor tree: one module per node, in walk
/// order, and the root module, which lists the top-level nodes and runs
/// the root's own step and then every node's, in sorted path order.
pub open spec fn spec_plan(t: Seq<TreeEntryView>) -> PlanView {
    let modules = walk(t, 0, Seq::empty());
    PlanView {
        modules,
        root: RootModuleView {
            child_modules: sorted_name_set(child_stems(t, Seq::empty())),
            process_order: seq![Seq::empty()] + sorted_paths(modules.map_values(|m: SubModuleView| m.path_components)),
        },
    }
}

/// Every name that the plan uses as an identifier is one.
pub open spec fn plan_identifiers_valid(p: PlanView) -> bool {
    &&& forall|i: int, j: int|
        0 <= i < p.modules.len() && 0 <= j < p.modules[i].path_components.len() ==> rust_identifier(
            #[trigger] p.modules[i].path_components[j],
        )
    &&& forall|i: int, j: int|
        0 <= i < p.modules.len() && 0 <= j < p.modules[i].child_modules.len() ==> rust_identifier(
            #[trigger] p.modules[i].child_modules[j],
        )
    &&& forall|j: int| 0 <= j < p.root.child_modules.len() ==> rust_identifier(#[trigger] p.root.child_modules[j])
}

/// The stem of a file name, as `Path::file_stem` gives it.
pub fn file_stem_of(n: &str) -> (r: String)
    ensures
        r@ == file_stem(n@),
{
    let len = n.unicode_len();
    let mut i: usize = len;
    assert(n@.take(len as int) =~= n@);
    while i > 0 && n.get_char(i - 1) != '.'
        invariant
            i <= len,
            len == n@.len(),
            last_dot(n@) == last_dot(n@.take(i as int)),
        decreases i,
    {
        assert(n@.take(i as int).drop_last() =~= n@.take(i - 1));
        i -= 1;
    }
    if i <= 1 {
        proof {
            if i == 1 {
                assert(n@.take(1).last() == '.');
            } else {
                assert(n@.take(0).len() == 0);
            }
        }
        n.to_owned()
    } else {
        assert(n@.take(i as int).last() == '.');
        n.substring_char(0, i - 1).to_owned()
    }
}

/// `p` with its last segment replaced by its stem.
fn relativized_components_from_path(p: &Vec<String>) -> (r: Vec<String>)
    ensures
        names_view(r@) == stem_path(names_view(p@)),
{
    let mut r = clone_names(p);
    if r.len() > 0 {
        let last = r.pop().unwrap();
        r.push(file_stem_of(last.as_str()));
        assert(names_view(r@) =~= stem_path(names_view(p@)));
    }
    r
}

/// The path of the descriptor file beside directory `p`.
fn descriptor_path_of(p: &Vec<String>) -> (r: Vec<String>)
    ensures
        names_view(r@) == descriptor_path(names_view(p@)),
{
    let mut r = clone_names(p);
    if r.len() > 0 {
        let last = r.pop().unwrap();
        let mut name = file_stem_of(last.as_str());
        let ghost stem = name@;
        proof {
            reveal_strlit(".json");
        }
        name.append(".json");
        assert(name@ =~= stem + seq!['.', 'j', 's', 'o', 'n']);
        r.push(name);
        assert(names_view(r@) =~= descriptor_path(names_view(p@)));
    }
    r
}

/// The first position of the tree whose path is `p`.
fn find_path(t: &DescriptorTree, p: &Vec<String>) -> (r: Option<usize>)
    ensures
        r matches Some(k) ==> find_from(t@, names_view(p@), 0) == Some(k as int) && k < t.entries@.len(),
        r is None ==> find_from(t@, names_view(p@), 0) is None,
{
    let mut k: usize = 0;
    while k < t.entries.len()
        invariant
            k <= t@.len(),
            t@.len() == t.entries@.len(),
            find_from(t@, names_view(p@), 0) == find_from(t@, names_view(p@), k as int),
        decreases t.entries.len() - k,
    {
        assert(t@[k as int] == t.entries@[k as int]@);
        if same_names(&t.entries[k].path, p) {
            return Some(k);
        }
        k += 1;
    }
    None
}

fn is_directory_at(t: &DescriptorTree, p: &Vec<String>) -> (r: bool)
    ensures
        r == is_directory(t@, names_view(p@)),
{
    match find_path(t, p) {
        Some(k) => {
            assert(t@[k as int] == t.entries@[k as int]@);
            match &t.entries[k].node {
                DescriptorNode::Directory => true,
                DescriptorNode::File(_) => false,
            }
        },
        None => false,
    }
}

fn file_position_at(t: &DescriptorTree, p: &Vec<String>) -> (r: Option<usize>)
    ensures
        r matches Some(k) ==> file_position(t@, names_view(p@)) == Some(k as int) && k < t.entries@.len(),
        r is None ==> file_position(t@, names_view(p@)) is None,
{
    match find_path(t, p) {
        Some(k) => {
            assert(t@[k as int] == t.entries@[k as int]@);
            match &t.entries[k].node {
                DescriptorNode::Directory => None,
                DescriptorNode::File(_) => Some(k),
            }
        },
        None => None,
    }
}

/// Whether path `p` lies immediately inside directory `d`.
fn is_child_of(p: &Vec<String>, d: &Vec<String>) -> (r: bool)
    ensures
        r == is_child(names_view(p@), names_view(d@)),
{
    if p.len() == 0 || p.len() - 1 != d.len() {
        return false;
    }
    let mut i: usize = 0;
    while i < d.len()
        invariant
            p@.len() == d@.len() + 1,
            i <= d@.len(),
            forall|j: int| 0 <= j < i ==> p@[j]@ == d@[j]@,
        decreases d.len() - i,
    {
        if !p[i].eq(&d[i]) {
            assert(names_view(p@).take(d@.len() as int)[i as int] != names_view(d@)[i as int]);
            return false;
        }
        i += 1;
    }
    assert(names_view(p@).take(d@.len() as int) =~= names_view(d@));
    true
}

/// The stems of the immediate entries of directory `d`, sorted, without repeats.
fn find_immediate_path_descendants(t: &DescriptorTree, d: &Vec<String>) -> (r: Vec<String>)
    ensures
        names_view(r@) == sorted_name_set(child_stems(t@, names_view(d@))),
{
    let ghost dv = names_view(d@);
    let mut r: Vec<String> = Vec::new();
    let mut k: usize = 0;
    assert(names_view(r@).to_set() =~= Set::<Seq<char>>::empty());
    while k < t.entries.len()
        invariant
            k <= t@.len(),
            t@.len() == t.entries@.len(),
            dv == names_view(d@),
            names_strictly_sorted(names_view(r@)),
            names_view(r@).to_set() == Set::new(
                |n: Seq<char>|
                    exists|j: int| 0 <= j < k && is_child(t@[j].path, dv) && n == file_stem(#[trigger] t@[j].path.last()),
            ),
        decreases t.entries.len() - k,
    {
        let ghost before = names_view(r@).to_set();
        assert(t@[k as int] == t.entries@[k as int]@);
        let p = &t.entries[k].path;
        let ghost next = Set::new(
            |n: Seq<char>|
                exists|j: int| 0 <= j < k + 1 && is_child(t@[j].path, dv) && n == file_stem(#[trigger] t@[j].path.last()),
        );
        if is_child_of(p, d) {
            let stem = file_stem_of(p[p.len() - 1].as_str());
            assert(names_view(p@).last() == p@[p@.len() - 1]@);
            insert_name(&mut r, stem);
            proof {
                assert forall|n: Seq<char>| next.contains(n) <==> before.insert(stem@).contains(n) by {
                    if next.contains(n) {
                        let j = choose|j: int| 0 <= j < k + 1 && is_child(t@[j].path, dv) && n == file_stem(#[trigger] t@[j].path.last());
                        if j < k {
                            assert(before.contains(n));
                        }
                    }
                    if before.contains(n) {
                        let j = choose|j: int| 0 <= j < k && is_child(t@[j].path, dv) && n == file_stem(#[trigger] t@[j].path.last());
                        assert(next.contains(n));
                    }
                    if n == stem@ {
                        assert(is_child(t@[k as int].path, dv) && n == file_stem(t@[k as int].path.last()));
                        assert(next.contains(n));
                    }
                }
                assert(names_view(r@).to_set() =~= next);
            }
        } else {
            proof {
                assert forall|n: Seq<char>| next.contains(n) <==> before.contains(n) by {
                    if next.contains(n) {
                        let j = choose|j: int| 0 <= j < k + 1 && is_child(t@[j].path, dv) && n == file_stem(#[trigger] t@[j].path.last());
                        assert(j != k);
                        assert(before.contains(n));
                    }
                    if before.contains(n) {
                        let j = choose|j: int| 0 <= j < k && is_child(t@[j].path, dv) && n == file_stem(#[trigger] t@[j].path.last());
                        assert(next.contains(n));
                    }
                }
                assert(names_view(r@).to_set() =~= next);
            }
        }
        k += 1;
    }
    proof {
        assert(names_view(r@).to_set() =~= child_stems(t@, dv));
        lemma_sorted_name_set(names_view(r@));
    }
    r
}

/// Whether `p` is among the paths of `v`.
fn contains_path(v: &Vec<Vec<String>>, p: &Vec<String>) -> (r: bool)
    ensures
        r == paths_view(v@).contains(names_view(p@)),
{
    let mut i: usize = 0;
    while i < v.len()
        invariant
            i <= v@.len(),
            forall|j: int| 0 <= j < i ==> paths_view(v@)[j] != names_view(p@),
        decreases v.len() - i,
    {
        if same_names(&v[i], p) {
            assert(paths_view(v@)[i as int] == names_view(p@));
            return true;
        }
        i += 1;
    }
    false
}

/// What a generated module of the tree walk holds besides its child modules.
#[derive(Debug)]
pub enum SubModuleBody {
    /// A node with a directory only: the module only declares its children.
    Aggregator,
    /// A node with a descriptor: the routine that measures the type and
    /// writes its shadow module, and the bridge to its reflection probes.
    Typed { info: ArtifactInfoStub, bridge: ProbeBridge },
}

/// A generated module of the tree walk.
#[derive(Debug)]
pub struct AbiSubModule {
    pub path_components: Vec<String>,
    pub child_modules: Vec<String>,
    pub body: SubModuleBody,
}

impl View for AbiSubModule {
    type V = SubModuleView;

    open spec fn view(&self) -> SubModuleView {
        SubModuleView {
            path_components: names_view(self.path_components@),
            child_modules: names_view(self.child_modules@),
            body: match self.body {
                SubModuleBody::Aggregator => None,
                SubModuleBody::Typed { info, bridge } => Some((info@, bridge@)),
            },
        }
    }
}

/// The root module: it declares the top-level nodes and runs every
/// module's generation step, the root's own (the empty path) first.
#[derive(Debug)]
pub struct AbiRootModule {
    pub child_modules: Vec<String>,
    pub process_order: Vec<Vec<String>>,
}

impl View for AbiRootModule {
    type V = RootModuleView;

    open spec fn view(&self) -> RootModuleView {
        RootModuleView {
            child_modules: names_view(self.child_modules@),
            process_order: paths_view(self.process_order@),
        }
    }
}

/// Everything that generation writes for a descriptor tree.
#[derive(Debug)]
pub struct AbiModulePlan {
    pub modules: Vec<AbiSubModule>,
    pub root: AbiRootModule,
}

impl View for AbiModulePlan {
    type V = PlanView;

    open spec fn view(&self) -> PlanView {
        PlanView { modules: modules_view(self.modules@), root: self.root@ }
    }
}

pub open spec fn modules_view(v: Seq<AbiSubModule>) -> Seq<SubModuleView> {
    v.map_values(|m: AbiSubModule| m@)
}

/// Processes the node at position `i`: resolves its directory and file
/// forms, marks both visited, and builds its module.
fn process_src_abi_sub_module(t: &DescriptorTree, i: usize, visited: &mut Vec<Vec<String>>) -> (r: AbiSubModule)
    requires
        i < t@.len(),
    ensures
        r@ == module_of(t@, i as int),
        paths_view(final(visited)@) == visited_after(t@, i as int, paths_view(old(visited)@)),
{
    assert(t@[i as int] == t.entries@[i as int]@);
    let path = &t.entries[i].path;
    let is_file = match &t.entries[i].node {
        DescriptorNode::File(_) => true,
        DescriptorNode::Directory => false,
    };
    let path_dir: Option<Vec<String>> = if !is_file {
        Some(clone_names(path))
    } else {
        let q = relativized_components_from_path(path);
        if is_directory_at(t, &q) {
            Some(q)
        } else {
            None
        }
    };
    let path_file: Option<usize> = if is_file {
        Some(i)
    } else {
        let q = descriptor_path_of(path);
        file_position_at(t, &q)
    };
    assert(path_dir matches Some(d) ==> dir_of(t@, i as int) == Some(names_view(d@)));
    assert(path_dir is None ==> dir_of(t@, i as int) is None);
    assert(path_file == match file_of(t@, i as int) {
        Some(k) => Some(k as usize),
        None => None,
    });
    let path_components = relativized_components_from_path(path);
    let path_descendants = match &path_dir {
        Some(d) => {
            let c = find_immediate_path_descendants(t, d);
            let dp = clone_names(d);
            visited.push(dp);
            c
        },
        None => Vec::new(),
    };
    let ghost visited_mid = paths_view(visited@);
    assert(visited_mid =~= match dir_of(t@, i as int) {
        Some(d) => paths_view(old(visited)@).push(d),
        None => paths_view(old(visited)@),
    });
    assert(names_view(path_descendants@) =~= descendants_of(t@, i as int));
    let body = match path_file {
        Some(k) => {
            assert(t@[k as int] == t.entries@[k as int]@);
            let fp = clone_names(&t.entries[k].path);
            visited.push(fp);
            assert(paths_view(visited@) =~= visited_mid.push(t@[k as int].path));
            match &t.entries[k].node {
                DescriptorNode::File(e) => SubModuleBody::Typed {
                    info: e.emit_items_write_module_for_file(&path_components, &path_descendants),
                    bridge: e.emit_item_mod_cxx_bridge(),
                },
                DescriptorNode::Directory => SubModuleBody::Aggregator,
            }
        },
        None => SubModuleBody::Aggregator,
    };
    AbiSubModule { path_components, child_modules: path_descendants, body }
}

/// Walks the tree in order, producing one module per node and skipping
/// the paths that an earlier node already covered under its other form.
fn walk_tree(t: &DescriptorTree) -> (r: Vec<AbiSubModule>)
    ensures
        modules_view(r@) == walk(t@, 0, Seq::empty()),
{
    let mut visited: Vec<Vec<String>> = Vec::new();
    let mut modules: Vec<AbiSubModule> = Vec::new();
    let mut i: usize = 0;
    assert(paths_view(visited@) =~= Seq::empty());
    assert(modules_view(modules@) =~= Seq::empty());
    while i < t.entries.len()
        invariant
            i <= t@.len(),
            t@.len() == t.entries@.len(),
            modules_view(modules@) + walk(t@, i as int, paths_view(visited@)) == walk(t@, 0, Seq::empty()),
        decreases t.entries.len() - i,
    {
        assert(t@[i as int] == t.entries@[i as int]@);
        if !contains_path(&visited, &t.entries[i].path) {
            let ghost before = modules_view(modules@);
            let ghost v0 = paths_view(visited@);
            let m = process_src_abi_sub_module(t, i, &mut visited);
            modules.push(m);
            assert(modules_view(modules@) =~= before.push(module_of(t@, i as int)));
            assert(walk(t@, i as int, v0) == seq![module_of(t@, i as int)] + walk(t@, i + 1, visited_after(t@, i as int, v0)));
            assert(before + (seq![module_of(t@, i as int)] + walk(t@, i + 1, paths_view(visited@))) =~= modules_view(modules@) + walk(t@, i + 1, paths_view(visited@)));
        }
        i += 1;
    }
    assert(walk(t@, i as int, paths_view(visited@)) =~= Seq::empty());
    assert(modules_view(modules@) =~= modules_view(modules@) + Seq::<SubModuleView>::empty());
    modules
}

proof fn lemma_identifiers_ignore_order(p: PlanView, q: PlanView)
    requires
        p.modules == q.modules,
        p.root.child_modules == q.root.child_modules,
    ensures
        plan_identifiers_valid(p) == plan_identifiers_valid(q),
{
}

/// Checks that every path segment and child module of the plan is an
/// identifier, and names the first that is not.
fn check_plan_identifiers(modules: &Vec<AbiSubModule>, root_children: &Vec<String>) -> (r: Result<(), AbiError>)
    ensures
        r is Ok <==> plan_identifiers_valid(
            PlanView {
                modules: modules_view(modules@),
                root: RootModuleView { child_modules: names_view(root_children@), process_order: Seq::empty() },
            },
        ),
        r matches Err(AbiError::InvalidIdentifier { name }) ==> !rust_identifier(name@),
{
    let ghost mv = modules_view(modules@);
    let mut i: usize = 0;
    while i < modules.len()
        invariant
            i <= modules@.len(),
            mv == modules_view(modules@),
            forall|a: int, j: int|
                0 <= a < i && 0 <= j < mv[a].path_components.len() ==> rust_identifier(
                    #[trigger] mv[a].path_components[j],
                ),
            forall|a: int, j: int|
                0 <= a < i && 0 <= j < mv[a].child_modules.len() ==> rust_identifier(
                    #[trigger] mv[a].child_modules[j],
                ),
        decreases modules.len() - i,
    {
        let m = &modules[i];
        assert(mv[i as int] == m@);
        let r = check_names(&m.path_components);
        if r.is_err() {
            proof {
                let k = choose|k: int| 0 <= k < m.path_components@.len() && !rust_identifier(#[trigger] m.path_components@[k]@);
                assert(mv[i as int].path_components[k] == m.path_components@[k]@);
            }
            return r;
        }
        let r = check_names(&m.child_modules);
        if r.is_err() {
            proof {
                let k = choose|k: int| 0 <= k < m.child_modules@.len() && !rust_identifier(#[trigger] m.child_modules@[k]@);
                assert(mv[i as int].child_modules[k] == m.child_modules@[k]@);
            }
            return r;
        }
        proof {
            assert forall|j: int| 0 <= j < mv[i as int].path_components.len() implies rust_identifier(
                #[trigger] mv[i as int].path_components[j],
            ) by {
                assert(mv[i as int].path_components[j] == m.path_components@[j]@);
            }
            assert forall|j: int| 0 <= j < mv[i as int].child_modules.len() implies rust_identifier(
                #[trigger] mv[i as int].child_modules[j],
            ) by {
                assert(mv[i as int].child_modules[j] == m.child_modules@[j]@);
            }
        }
        i += 1;
    }
    let r = check_names(root_children);
    proof {
        let p = PlanView {
            modules: modules_view(modules@),
            root: RootModuleView { child_modules: names_view(root_children@), process_order: Seq::empty() },
        };
        assert(p.modules == mv);
        assert(p.root.child_modules == names_view(root_children@));
        if r.is_err() {
            let k = choose|k: int| 0 <= k < root_children@.len() && !rust_identifier(#[trigger] root_children@[k]@);
            assert(names_view(root_children@)[k] == root_children@[k]@);
        } else {
            assert forall|j: int| 0 <= j < names_view(root_children@).len() implies rust_identifier(
                #[trigger] names_view(root_children@)[j],
            ) by {
                assert(names_view(root_children@)[j] == root_children@[j]@);
            }
            assert(plan_identifiers_valid(p));
        }
    }
    r
}

/// Walks a descriptor tree and plans every module that generation writes:
/// one per node, typed where the node has a descriptor, and the root.
pub fn process_src_abi_module(tree: &DescriptorTree) -> (r: Result<AbiModulePlan, AbiError>)
    ensures
        r matches Ok(p) ==> p@ == spec_plan(tree@),
        r is Ok <==> plan_identifiers_valid(spec_plan(tree@)),
        r matches Err(AbiError::InvalidIdentifier { name }) ==> !rust_identifier(name@),
{
    let modules = walk_tree(tree);
    let ghost mv = modules_view(modules@);
    let ghost comps = mv.map_values(|m: SubModuleView| m.path_components);
    let mut walked: Vec<Vec<String>> = Vec::new();
    let mut j: usize = 0;
    while j < modules.len()
        invariant
            j <= modules@.len(),
            mv == modules_view(modules@),
            comps == mv.map_values(|m: SubModuleView| m.path_components),
            walked@.len() == j,
            forall|k: int| 0 <= k < j ==> #[trigger] names_view(walked@[k]@) == mv[k].path_components,
        decreases modules.len() - j,
    {
        assert(mv[j as int] == modules@[j as int]@);
        walked.push(clone_names(&modules[j].path_components));
        j += 1;
    }
    assert(paths_view(walked@) =~= comps);
    let mut sorted = sort_paths(&walked);
    let mut process_order: Vec<Vec<String>> = Vec::new();
    process_order.push(Vec::new());
    process_order.append(&mut sorted);
    let root: Vec<String> = Vec::new();
    assert(names_view(root@) =~= Seq::empty());
    let root_children = find_immediate_path_descendants(tree, &root);
    let check = check_plan_identifiers(&modules, &root_children);
    assert(paths_view(process_order@) =~= seq![Seq::<Seq<char>>::empty()] + sorted_paths(comps));
    assert(spec_plan(tree@).modules == modules_view(modules@));
    assert(spec_plan(tree@).root.child_modules == names_view(root_children@));
    proof {
        lemma_identifiers_ignore_order(
            spec_plan(tree@),
            PlanView {
                modules: modules_view(modules@),
                root: RootModuleView { child_modules: names_view(root_children@), process_order: Seq::empty() },
            },
        );
    }
    match check {
        Ok(()) => {
            let plan = AbiModulePlan {
                modules,
                root: AbiRootModule { child_modules: root_children, process_order },
            };
            Ok(plan)
        },
        Err(e) => Err(e),
    }
}

} // verus!
