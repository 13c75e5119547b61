//! Diffs between two points in a project's history.

use crate::content::{ext_path, FileContent, GodotScene, TypeOrInstance};
use crate::fs_traversal::ChangeType;
use crate::history::HistoryRef;
use crate::lists::reversed;
use crate::ordered::value_at;
use crate::table::Table;
use crate::text::{list_has, same_text, texts};
use crate::variants::{diff_path, path_of};
use vstd::prelude::*;
use vstd::string::*;

verus! {

/// A value of a property, as it is shown in a diff.
#[derive(Debug)]
pub enum VariantValue {
    /// A value in its text form.
    Variant(String),
    /// The default of a property of a class or instance.
    DefaultValue(Option<TypeOrInstance>, String),
    /// A resource that is loaded when it is shown: its path, and the path that it is loaded from.
    LazyLoadData(String, String),
    Script(String),
}

/// A changed property.
#[derive(Debug)]
pub struct PropertyDiff {
    pub name: String,
    pub change_type: ChangeType,
    pub old_value: Option<VariantValue>,
    pub new_value: Option<VariantValue>,
}

/// A changed node of a scene.
#[derive(Debug)]
pub struct NodeDiff {
    pub change_type: ChangeType,
    pub node_path: String,
    pub node_type: Option<TypeOrInstance>,
    pub changed_properties: Vec<PropertyDiff>,
}

/// A scene file diff.
#[derive(Debug)]
pub struct SceneDiff {
    pub path: String,
    pub change_type: ChangeType,
    pub changed_nodes: Vec<NodeDiff>,
}

/// A changed resource within a text resource.
#[derive(Debug)]
pub struct SubResourceDiff {
    pub change_type: ChangeType,
    pub sub_resource_id: String,
    pub resource_type: String,
    pub script_class: Option<String>,
    pub changed_properties: Vec<PropertyDiff>,
}

/// A text resource diff.
#[derive(Debug)]
pub struct TextResourceDiff {
    pub path: String,
    pub change_type: ChangeType,
    pub resource_type: String,
    pub changed_sub_resources: Vec<SubResourceDiff>,
    pub changed_main_resource: Option<SubResourceDiff>,
}

/// A resource file diff.
#[derive(Debug)]
pub struct BinaryResourceDiff {
    pub path: String,
    pub change_type: ChangeType,
    pub old_resource: Option<VariantValue>,
    pub new_resource: Option<VariantValue>,
}

/// A line of a text diff.
#[derive(Debug)]
pub struct TextDiffLine {
    pub new_line_no: i64,
    pub old_line_no: i64,
    pub content: String,
    pub status: String,
}

/// A run of lines in a text diff.
#[derive(Debug)]
pub struct TextDiffHunk {
    pub new_start: i64,
    pub old_start: i64,
    pub new_lines: i64,
    pub old_lines: i64,
    pub diff_lines: Vec<TextDiffLine>,
}

/// A text file diff.
#[derive(Debug)]
pub struct TextDiff {
    pub path: String,
    pub change_type: ChangeType,
    pub diff_hunks: Vec<TextDiffHunk>,
}

/// A diff for a single file.
#[derive(Debug)]
pub enum Diff {
    Scene(SceneDiff),
    TextResourceDiff(TextResourceDiff),
    BinaryResource(BinaryResourceDiff),
    Text(TextDiff),
}

/// A diff for an entire project.
#[derive(Debug)]
pub struct ProjectDiff {
    /// The file diffs in the project diff.
    pub file_diffs: Vec<Diff>,
}

impl Default for ProjectDiff {
    fn default() -> (r: ProjectDiff)
        ensures
            r.file_diffs@ == Seq::<Diff>::empty(),
    {
        ProjectDiff { file_diffs: Vec::new() }
    }
}

impl BinaryResourceDiff {
    pub fn new(
        path: String,
        change_type: ChangeType,
        old_resource: Option<VariantValue>,
        new_resource: Option<VariantValue>,
    ) -> (r: BinaryResourceDiff)
        ensures
            r == (BinaryResourceDiff { path, change_type, old_resource, new_resource }),
    {
        BinaryResourceDiff { path, change_type, old_resource, new_resource }
    }
}

/// How a changed file is compared.
#[derive(Clone, Copy, Debug, PartialEq, Eq, Structural)]
pub enum DiffKind {
    Scene,
    TextResource,
    Binary,
    Text,
    /// The file is passed over.
    Unknown,
}

/// The scene in a file's contents.
pub open spec fn scene_in(content: Option<FileContent>) -> Option<GodotScene> {
    match content {
        Some(FileContent::Scene(s)) => Some(s),
        _ => None,
    }
}

/// How a file is compared, by its contents before and after: as a scene or text resource where
/// either is one, the later deciding which; else as binary data where either is; else as text.
pub open spec fn kind_of(old: Option<FileContent>, new: Option<FileContent>) -> DiffKind {
    let scene = if scene_in(new) is Some {
        scene_in(new)
    } else {
        scene_in(old)
    };
    match scene {
        Some(s) => if s.resource_type@ == "PackedScene"@ {
            DiffKind::Scene
        } else {
            DiffKind::TextResource
        },
        None => if old matches Some(FileContent::Binary(_)) {
            DiffKind::Binary
        } else if new matches Some(FileContent::Binary(_)) {
            DiffKind::Binary
        } else if old matches Some(FileContent::String(_)) {
            DiffKind::Text
        } else if new matches Some(FileContent::String(_)) {
            DiffKind::Text
        } else {
            DiffKind::Unknown
        },
    }
}

/// How a file is compared, by its contents before and after.
pub fn diff_kind(old: Option<&FileContent>, new: Option<&FileContent>) -> (r: DiffKind)
    ensures
        r == kind_of(
            (match old {
                Some(c) => Some(*c),
                None => None,
            }),
            (match new {
                Some(c) => Some(*c),
                None => None,
            }),
        ),
{
    let old_scene = match old {
        Some(FileContent::Scene(s)) => Some(s),
        _ => None,
    };
    let new_scene = match new {
        Some(FileContent::Scene(s)) => Some(s),
        _ => None,
    };
    let scene = match new_scene {
        Some(s) => Some(s),
        None => old_scene,
    };
    match scene {
        Some(s) => if same_text(s.resource_type.as_str(), "PackedScene") {
            DiffKind::Scene
        } else {
            DiffKind::TextResource
        },
        None => match (old, new) {
            (Some(FileContent::Binary(_)), _) => DiffKind::Binary,
            (_, Some(FileContent::Binary(_))) => DiffKind::Binary,
            (Some(FileContent::String(_)), _) => DiffKind::Text,
            (_, Some(FileContent::String(_))) => DiffKind::Text,
            _ => DiffKind::Unknown,
        },
    }
}

/// A node whose type is the root type of a scene that has yet to be loaded.
#[derive(Debug)]
pub struct NeededScene {
    /// The place of the scene's diff in the project diff.
    pub diff: usize,
    /// The place of the node in the scene's diff.
    pub node: usize,
    /// Whether the scene is needed as it is after the change.
    pub is_new: bool,
    /// The path of the scene.
    pub path: String,
}

/// What becomes of the type of a changed node.
pub enum NodeOutcome {
    Keep,
    Become(Option<TypeOrInstance>),
    /// The scene at the path has to be loaded; with whether it is needed as it is after the change.
    Need(bool, String),
}

/// What becomes of the type of a node that instances the scene at `path`.
pub open spec fn instance_outcome(
    path: Option<String>,
    contents: Seq<(Seq<char>, FileContent)>,
    is_new: bool,
) -> NodeOutcome {
    match path {
        None => NodeOutcome::Keep,
        Some(p) => match scene_in(value_at(contents, p@)) {
            Some(s) => NodeOutcome::Become(s.root_node_type),
            None => NodeOutcome::Need(is_new, p),
        },
    }
}

/// What becomes of the type of a changed node: an instance of a scene gets the type of that
/// scene's root, after the change for a node that is still there, before it for one that is gone.
pub open spec fn node_outcome(
    node: NodeDiff,
    old_scene: Option<GodotScene>,
    new_scene: Option<GodotScene>,
    old_contents: Seq<(Seq<char>, FileContent)>,
    new_contents: Seq<(Seq<char>, FileContent)>,
) -> NodeOutcome {
    match node.node_type {
        Some(TypeOrInstance::Instance(id)) => match node.change_type {
            ChangeType::Deleted => instance_outcome(
                ext_path(old_scene->0.ext_resources@, id@),
                old_contents,
                false,
            ),
            _ => instance_outcome(
                ext_path(new_scene->0.ext_resources@, id@),
                new_contents,
                true,
            ),
        },
        _ => NodeOutcome::Keep,
    }
}

/// The type of a node, once its outcome is known.
pub open spec fn outcome_type(node: NodeDiff, outcome: NodeOutcome) -> Option<TypeOrInstance> {
    match outcome {
        NodeOutcome::Become(t) => t,
        _ => node.node_type,
    }
}

/// The scene that each instanced node is an instance of is at hand: the old one for a node that is
/// gone, else the new one.
pub open spec fn scenes_at_hand(
    nodes: Seq<NodeDiff>,
    old_scene: Option<GodotScene>,
    new_scene: Option<GodotScene>,
) -> bool {
    forall|i: int|
        0 <= i < nodes.len() ==> ((#[trigger] nodes[i]).node_type matches Some(
            TypeOrInstance::Instance(_),
        ) ==> if nodes[i].change_type == ChangeType::Deleted {
            old_scene is Some
        } else {
            new_scene is Some
        })
}

/// The node and scene of each scene that is needed: (node, is_new, path).
pub open spec fn needs_from(
    nodes: Seq<NodeDiff>,
    old_scene: Option<GodotScene>,
    new_scene: Option<GodotScene>,
    old_contents: Seq<(Seq<char>, FileContent)>,
    new_contents: Seq<(Seq<char>, FileContent)>,
) -> Seq<(int, bool, Seq<char>)>
    decreases nodes.len(),
{
    if nodes.len() == 0 {
        Seq::empty()
    } else {
        let before = needs_from(
            nodes.drop_last(),
            old_scene,
            new_scene,
            old_contents,
            new_contents,
        );
        match node_outcome(nodes.last(), old_scene, new_scene, old_contents, new_contents) {
            NodeOutcome::Need(is_new, path) => before.push((nodes.len() - 1, is_new, path@)),
            _ => before,
        }
    }
}

/// The needed scenes, by the place of their diff.
pub open spec fn needed_views(needed: Seq<NeededScene>) -> Seq<(int, int, bool, Seq<char>)> {
    needed.map_values(|n: NeededScene| (n.diff as int, n.node as int, n.is_new, n.path@))
}

/// The needs of the diff at a place in the project diff.
pub open spec fn placed(diff: int, needs: Seq<(int, bool, Seq<char>)>) -> Seq<
    (int, int, bool, Seq<char>),
> {
    needs.map_values(|n: (int, bool, Seq<char>)| (diff, n.0, n.1, n.2))
}

/// The nodes differ only in the type of the nodes, which is given.
pub open spec fn retyped(
    before: Seq<NodeDiff>,
    after: Seq<NodeDiff>,
    types: Seq<Option<TypeOrInstance>>,
) -> bool {
    &&& after.len() == before.len()
    &&& types.len() == before.len()
    &&& forall|i: int|
        0 <= i < after.len() ==> #[trigger] after[i] == (NodeDiff {
            node_type: types[i],
            ..before[i]
        })
}

/// The types of the nodes, once their outcomes are known.
pub open spec fn resolved_types(
    nodes: Seq<NodeDiff>,
    old_scene: Option<GodotScene>,
    new_scene: Option<GodotScene>,
    old_contents: Seq<(Seq<char>, FileContent)>,
    new_contents: Seq<(Seq<char>, FileContent)>,
) -> Seq<Option<TypeOrInstance>> {
    nodes.map_values(
        |n: NodeDiff|
            outcome_type(
                n,
                node_outcome(n, old_scene, new_scene, old_contents, new_contents),
            ),
    )
}

/// The scene that a node instances, as far as it is at hand.
fn instanced(
    scene: &GodotScene,
    id: &str,
    contents: &Table<FileContent>,
) -> (r: (Option<Option<TypeOrInstance>>, Option<String>))
    ensures
        match instance_outcome(ext_path(scene.ext_resources@, id@), contents@, true) {
            NodeOutcome::Keep => r.0 is None && r.1 is None,
            NodeOutcome::Become(t) => r.0 == Some(t) && r.1 is None,
            NodeOutcome::Need(_, p) => r.0 is None && r.1 == Some(p),
        },
{
    match scene.get_ext_resource_path(id) {
        None => (None, None),
        Some(path) => match contents.get(path.as_str()) {
            Some(FileContent::Scene(instance)) => (Some(instance.get_root_node_type()), None),
            _ => (None, Some(path)),
        },
    }
}

/// Sets the types of the instanced nodes in a scene's diff, as far as the instanced scenes are at
/// hand, and gives those that have to be loaded. `diff` is the place that the diff will have in
/// the project diff.
pub fn resolve_instances(
    scene_diff: &mut SceneDiff,
    diff: usize,
    old_scene: Option<&GodotScene>,
    new_scene: Option<&GodotScene>,
    old_contents: &Table<FileContent>,
    new_contents: &Table<FileContent>,
) -> (needed: Vec<NeededScene>)
    requires
        scenes_at_hand(
            old(scene_diff).changed_nodes@,
            deref(old_scene),
            deref(new_scene),
        ),
    ensures
        final(scene_diff).path == old(scene_diff).path,
        final(scene_diff).change_type == old(scene_diff).change_type,
        retyped(
            old(scene_diff).changed_nodes@,
            final(scene_diff).changed_nodes@,
            resolved_types(
                old(scene_diff).changed_nodes@,
                deref(old_scene),
                deref(new_scene),
                old_contents@,
                new_contents@,
            ),
        ),
        needed_views(needed@) == placed(
            diff as int,
            needs_from(
                old(scene_diff).changed_nodes@,
                deref(old_scene),
                deref(new_scene),
                old_contents@,
                new_contents@,
            ),
        ),
{
    let ghost nodes = scene_diff.changed_nodes@;
    let ghost os = deref(old_scene);
    let ghost ns = deref(new_scene);
    let ghost types = resolved_types(nodes, os, ns, old_contents@, new_contents@);
    let mut needed: Vec<NeededScene> = Vec::new();
    let n = scene_diff.changed_nodes.len();
    let mut i: usize = 0;
    assert(nodes.take(0) == Seq::<NodeDiff>::empty());
    assert(needed_views(needed@) == placed(
        diff as int,
        needs_from(nodes.take(0), os, ns, old_contents@, new_contents@),
    ));
    while i < n
        invariant
            i <= n,
            n == nodes.len(),
            n == scene_diff.changed_nodes.len(),
            os == deref(old_scene),
            ns == deref(new_scene),
            types == resolved_types(nodes, os, ns, old_contents@, new_contents@),
            scenes_at_hand(nodes, os, ns),
            scene_diff.path == old(scene_diff).path,
            scene_diff.change_type == old(scene_diff).change_type,
            forall|j: int|
                0 <= j < i ==> #[trigger] scene_diff.changed_nodes@[j] == (NodeDiff {
                    node_type: types[j],
                    ..nodes[j]
                }),
            forall|j: int| i <= j < n ==> #[trigger] scene_diff.changed_nodes@[j] == nodes[j],
            needed_views(needed@) == placed(
                diff as int,
                needs_from(nodes.take(i as int), os, ns, old_contents@, new_contents@),
            ),
        decreases n - i,
    {
        let ghost before = needed@;
        let ghost needs = needs_from(nodes.take(i as int), os, ns, old_contents@, new_contents@);
        assert(nodes.take(i + 1).drop_last() == nodes.take(i as int));
        assert(nodes.take(i + 1).last() == nodes[i as int]);
        let change = scene_diff.changed_nodes[i].change_type;
        let is_new = change != ChangeType::Deleted;
        let found = match &scene_diff.changed_nodes[i].node_type {
            Some(TypeOrInstance::Instance(id)) => if is_new {
                match new_scene {
                    Some(scene) => instanced(scene, id.as_str(), new_contents),
                    None => (None, None),
                }
            } else {
                match old_scene {
                    Some(scene) => instanced(scene, id.as_str(), old_contents),
                    None => (None, None),
                }
            },
            _ => (None, None),
        };
        let ghost outcome = node_outcome(
            nodes[i as int],
            os,
            ns,
            old_contents@,
            new_contents@,
        );
        if let Some(node_type) = found.0 {
            scene_diff.changed_nodes[i].node_type = node_type;
        }
        match found.1 {
            Some(path) => {
                let ghost p = path@;
                needed.push(NeededScene { diff, node: i, is_new, path });
                assert(needed_views(needed@) == needed_views(before).push(
                    (diff as int, i as int, is_new, p),
                ));
                assert(placed(diff as int, needs.push((i as int, is_new, p))) == placed(
                    diff as int,
                    needs,
                ).push((diff as int, i as int, is_new, p)));
            },
            None => {},
        }
        i = i + 1;
    }
    assert(nodes.take(n as int) == nodes);
    needed
}

/// The value behind an optional reference.
pub open spec fn deref<T>(r: Option<&T>) -> Option<T> {
    match r {
        Some(v) => Some(*v),
        None => None,
    }
}

/// The path of the file that a diff is of.
pub open spec fn path_in(diff: Diff) -> Seq<char> {
    path_of(diff)@
}

/// How the file was compared that a diff is of.
pub open spec fn kind_in(diff: Diff) -> DiffKind {
    match diff {
        Diff::Scene(_) => DiffKind::Scene,
        Diff::TextResourceDiff(_) => DiffKind::TextResource,
        Diff::BinaryResource(_) => DiffKind::Binary,
        Diff::Text(_) => DiffKind::Text,
    }
}

/// The files that are compared, each with how it is, by the contents before and after. A file
/// that cannot be compared is passed over.
pub open spec fn compared(
    paths: Seq<Seq<char>>,
    old_contents: Seq<(Seq<char>, FileContent)>,
    new_contents: Seq<(Seq<char>, FileContent)>,
) -> Seq<(Seq<char>, DiffKind)>
    decreases paths.len(),
{
    if paths.len() == 0 {
        Seq::empty()
    } else {
        let before = compared(paths.drop_last(), old_contents, new_contents);
        let path = paths.last();
        let kind = kind_of(value_at(old_contents, path), value_at(new_contents, path));
        if kind == DiffKind::Unknown {
            before
        } else {
            before.push((path, kind))
        }
    }
}

/// The diff is one of the planned file, compared as planned.
pub open spec fn fits(plan: (Seq<char>, DiffKind), diff: Diff) -> bool {
    path_in(diff) == plan.0 && kind_in(diff) == plan.1
}

/// The scene at a path, in the contents before or after.
pub open spec fn scene_at(contents: Seq<(Seq<char>, FileContent)>, path: Seq<char>) -> Option<
    GodotScene,
> {
    scene_in(value_at(contents, path))
}

/// The nodes of a scene's diff; none for another diff.
pub open spec fn nodes_of(diff: Diff) -> Seq<NodeDiff> {
    match diff {
        Diff::Scene(s) => s.changed_nodes@,
        _ => Seq::empty(),
    }
}

/// The diffs differ only in the types of the scene's nodes, which are given.
pub open spec fn retyped_diff(
    before: Diff,
    after: Diff,
    types: Seq<Option<TypeOrInstance>>,
) -> bool {
    match before {
        Diff::Scene(b) => match after {
            Diff::Scene(a) => a.path == b.path && a.change_type == b.change_type && retyped(
                b.changed_nodes@,
                a.changed_nodes@,
                types,
            ),
            _ => false,
        },
        _ => after == before && types.len() == 0,
    }
}

/// The types of the nodes of a file's diff, as far as the instanced scenes are at hand.
pub open spec fn piece_types(
    piece: Diff,
    old_contents: Seq<(Seq<char>, FileContent)>,
    new_contents: Seq<(Seq<char>, FileContent)>,
) -> Seq<Option<TypeOrInstance>> {
    resolved_types(
        nodes_of(piece),
        scene_at(old_contents, path_in(piece)),
        scene_at(new_contents, path_in(piece)),
        old_contents,
        new_contents,
    )
}

/// The scenes that the files' diffs need, in order.
pub open spec fn all_needs(
    pieces: Seq<Diff>,
    old_contents: Seq<(Seq<char>, FileContent)>,
    new_contents: Seq<(Seq<char>, FileContent)>,
) -> Seq<(int, int, bool, Seq<char>)>
    decreases pieces.len(),
{
    if pieces.len() == 0 {
        Seq::empty()
    } else {
        let piece = pieces.last();
        all_needs(pieces.drop_last(), old_contents, new_contents) + placed(
            pieces.len() - 1,
            needs_from(
                nodes_of(piece),
                scene_at(old_contents, path_in(piece)),
                scene_at(new_contents, path_in(piece)),
                old_contents,
                new_contents,
            ),
        )
    }
}

/// The scene of each instanced node in a file's diff is at hand.
pub open spec fn at_hand(
    piece: Diff,
    old_contents: Seq<(Seq<char>, FileContent)>,
    new_contents: Seq<(Seq<char>, FileContent)>,
) -> bool {
    scenes_at_hand(
        nodes_of(piece),
        scene_at(old_contents, path_in(piece)),
        scene_at(new_contents, path_in(piece)),
    )
}

/// The diffs are those of the files that are compared, each of its file and compared as the
/// contents say, and the scene of each instanced node is at hand.
pub open spec fn pieces_fit(
    paths: Seq<Seq<char>>,
    pieces: Seq<Diff>,
    old_contents: Seq<(Seq<char>, FileContent)>,
    new_contents: Seq<(Seq<char>, FileContent)>,
) -> bool {
    let plan = compared(paths, old_contents, new_contents);
    &&& pieces.len() == plan.len()
    &&& forall|i: int| 0 <= i < pieces.len() ==> fits(plan[i], #[trigger] pieces[i])
    &&& forall|i: int|
        0 <= i < pieces.len() ==> at_hand(#[trigger] pieces[i], old_contents, new_contents)
}

/// The types of the nodes after the needed scenes were loaded, where they could be. A node that is
/// needed as it is after the change is looked up among `new_needed`, another among `old_needed`.
pub open spec fn types_with(
    types: Seq<Seq<Option<TypeOrInstance>>>,
    needed: Seq<(int, int, bool, Seq<char>)>,
    old_needed: Seq<(Seq<char>, FileContent)>,
    new_needed: Seq<(Seq<char>, FileContent)>,
) -> Seq<Seq<Option<TypeOrInstance>>>
    decreases needed.len(),
{
    if needed.len() == 0 {
        types
    } else {
        let before = types_with(types, needed.drop_last(), old_needed, new_needed);
        let (diff, node, is_new, path) = needed.last();
        let contents = if is_new {
            new_needed
        } else {
            old_needed
        };
        match scene_at(contents, path) {
            Some(scene) => if 0 <= diff < before.len() && 0 <= node < before[diff].len() {
                before.update(diff, before[diff].update(node, scene.root_node_type))
            } else {
                before
            },
            None => before,
        }
    }
}

/// The types of the nodes of each diff.
pub open spec fn types_in(diffs: Seq<Diff>) -> Seq<Seq<Option<TypeOrInstance>>> {
    diffs.map_values(|d: Diff| nodes_of(d).map_values(|n: NodeDiff| n.node_type))
}

/// How the file was compared that a diff is of.
fn kind_of_diff(diff: &Diff) -> (r: DiffKind)
    ensures
        r == kind_in(*diff),
{
    match diff {
        Diff::Scene(_) => DiffKind::Scene,
        Diff::TextResourceDiff(_) => DiffKind::TextResource,
        Diff::BinaryResource(_) => DiffKind::Binary,
        Diff::Text(_) => DiffKind::Text,
    }
}

/// Whether each instanced node is in a scene that is there: the old one for a node that is gone,
/// else the new one.
fn are_at_hand(nodes: &Vec<NodeDiff>, old_there: bool, new_there: bool) -> (r: bool)
    ensures
        forall|old_scene: Option<GodotScene>, new_scene: Option<GodotScene>|
            old_there == (old_scene is Some) && new_there == (new_scene is Some) ==> r
                == #[trigger] scenes_at_hand(nodes@, old_scene, new_scene),
{
    let mut i: usize = 0;
    while i < nodes.len()
        invariant
            i <= nodes.len(),
            forall|j: int|
                0 <= j < i ==> ((#[trigger] nodes@[j]).node_type matches Some(
                    TypeOrInstance::Instance(_),
                ) ==> if nodes@[j].change_type == ChangeType::Deleted {
                    old_there
                } else {
                    new_there
                }),
        decreases nodes.len() - i,
    {
        let node = &nodes[i];
        if let Some(TypeOrInstance::Instance(_)) = &node.node_type {
            let there = match node.change_type {
                ChangeType::Deleted => old_there,
                _ => new_there,
            };
            if !there {
                assert(nodes@[i as int].node_type matches Some(TypeOrInstance::Instance(_)));
                return false;
            }
        }
        i = i + 1;
    }
    true
}

/// Computes diffs between two points in a project's history.
#[derive(Clone, Copy, Debug)]
pub struct Differ;

impl Differ {
    /// The files to compare between two points in history, by what changed. Nothing where there
    /// is nothing to compare.
    pub fn files_to_diff(
        before: &HistoryRef,
        after: &HistoryRef,
        changes: Option<&Table<ChangeType>>,
    ) -> (r: Option<Vec<String>>)
        ensures
            r is Some <==> !before.is_same(*after) && changes is Some && changes->0@.len() > 0,
            r matches Some(paths) ==> texts(paths@) == changes->0@.map_values(
                |c: (Seq<char>, ChangeType)| c.0,
            ),
    {
        if before.same(after) {
            return None;
        }
        let changes = match changes {
            Some(changes) => changes,
            None => {
                return None;
            },
        };
        let n = changes.len();
        if n == 0 {
            return None;
        }
        let mut paths: Vec<String> = Vec::new();
        let mut i: usize = 0;
        while i < n
            invariant
                i <= n,
                n == changes@.len(),
                paths.len() == i,
                forall|j: int| 0 <= j < i ==> (#[trigger] paths@[j])@ == changes@[j].0,
            decreases n - i,
        {
            paths.push(changes.key_at(i).clone());
            i = i + 1;
        }
        assert(texts(paths@) == changes@.map_values(|c: (Seq<char>, ChangeType)| c.0));
        Some(paths)
    }

    /// The changed files that are compared, each with how it is.
    pub fn files_with_kinds(
        paths: &Vec<String>,
        old_contents: &Table<FileContent>,
        new_contents: &Table<FileContent>,
    ) -> (r: Vec<(String, DiffKind)>)
        ensures
            r@.map_values(|f: (String, DiffKind)| (f.0@, f.1)) == compared(
                texts(paths@),
                old_contents@,
                new_contents@,
            ),
    {
        let ghost all = texts(paths@);
        let mut files: Vec<(String, DiffKind)> = Vec::new();
        let mut i: usize = 0;
        assert(all.take(0) == Seq::<Seq<char>>::empty());
        while i < paths.len()
            invariant
                i <= paths.len(),
                all == texts(paths@),
                files@.map_values(|f: (String, DiffKind)| (f.0@, f.1)) == compared(
                    all.take(i as int),
                    old_contents@,
                    new_contents@,
                ),
            decreases paths.len() - i,
        {
            let path = &paths[i];
            let kind = diff_kind(
                old_contents.get(path.as_str()),
                new_contents.get(path.as_str()),
            );
            assert(all.take(i + 1).drop_last() == all.take(i as int));
            assert(all.take(i + 1).last() == path@);
            let ghost before = files@;
            if kind != DiffKind::Unknown {
                files.push((path.clone(), kind));
                assert(files@.map_values(|f: (String, DiffKind)| (f.0@, f.1))
                    == before.map_values(|f: (String, DiffKind)| (f.0@, f.1)).push((path@, kind)));
            }
            i = i + 1;
        }
        assert(all.take(all.len() as int) == all);
        files
    }

    /// Whether the diffs are those of the files that are compared, each of its file and compared
    /// as the contents say, and the scene of each instanced node is at hand.
    pub fn pieces_fit(
        paths: &Vec<String>,
        pieces: &Vec<Diff>,
        old_contents: &Table<FileContent>,
        new_contents: &Table<FileContent>,
    ) -> (r: bool)
        ensures
            r == pieces_fit(texts(paths@), pieces@, old_contents@, new_contents@),
    {
        let plan = Differ::files_with_kinds(paths, old_contents, new_contents);
        let ghost planned = compared(texts(paths@), old_contents@, new_contents@);
        if plan.len() != pieces.len() {
            return false;
        }
        let mut i: usize = 0;
        while i < pieces.len()
            invariant
                i <= pieces.len(),
                plan.len() == pieces.len(),
                planned == compared(texts(paths@), old_contents@, new_contents@),
                planned == plan@.map_values(|f: (String, DiffKind)| (f.0@, f.1)),
                forall|j: int| 0 <= j < i ==> fits(planned[j], #[trigger] pieces@[j]),
                forall|j: int|
                    0 <= j < i ==> at_hand(#[trigger] pieces@[j], old_contents@, new_contents@),
            decreases pieces.len() - i,
        {
            let piece = &pieces[i];
            let path = diff_path(piece).as_str();
            assert(planned[i as int] == (plan@[i as int].0@, plan@[i as int].1));
            if !same_text(path, plan[i].0.as_str()) || kind_of_diff(piece) != plan[i].1 {
                assert(!fits(planned[i as int], pieces@[i as int]));
                return false;
            }
            if let Diff::Scene(scene) = piece {
                let old_there = matches!(old_contents.get(path), Some(FileContent::Scene(_)));
                let new_there = matches!(new_contents.get(path), Some(FileContent::Scene(_)));
                if !are_at_hand(&scene.changed_nodes, old_there, new_there) {
                    assert(!at_hand(pieces@[i as int], old_contents@, new_contents@));
                    return false;
                }
            }
            i = i + 1;
        }
        true
    }

    /// Puts the diffs of the changed files together, one for each file that is compared. The types
    /// of instanced nodes are set as far as the instanced scenes are at hand; the others are given
    /// back as needed.
    pub fn get_diff(
        paths: &Vec<String>,
        pieces: Vec<Diff>,
        old_contents: &Table<FileContent>,
        new_contents: &Table<FileContent>,
    ) -> (r: (ProjectDiff, Vec<NeededScene>))
        requires
            pieces_fit(texts(paths@), pieces@, old_contents@, new_contents@),
        ensures
            r.0.file_diffs.len() == compared(texts(paths@), old_contents@, new_contents@).len(),
            forall|d: int|
                0 <= d < r.0.file_diffs.len() ==> fits(
                    compared(texts(paths@), old_contents@, new_contents@)[d],
                    #[trigger] r.0.file_diffs@[d],
                ),
            forall|d: int|
                0 <= d < r.0.file_diffs.len() ==> retyped_diff(
                    pieces@[d],
                    #[trigger] r.0.file_diffs@[d],
                    piece_types(pieces@[d], old_contents@, new_contents@),
                ),
            needed_views(r.1@) == all_needs(pieces@, old_contents@, new_contents@),
    {
        let ghost all = pieces@;
        let n = pieces.len();
        let mut rest = reversed(pieces);
        let mut diffs: Vec<Diff> = Vec::new();
        let mut needed: Vec<NeededScene> = Vec::new();
        assert(all.take(0) == Seq::<Diff>::empty());
        assert(needed_views(needed@) == Seq::<(int, int, bool, Seq<char>)>::empty());
        while rest.len() > 0
            invariant
                diffs.len() + rest.len() == n,
                n == all.len(),
                rest@ == all.reverse().take(rest.len() as int),
                forall|i: int|
                    0 <= i < all.len() ==> at_hand(
                        #[trigger] all[i],
                        old_contents@,
                        new_contents@,
                    ),
                forall|d: int|
                    0 <= d < diffs.len() ==> retyped_diff(
                        all[d],
                        #[trigger] diffs@[d],
                        piece_types(all[d], old_contents@, new_contents@),
                    ),
                needed_views(needed@) == all_needs(
                    all.take(diffs.len() as int),
                    old_contents@,
                    new_contents@,
                ),
            decreases rest.len(),
        {
            let ghost i: int = diffs.len() as int;
            assert(all.take(i + 1).drop_last() == all.take(i));
            assert(all.take(i + 1).last() == all[i]);
            assert(rest@[rest.len() - 1] == all[i]);
            let piece = rest.pop();
            assert(piece == Some(all[i]));
            if let Some(diff) = piece {
                let ghost key = path_in(diff);
                let ghost before = needed@;
                assert(at_hand(all[i], old_contents@, new_contents@));
                match diff {
                    Diff::Scene(scene_diff) => {
                        let old_scene = match old_contents.get(scene_diff.path.as_str()) {
                            Some(FileContent::Scene(s)) => Some(s),
                            _ => None,
                        };
                        let new_scene = match new_contents.get(scene_diff.path.as_str()) {
                            Some(FileContent::Scene(s)) => Some(s),
                            _ => None,
                        };
                        let mut scene_diff = scene_diff;
                        let mut more = resolve_instances(
                            &mut scene_diff,
                            diffs.len(),
                            old_scene,
                            new_scene,
                            old_contents,
                            new_contents,
                        );
                        let ghost added = more@;
                        needed.append(&mut more);
                        assert(needed_views(needed@) == needed_views(before) + needed_views(added));
                        diffs.push(Diff::Scene(scene_diff));
                    },
                    other => {
                        diffs.push(other);
                        assert(nodes_of(other) == Seq::<NodeDiff>::empty());
                        assert(placed(
                            i,
                            needs_from(
                                nodes_of(other),
                                scene_at(old_contents@, key),
                                scene_at(new_contents@, key),
                                old_contents@,
                                new_contents@,
                            ),
                        ) == Seq::<(int, int, bool, Seq<char>)>::empty());
                        assert(all_needs(all.take(i + 1), old_contents@, new_contents@)
                            == all_needs(all.take(i), old_contents@, new_contents@));
                    },
                }
            }
        }
        assert(all.take(n as int) == all);
        assert forall|d: int| 0 <= d < diffs.len() implies fits(
            compared(texts(paths@), old_contents@, new_contents@)[d],
            #[trigger] diffs@[d],
        ) by {
            assert(retyped_diff(
                all[d],
                diffs@[d],
                piece_types(all[d], old_contents@, new_contents@),
            ));
            assert(fits(compared(texts(paths@), old_contents@, new_contents@)[d], all[d]));
        }
        (ProjectDiff { file_diffs: diffs }, needed)
    }

    /// The paths of the needed scenes: those needed as they are after the change, or before it.
    /// No path occurs twice.
    pub fn scenes_to_load(needed: &Vec<NeededScene>, is_new: bool) -> (r: Vec<String>)
        ensures
            forall|path: Seq<char>| #[trigger]
                texts(r@).contains(path) <==> exists|i: int|
                    0 <= i < needed.len() && (#[trigger] needed@[i]).is_new == is_new
                        && needed@[i].path@ == path,
            texts(r@).no_duplicates(),
    {
        let mut paths: Vec<String> = Vec::new();
        let mut i: usize = 0;
        while i < needed.len()
            invariant
                i <= needed.len(),
                forall|path: Seq<char>| #[trigger]
                    texts(paths@).contains(path) <==> exists|j: int|
                        0 <= j < i && (#[trigger] needed@[j]).is_new == is_new
                            && needed@[j].path@ == path,
                texts(paths@).no_duplicates(),
            decreases needed.len() - i,
        {
            if needed[i].is_new == is_new && !list_has(&paths, needed[i].path.as_str()) {
                let ghost before = texts(paths@);
                let ghost key = needed@[i as int].path@;
                paths.push(needed[i].path.clone());
                proof {
                    let after = texts(paths@);
                    assert(after == before.push(key));
                    assert forall|path: Seq<char>| #[trigger] after.contains(path) <==> (
                    before.contains(path) || path == key) by {
                        if before.contains(path) {
                            let k = choose|k: int| 0 <= k < before.len() && before[k] == path;
                            assert(after[k] == path);
                        }
                        if path == key {
                            assert(after[before.len() as int] == path);
                        }
                    }
                }
            }
            i = i + 1;
        }
        paths
    }

    /// Sets the types of the nodes that instance a scene which had to be loaded, where it could
    /// be loaded. `old_needed` has scenes as they were before the change, and `new_needed` as they are
    /// after it. Nothing but those types changes.
    pub fn finish_diff(
        diff: &mut ProjectDiff,
        needed: &Vec<NeededScene>,
        old_needed: &Table<FileContent>,
        new_needed: &Table<FileContent>,
    )
        ensures
            final(diff).file_diffs.len() == old(diff).file_diffs.len(),
            forall|d: int|
                0 <= d < final(diff).file_diffs.len() ==> fits(
                    (path_in(old(diff).file_diffs@[d]), kind_in(old(diff).file_diffs@[d])),
                    #[trigger] final(diff).file_diffs@[d],
                ),
            forall|d: int|
                0 <= d < final(diff).file_diffs.len() ==> retyped_diff(
                    old(diff).file_diffs@[d],
                    #[trigger] final(diff).file_diffs@[d],
                    types_with(
                        types_in(old(diff).file_diffs@),
                        needed_views(needed@),
                        old_needed@,
                        new_needed@,
                    )[d],
                ),
    {
        let ghost diffs = diff.file_diffs@;
        let ghost views = needed_views(needed@);
        let ghost start = types_in(diffs);
        let mut i: usize = 0;
        assert(views.take(0) == Seq::<(int, int, bool, Seq<char>)>::empty());
        assert forall|d: int| 0 <= d < diffs.len() implies retyped_diff(
            diffs[d],
            #[trigger] diffs[d],
            start[d],
        ) by {
            assert(start[d] == nodes_of(diffs[d]).map_values(|n: NodeDiff| n.node_type));
        }
        while i < needed.len()
            invariant
                i <= needed.len(),
                views == needed_views(needed@),
                start == types_in(diffs),
                diff.file_diffs.len() == diffs.len(),
                types_with(start, views.take(i as int), old_needed@, new_needed@).len()
                    == diffs.len(),
                forall|d: int|
                    0 <= d < diffs.len() ==> retyped_diff(
                        diffs[d],
                        #[trigger] diff.file_diffs@[d],
                        types_with(start, views.take(i as int), old_needed@, new_needed@)[d],
                    ),
            decreases needed.len() - i,
        {
            let ghost types = types_with(start, views.take(i as int), old_needed@, new_needed@);
            let ghost current = diff.file_diffs@;
            let need = &needed[i];
            assert(views.take(i + 1).drop_last() == views.take(i as int));
            assert(views.take(i + 1).last() == views[i as int]);
            let contents = if need.is_new {
                new_needed
            } else {
                old_needed
            };
            if let Some(FileContent::Scene(scene)) = contents.get(need.path.as_str()) {
                if need.diff < diff.file_diffs.len() {
                    let d = need.diff;
                    assert(retyped_diff(diffs[d as int], current[d as int], types[d as int]));
                    if let Diff::Scene(scene_diff) = &mut diff.file_diffs[d] {
                        if need.node < scene_diff.changed_nodes.len() {
                            scene_diff.changed_nodes[need.node].node_type =
                            scene.get_root_node_type();
                        }
                    }
                }
            }
            i = i + 1;
        }
        assert(views.take(views.len() as int) == views);
    }
}

/// How a file is compared follows from what it holds before and after the change alone: a file that
/// is a scene or text resource on either side is compared as one, the later side deciding which; a
/// file with binary data on either side, and a scene on neither, as binary data; a file with text on
/// either side, and neither of the others, as text. Only a file that holds none of these on either
/// side is passed over, so a file that was added is compared where one that was removed is.
pub proof fn contents_say_how_a_file_is_compared(
    old: Option<FileContent>,
    new: Option<FileContent>,
)
    ensures
        kind_of(old, new) == DiffKind::Unknown <==> !(old matches Some(FileContent::Scene(_)))
            && !(new matches Some(FileContent::Scene(_))) && !(old matches Some(
            FileContent::Binary(_),
        )) && !(new matches Some(FileContent::Binary(_))) && !(old matches Some(
            FileContent::String(_),
        )) && !(new matches Some(FileContent::String(_))),
        kind_of(old, new) == DiffKind::Text <==> !(old matches Some(FileContent::Scene(_)))
            && !(new matches Some(FileContent::Scene(_))) && !(old matches Some(
            FileContent::Binary(_),
        )) && !(new matches Some(FileContent::Binary(_))) && ((old matches Some(
            FileContent::String(_),
        )) || (new matches Some(FileContent::String(_)))),
        kind_of(old, new) == DiffKind::Binary <==> !(old matches Some(FileContent::Scene(_)))
            && !(new matches Some(FileContent::Scene(_))) && ((old matches Some(
            FileContent::Binary(_),
        )) || (new matches Some(FileContent::Binary(_)))),
        new matches Some(FileContent::Scene(s)) ==> kind_of(old, new) == (if s.resource_type@
            == "PackedScene"@ {
            DiffKind::Scene
        } else {
            DiffKind::TextResource
        }),
        !(new matches Some(FileContent::Scene(_))) ==> (old matches Some(FileContent::Scene(s))
            ==> kind_of(old, new) == (if s.resource_type@ == "PackedScene"@ {
            DiffKind::Scene
        } else {
            DiffKind::TextResource
        })),
        kind_of(old, new) == DiffKind::Unknown <==> kind_of(new, old) == DiffKind::Unknown,
        kind_of(old, new) == DiffKind::Text <==> kind_of(new, old) == DiffKind::Text,
        kind_of(old, new) == DiffKind::Binary <==> kind_of(new, old) == DiffKind::Binary,
{
}

/// A diff that fits its plan is of the planned file, and of the variant that its kind asks for.
pub proof fn a_fitting_diff_is_of_its_file(plan: (Seq<char>, DiffKind), diff: Diff)
    requires
        fits(plan, diff),
    ensures
        match diff {
            Diff::Scene(d) => d.path@ == plan.0 && plan.1 == DiffKind::Scene,
            Diff::TextResourceDiff(d) => d.path@ == plan.0 && plan.1 == DiffKind::TextResource,
            Diff::BinaryResource(d) => d.path@ == plan.0 && plan.1 == DiffKind::Binary,
            Diff::Text(d) => d.path@ == plan.0 && plan.1 == DiffKind::Text,
        },
{
}

/// The files in the diff come in the order of the changed files, none of them twice.
pub proof fn files_are_compared_in_order(
    paths: Seq<Seq<char>>,
    old_contents: Seq<(Seq<char>, FileContent)>,
    new_contents: Seq<(Seq<char>, FileContent)>,
)
    ensures
        compared(paths, old_contents, new_contents).map_values(|c: (Seq<char>, DiffKind)| c.0)
            == paths.filter(
            |p: Seq<char>|
                kind_of(value_at(old_contents, p), value_at(new_contents, p)) != DiffKind::Unknown,
        ),
    decreases paths.len(),
{
    reveal(Seq::filter);
    let first = |c: (Seq<char>, DiffKind)| c.0;
    if paths.len() > 0 {
        files_are_compared_in_order(paths.drop_last(), old_contents, new_contents);
        let before = compared(paths.drop_last(), old_contents, new_contents);
        let path = paths.last();
        let kind = kind_of(value_at(old_contents, path), value_at(new_contents, path));
        assert(before.push((path, kind)).map_values(first) =~= before.map_values(first).push(path));
    } else {
        assert(compared(paths, old_contents, new_contents).map_values(first) =~= Seq::empty());
    }
}

/// Setting the types of nodes changes nothing else: every node keeps its place, its path, how it
/// changed and its changed properties, and a diff of another kind stays as it is.
pub proof fn only_types_are_set(
    before: Diff,
    after: Diff,
    types: Seq<Option<TypeOrInstance>>,
    i: int,
)
    requires
        retyped_diff(before, after, types),
    ensures
        !(before is Scene) ==> after == before,
        before is Scene ==> after is Scene && after->Scene_0.path == before->Scene_0.path
            && after->Scene_0.change_type == before->Scene_0.change_type
            && after->Scene_0.changed_nodes.len() == before->Scene_0.changed_nodes.len(),
        before is Scene && 0 <= i < before->Scene_0.changed_nodes.len() ==> {
            let b = before->Scene_0.changed_nodes@[i];
            let a = after->Scene_0.changed_nodes@[i];
            a.node_path == b.node_path && a.change_type == b.change_type && a.changed_properties
                == b.changed_properties && a.node_type == types[i]
        },
{
    if before is Scene && 0 <= i < before->Scene_0.changed_nodes.len() {
        let a = after->Scene_0.changed_nodes@[i];
        assert(a == (NodeDiff { node_type: types[i], ..before->Scene_0.changed_nodes@[i] }));
    }
}

/// The type that a changed node ends up with before anything is loaded. A node that is no instance
/// keeps its type. An instance takes the type of the root of the instanced scene: as it was before
/// the change for a node that is gone, else as it is after it. Where that scene is not at hand the
/// node keeps its type, and the scene is needed, from the same side.
pub proof fn nodes_take_the_type_of_the_instanced_scene(
    nodes: Seq<NodeDiff>,
    old_scene: GodotScene,
    new_scene: GodotScene,
    old_contents: Seq<(Seq<char>, FileContent)>,
    new_contents: Seq<(Seq<char>, FileContent)>,
    i: int,
)
    requires
        0 <= i < nodes.len(),
    ensures
        ({
            let types = resolved_types(
                nodes,
                Some(old_scene),
                Some(new_scene),
                old_contents,
                new_contents,
            );
            let needs = needs_from(
                nodes,
                Some(old_scene),
                Some(new_scene),
                old_contents,
                new_contents,
            );
            match nodes[i].node_type {
                Some(TypeOrInstance::Instance(id)) => {
                    let is_new = nodes[i].change_type != ChangeType::Deleted;
                    let resources = if is_new {
                        new_scene.ext_resources@
                    } else {
                        old_scene.ext_resources@
                    };
                    let contents = if is_new {
                        new_contents
                    } else {
                        old_contents
                    };
                    match ext_path(resources, id@) {
                        Some(path) => match value_at(contents, path@) {
                            Some(FileContent::Scene(s)) => types[i] == s.root_node_type && forall|
                                n: bool,
                                p: Seq<char>,
                            |
                                !needs.contains((i, n, p)),
                            _ => types[i] == nodes[i].node_type && needs.contains(
                                (i, is_new, path@),
                            ) && forall|n: bool, p: Seq<char>|
                                #[trigger] needs.contains((i, n, p)) ==> n == is_new && p == path@,
                        },
                        None => types[i] == nodes[i].node_type && forall|n: bool, p: Seq<char>|
                            !needs.contains((i, n, p)),
                    }
                },
                _ => types[i] == nodes[i].node_type && forall|n: bool, p: Seq<char>|
                    !needs.contains((i, n, p)),
            }
        }),
{
    assert forall|n: bool, p: Seq<char>| #[trigger]
        needs_from(
            nodes,
            Some(old_scene),
            Some(new_scene),
            old_contents,
            new_contents,
        ).contains((i, n, p)) <==> node_needs(
        nodes[i],
        Some(old_scene),
        Some(new_scene),
        old_contents,
        new_contents,
        n,
        p,
    ) by {
        lemma_needs(
            nodes,
            Some(old_scene),
            Some(new_scene),
            old_contents,
            new_contents,
            nodes.len() as int,
            i,
            n,
            p,
        );
        assert(nodes.take(nodes.len() as int) == nodes);
    }
}

/// The node needs the scene at a path, from the given side.
spec fn node_needs(
    node: NodeDiff,
    old_scene: Option<GodotScene>,
    new_scene: Option<GodotScene>,
    old_contents: Seq<(Seq<char>, FileContent)>,
    new_contents: Seq<(Seq<char>, FileContent)>,
    is_new: bool,
    path: Seq<char>,
) -> bool {
    node_outcome(node, old_scene, new_scene, old_contents, new_contents) matches NodeOutcome::Need(
        n,
        p,
    ) && n == is_new && p@ == path
}

proof fn lemma_needs(
    nodes: Seq<NodeDiff>,
    old_scene: Option<GodotScene>,
    new_scene: Option<GodotScene>,
    old_contents: Seq<(Seq<char>, FileContent)>,
    new_contents: Seq<(Seq<char>, FileContent)>,
    n: int,
    i: int,
    is_new: bool,
    path: Seq<char>,
)
    requires
        0 <= n <= nodes.len(),
        0 <= i < nodes.len(),
    ensures
        needs_from(nodes.take(n), old_scene, new_scene, old_contents, new_contents).contains(
            (i, is_new, path),
        ) <==> i < n && node_needs(
            nodes[i],
            old_scene,
            new_scene,
            old_contents,
            new_contents,
            is_new,
            path,
        ),
    decreases n,
{
    if n > 0 {
        lemma_needs(
            nodes,
            old_scene,
            new_scene,
            old_contents,
            new_contents,
            n - 1,
            i,
            is_new,
            path,
        );
        assert(nodes.take(n).drop_last() == nodes.take(n - 1));
        let before = needs_from(
            nodes.take(n - 1),
            old_scene,
            new_scene,
            old_contents,
            new_contents,
        );
        let x = (i, is_new, path);
        match node_outcome(nodes[n - 1], old_scene, new_scene, old_contents, new_contents) {
            NodeOutcome::Need(b, p) => {
                let t = before.push((n - 1, b, p@));
                if before.contains(x) {
                    let k = choose|k: int| 0 <= k < before.len() && before[k] == x;
                    assert(t[k] == x);
                }
                if (n - 1, b, p@) == x {
                    assert(t[before.len() as int] == x);
                }
                if t.contains(x) {
                    let k = choose|k: int| 0 <= k < t.len() && t[k] == x;
                    if k < before.len() {
                        assert(before[k] == x);
                    }
                }
            },
            _ => {},
        }
    } else {
        assert(nodes.take(0).len() == 0);
    }
}

/// The scenes that a project diff needs are those of its parts, each with the place of its part.
pub proof fn needs_are_those_of_the_parts(
    pieces: Seq<Diff>,
    more: Diff,
    old_contents: Seq<(Seq<char>, FileContent)>,
    new_contents: Seq<(Seq<char>, FileContent)>,
)
    ensures
        all_needs(Seq::empty(), old_contents, new_contents).len() == 0,
        !(more is Scene) ==> all_needs(pieces.push(more), old_contents, new_contents) == all_needs(
            pieces,
            old_contents,
            new_contents,
        ),
        more matches Diff::Scene(d) ==> {
            let all = all_needs(pieces.push(more), old_contents, new_contents);
            let before = all_needs(pieces, old_contents, new_contents);
            let own = needs_from(
                d.changed_nodes@,
                scene_in(value_at(old_contents, d.path@)),
                scene_in(value_at(new_contents, d.path@)),
                old_contents,
                new_contents,
            );
            &&& all.len() == before.len() + own.len()
            &&& all.take(before.len() as int) == before
            &&& forall|k: int|
                0 <= k < own.len() ==> #[trigger] all[before.len() + k] == (
                    pieces.len() as int,
                    own[k].0,
                    own[k].1,
                    own[k].2,
                )
        },
{
    let all = pieces.push(more);
    assert(all.drop_last() == pieces);
    assert(all.last() == more);
    if !(more is Scene) {
        assert(nodes_of(more) == Seq::<NodeDiff>::empty());
        assert(all_needs(all, old_contents, new_contents) == all_needs(
            pieces,
            old_contents,
            new_contents,
        ));
    } else {
        let before = all_needs(pieces, old_contents, new_contents);
        assert(all_needs(all, old_contents, new_contents).take(before.len() as int) == before);
    }
}

/// Of the changed files exactly those are in the diff that can be compared, each compared as its
/// contents say.
pub proof fn comparable_files_are_compared(
    paths: Seq<Seq<char>>,
    old_contents: Seq<(Seq<char>, FileContent)>,
    new_contents: Seq<(Seq<char>, FileContent)>,
    path: Seq<char>,
    kind: DiffKind,
)
    ensures
        compared(paths, old_contents, new_contents).contains((path, kind)) <==> paths.contains(path)
            && kind != DiffKind::Unknown && kind == kind_of(
            value_at(old_contents, path),
            value_at(new_contents, path),
        ),
    decreases paths.len(),
{
    if paths.len() > 0 {
        let rest = paths.drop_last();
        let before = compared(rest, old_contents, new_contents);
        let after = compared(paths, old_contents, new_contents);
        comparable_files_are_compared(rest, old_contents, new_contents, path, kind);
        assert(paths == rest.push(paths.last()));
        assert(paths.contains(path) <==> rest.contains(path) || path == paths.last()) by {
            if rest.contains(path) {
                let i = choose|i: int| 0 <= i < rest.len() && rest[i] == path;
                assert(paths[i] == path);
            }
            assert(paths[rest.len() as int] == paths.last());
        }
        if before.contains((path, kind)) {
            let i = choose|i: int| 0 <= i < before.len() && before[i] == (path, kind);
            assert(after[i] == (path, kind));
        }
        if path == paths.last() && after.len() > before.len() {
            assert(after[before.len() as int].0 == path);
        }
    }
}

/// One more scene that had to be loaded sets the type of one node, the one that needed it, and
/// leaves all others; one that could not be loaded sets none.
pub proof fn a_loaded_scene_sets_one_type(
    types: Seq<Seq<Option<TypeOrInstance>>>,
    needed: Seq<(int, int, bool, Seq<char>)>,
    need: (int, int, bool, Seq<char>),
    old_needed: Seq<(Seq<char>, FileContent)>,
    new_needed: Seq<(Seq<char>, FileContent)>,
    d: int,
    k: int,
)
    requires
        0 <= d < types_with(types, needed, old_needed, new_needed).len(),
        0 <= k < types_with(types, needed, old_needed, new_needed)[d].len(),
    ensures
        types_with(types, Seq::empty(), old_needed, new_needed) == types,
        ({
            let before = types_with(types, needed, old_needed, new_needed);
            let after = types_with(types, needed.push(need), old_needed, new_needed);
            let found = value_at(
                if need.2 {
                    new_needed
                } else {
                    old_needed
                },
                need.3,
            );
            &&& after.len() == before.len()
            &&& after[d].len() == before[d].len()
            &&& (d, k) != (need.0, need.1) ==> after[d][k] == before[d][k]
            &&& (d, k) == (need.0, need.1) ==> after[d][k] == (match found {
                Some(FileContent::Scene(scene)) => scene.root_node_type,
                _ => before[d][k],
            })
        }),
{
    assert(needed.push(need).drop_last() == needed);
    assert(needed.push(need).last() == need);
}

/// A node that is still there takes its type from the instanced scene as it is after the change, and
/// a node that is gone from the scene as it was before.
pub proof fn instances_take_the_type_of_their_side(
    types: Seq<Seq<Option<TypeOrInstance>>>,
    diff: int,
    node: int,
    is_new: bool,
    path: Seq<char>,
    old_needed: Seq<(Seq<char>, FileContent)>,
    new_needed: Seq<(Seq<char>, FileContent)>,
)
    requires
        0 <= diff < types.len(),
        0 <= node < types[diff].len(),
    ensures
        types_with(types, seq![(diff, node, is_new, path)], old_needed, new_needed)[diff][node] == (
        match scene_at(
            if is_new {
                new_needed
            } else {
                old_needed
            },
            path,
        ) {
            Some(scene) => scene.root_node_type,
            None => types[diff][node],
        }),
{
    let needed = seq![(diff, node, is_new, path)];
    assert(needed.drop_last() == Seq::<(int, int, bool, Seq<char>)>::empty());
    reveal_with_fuel(types_with, 2);
}


/// The scene of an instance is looked for on the side on which the node is: a node that is gone needs
/// the old scene, any other the new one, and a node that is no instance needs none.
pub proof fn instances_need_the_scene_of_their_side(
    nodes: Seq<NodeDiff>,
    old_scene: Option<GodotScene>,
    new_scene: Option<GodotScene>,
    i: int,
)
    requires
        0 <= i < nodes.len(),
    ensures
        old_scene is Some && new_scene is Some ==> scenes_at_hand(nodes, old_scene, new_scene),
        (forall|j: int|
            0 <= j < nodes.len() ==> !((#[trigger] nodes[j]).node_type matches Some(
                TypeOrInstance::Instance(_),
            ))) ==> scenes_at_hand(nodes, old_scene, new_scene),
        (nodes[i].node_type matches Some(TypeOrInstance::Instance(_))) && nodes[i].change_type
            == ChangeType::Deleted && old_scene is None ==> !scenes_at_hand(
            nodes,
            old_scene,
            new_scene,
        ),
        (nodes[i].node_type matches Some(TypeOrInstance::Instance(_))) && nodes[i].change_type
            != ChangeType::Deleted && new_scene is None ==> !scenes_at_hand(
            nodes,
            old_scene,
            new_scene,
        ),
        (forall|j: int|
            0 <= j < nodes.len() ==> (#[trigger] nodes[j]).change_type == ChangeType::Deleted)
            && old_scene is Some ==> scenes_at_hand(nodes, old_scene, new_scene),
        (forall|j: int|
            0 <= j < nodes.len() ==> (#[trigger] nodes[j]).change_type != ChangeType::Deleted)
            && new_scene is Some ==> scenes_at_hand(nodes, old_scene, new_scene),
{
}

/// Diffs fit a comparison where there is one for each file that is compared, and each fits its file
/// and has its scenes at hand: one that does not, or one too many or too few, spoils all.
pub proof fn every_diff_has_to_fit(
    paths: Seq<Seq<char>>,
    pieces: Seq<Diff>,
    old_contents: Seq<(Seq<char>, FileContent)>,
    new_contents: Seq<(Seq<char>, FileContent)>,
    i: int,
)
    ensures
        pieces.len() != compared(paths, old_contents, new_contents).len() ==> !pieces_fit(
            paths,
            pieces,
            old_contents,
            new_contents,
        ),
        0 <= i < pieces.len() && !fits(compared(paths, old_contents, new_contents)[i], pieces[i])
            ==> !pieces_fit(paths, pieces, old_contents, new_contents),
        0 <= i < pieces.len() && !scenes_at_hand(
            nodes_of(pieces[i]),
            scene_at(old_contents, path_in(pieces[i])),
            scene_at(new_contents, path_in(pieces[i])),
        ) ==> !pieces_fit(paths, pieces, old_contents, new_contents),
        compared(paths, old_contents, new_contents).len() == 0 && pieces.len() == 0
            ==> pieces_fit(paths, pieces, old_contents, new_contents),
        pieces.len() == compared(paths, old_contents, new_contents).len() && (forall|j: int|
            0 <= j < pieces.len() ==> fits(
                compared(paths, old_contents, new_contents)[j],
                #[trigger] pieces[j],
            ) && at_hand(pieces[j], old_contents, new_contents)) ==> pieces_fit(
            paths,
            pieces,
            old_contents,
            new_contents,
        ),
{
    if 0 <= i < pieces.len() {
        assert(at_hand(pieces[i], old_contents, new_contents) == scenes_at_hand(
            nodes_of(pieces[i]),
            scene_at(old_contents, path_in(pieces[i])),
            scene_at(new_contents, path_in(pieces[i])),
        ));
    }
}

} // verus!
