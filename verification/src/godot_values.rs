//! Diffs in the form in which Godot's scripts see them: dictionaries and lists.

use crate::content::TypeOrInstance;
use crate::diff::{
    BinaryResourceDiff, Diff, NodeDiff, ProjectDiff, PropertyDiff, SceneDiff, SubResourceDiff,
    TextDiff, TextDiffHunk, TextDiffLine, TextResourceDiff, VariantValue,
};
use crate::fs_traversal::ChangeType;
use crate::ordered::{lemma_place, lemma_put, place, put, value_at};
use crate::text::same_text;
use crate::variants::{change_label, change_word, diff_path, path_of};
use vstd::prelude::*;
use vstd::string::*;

verus! {

/// A value as Godot's scripts see it.
#[derive(Debug)]
pub enum GodotValue {
    Nil,
    Number(i64),
    Text(String),
    /// A value of a property, shown as `shown_value` says.
    Value(VariantValue),
    /// The type of a node, where it has one.
    NodeType(Option<TypeOrInstance>),
    List(Vec<GodotValue>),
    /// A dictionary, in the order in which its keys were put into it.
    Dictionary(Vec<(String, GodotValue)>),
}

/// What a value is.
pub enum Shape {
    Nil,
    Number(int),
    Text(Seq<char>),
    Value(VariantValue),
    NodeType(Option<TypeOrInstance>),
    List(Seq<Shape>),
    Dictionary(Seq<(Seq<char>, Shape)>),
}

/// What a value is.
pub open spec fn shape(value: GodotValue) -> Shape
    decreases value,
{
    match value {
        GodotValue::Nil => Shape::Nil,
        GodotValue::Number(n) => Shape::Number(n as int),
        GodotValue::Text(t) => Shape::Text(t@),
        GodotValue::Value(v) => Shape::Value(v),
        GodotValue::NodeType(t) => Shape::NodeType(t),
        GodotValue::List(items) => Shape::List(
            Seq::new(
                items@.len(),
                |i: int|
                    if 0 <= i < items@.len() {
                        shape(items@[i])
                    } else {
                        Shape::Nil
                    },
            ),
        ),
        GodotValue::Dictionary(entries) => Shape::Dictionary(
            Seq::new(
                entries@.len(),
                |i: int|
                    if 0 <= i < entries@.len() {
                        (entries@[i].0@, shape(entries@[i].1))
                    } else {
                        (Seq::empty(), Shape::Nil)
                    },
            ),
        ),
    }
}

/// What the values in a list are.
pub open spec fn shapes(list: Seq<GodotValue>) -> Seq<Shape> {
    list.map_values(|v: GodotValue| shape(v))
}

/// What the entries of a dictionary are.
pub open spec fn entry_shapes(entries: Seq<(String, GodotValue)>) -> Seq<(Seq<char>, Shape)> {
    entries.map_values(|e: (String, GodotValue)| (e.0@, shape(e.1)))
}

/// A list of the given values.
fn list(items: Vec<GodotValue>) -> (r: GodotValue)
    ensures
        shape(r) == Shape::List(shapes(items@)),
{
    let r = GodotValue::List(items);
    assert(shape(r)->List_0 =~= shapes(items@));
    r
}

/// A dictionary with the given entries.
fn dictionary(entries: Vec<(String, GodotValue)>) -> (r: GodotValue)
    ensures
        shape(r) == Shape::Dictionary(entry_shapes(entries@)),
{
    let r = GodotValue::Dictionary(entries);
    assert(shape(r)->Dictionary_0 =~= entry_shapes(entries@));
    r
}

/// A text.
fn text(t: &str) -> (r: GodotValue)
    ensures
        shape(r) == Shape::Text(t@),
{
    GodotValue::Text(t.to_owned())
}

/// An entry of a dictionary.
fn entry(key: &str, value: GodotValue) -> (r: (String, GodotValue))
    ensures
        r.0@ == key@,
        r.1 == value,
{
    (key.to_owned(), value)
}

/// Puts a value under a key of a dictionary.
fn set(entries: &mut Vec<(String, GodotValue)>, key: &str, value: GodotValue)
    ensures
        entry_shapes(final(entries)@) == put(entry_shapes(old(entries)@), key@, shape(value)),
{
    let ghost before = entry_shapes(entries@);
    let mut i: usize = 0;
    while i < entries.len() && !same_text(entries[i].0.as_str(), key)
        invariant
            i <= entries.len(),
            before == entry_shapes(entries@),
            forall|j: int| 0 <= j < i ==> (#[trigger] before[j]).0 != key@,
        decreases entries.len() - i,
    {
        assert(before[i as int].0 == entries@[i as int].0@);
        i = i + 1;
    }
    proof {
        lemma_place(before, key@);
        let at = place(before, key@);
        if i < entries.len() {
            assert(before[i as int].0 == key@);
        }
        if at < i {
            assert(before[at].0 != key@);
        }
        assert(at == i);
    }
    let ghost inner = entries@;
    let item = entry(key, value);
    if i < entries.len() {
        entries[i] = item;
        assert(entry_shapes(entries@) =~= before.update(i as int, (key@, shape(value))));
    } else {
        entries.push(item);
        assert(entry_shapes(entries@) =~= before.push((key@, shape(value))));
    }
}

impl VariantValue {
    /// A copy of the value.
    pub fn duplicate(&self) -> (r: VariantValue)
        ensures
            r == *self,
    {
        match self {
            VariantValue::Variant(t) => VariantValue::Variant(t.clone()),
            VariantValue::DefaultValue(class, property) => {
                let class = match class {
                    Some(c) => Some(c.duplicate()),
                    None => None,
                };
                VariantValue::DefaultValue(class, property.clone())
            },
            VariantValue::LazyLoadData(own, load) => VariantValue::LazyLoadData(
                own.clone(),
                load.clone(),
            ),
            VariantValue::Script(path) => VariantValue::Script(path.clone()),
        }
    }

    /// The value as Godot's scripts see it.
    pub fn to_godot(&self) -> (r: GodotValue)
        ensures
            shape(r) == Shape::Value(*self),
    {
        GodotValue::Value(self.duplicate())
    }
}

/// A value that may be absent.
pub open spec fn value_shape(value: Option<VariantValue>) -> Shape {
    match value {
        Some(v) => Shape::Value(v),
        None => Shape::Nil,
    }
}

fn value_or_nil(value: &Option<VariantValue>) -> (r: GodotValue)
    ensures
        shape(r) == value_shape(*value),
{
    match value {
        Some(v) => v.to_godot(),
        None => GodotValue::Nil,
    }
}

impl ChangeType {
    /// The word for the change.
    pub fn to_godot(&self) -> (r: GodotValue)
        ensures
            shape(r) == Shape::Text(change_word(*self)),
    {
        GodotValue::Text(change_label(*self))
    }
}

/// A line of a text diff.
pub open spec fn line_shape(diff: TextDiffLine) -> Shape {
    Shape::Dictionary(
        seq![
            ("new_line_no"@, Shape::Number(diff.new_line_no as int)),
            ("old_line_no"@, Shape::Number(diff.old_line_no as int)),
            ("content"@, Shape::Text(diff.content@)),
            ("status"@, Shape::Text(diff.status@)),
        ],
    )
}

impl TextDiffLine {
    /// A line of a text diff.
    pub fn to_godot(&self) -> (r: GodotValue)
        ensures
            shape(r) == line_shape(*self),
    {
        let entries = vec![
            entry("new_line_no", GodotValue::Number(self.new_line_no)),
            entry("old_line_no", GodotValue::Number(self.old_line_no)),
            entry("content", text(self.content.as_str())),
            entry("status", text(self.status.as_str())),
        ];
        assert(entry_shapes(entries@) =~= line_shape(*self)->Dictionary_0);
        dictionary(entries)
    }
}

/// The lines of a part of a text diff.
pub open spec fn lines_shape(list: Seq<TextDiffLine>) -> Shape {
    Shape::List(list.map_values(|d: TextDiffLine| line_shape(d)))
}

fn line_values(items: &Vec<TextDiffLine>) -> (r: GodotValue)
    ensures
        shape(r) == lines_shape(items@),
{
    let mut out: Vec<GodotValue> = Vec::new();
    let mut i: usize = 0;
    while i < items.len()
        invariant
            i <= items.len(),
            out.len() == i,
            forall|j: int| 0 <= j < i ==> shape(#[trigger] out@[j]) == line_shape(items@[j]),
        decreases items.len() - i,
    {
        out.push(items[i].to_godot());
        i = i + 1;
    }
    assert(shapes(out@) =~= lines_shape(items@)->List_0);
    list(out)
}

/// A part of a text diff.
pub open spec fn hunk_shape(diff: TextDiffHunk) -> Shape {
    Shape::Dictionary(
        seq![
            ("new_start"@, Shape::Number(diff.new_start as int)),
            ("old_start"@, Shape::Number(diff.old_start as int)),
            ("new_lines"@, Shape::Number(diff.new_lines as int)),
            ("old_lines"@, Shape::Number(diff.old_lines as int)),
            ("diff_lines"@, lines_shape(diff.diff_lines@)),
        ],
    )
}

impl TextDiffHunk {
    /// A part of a text diff.
    pub fn to_godot(&self) -> (r: GodotValue)
        ensures
            shape(r) == hunk_shape(*self),
    {
        let entries = vec![
            entry("new_start", GodotValue::Number(self.new_start)),
            entry("old_start", GodotValue::Number(self.old_start)),
            entry("new_lines", GodotValue::Number(self.new_lines)),
            entry("old_lines", GodotValue::Number(self.old_lines)),
            entry("diff_lines", line_values(&self.diff_lines)),
        ];
        assert(entry_shapes(entries@) =~= hunk_shape(*self)->Dictionary_0);
        dictionary(entries)
    }
}

/// The parts of a text diff.
pub open spec fn hunks_shape(list: Seq<TextDiffHunk>) -> Shape {
    Shape::List(list.map_values(|d: TextDiffHunk| hunk_shape(d)))
}

fn hunk_values(items: &Vec<TextDiffHunk>) -> (r: GodotValue)
    ensures
        shape(r) == hunks_shape(items@),
{
    let mut out: Vec<GodotValue> = Vec::new();
    let mut i: usize = 0;
    while i < items.len()
        invariant
            i <= items.len(),
            out.len() == i,
            forall|j: int| 0 <= j < i ==> shape(#[trigger] out@[j]) == hunk_shape(items@[j]),
        decreases items.len() - i,
    {
        out.push(items[i].to_godot());
        i = i + 1;
    }
    assert(shapes(out@) =~= hunks_shape(items@)->List_0);
    list(out)
}

/// The parts of a text diff, with the names of the file before and after, which are the same.
pub open spec fn changed_text_shape(diff: TextDiff) -> Shape {
    Shape::Dictionary(
        seq![
            ("new_file"@, Shape::Text(diff.path@)),
            ("old_file"@, Shape::Text(diff.path@)),
            ("diff_hunks"@, hunks_shape(diff.diff_hunks@)),
        ],
    )
}

fn changed_text(diff: &TextDiff) -> (r: GodotValue)
    ensures
        shape(r) == changed_text_shape(*diff),
{
    let entries = vec![
        entry("new_file", text(diff.path.as_str())),
        entry("old_file", text(diff.path.as_str())),
        entry("diff_hunks", hunk_values(&diff.diff_hunks)),
    ];
    assert(entry_shapes(entries@) =~= changed_text_shape(*diff)->Dictionary_0);
    dictionary(entries)
}

/// The diff of a text file.
pub open spec fn text_shape(diff: TextDiff) -> Shape {
    Shape::Dictionary(
        seq![
            ("path"@, Shape::Text(diff.path@)),
            ("diff_type"@, Shape::Text("text_changed"@)),
            ("change_type"@, Shape::Text(change_word(diff.change_type))),
            ("text_diff"@, changed_text_shape(diff)),
        ],
    )
}

impl TextDiff {
    /// The diff of a text file.
    pub fn to_godot(&self) -> (r: GodotValue)
        ensures
            shape(r) == text_shape(*self),
    {
        let entries = vec![
            entry("path", text(self.path.as_str())),
            entry("diff_type", text("text_changed")),
            entry("change_type", self.change_type.to_godot()),
            entry("text_diff", changed_text(self)),
        ];
        assert(entry_shapes(entries@) =~= text_shape(*self)->Dictionary_0);
        dictionary(entries)
    }
}

/// The diff of a property.
pub open spec fn property_shape(diff: PropertyDiff) -> Shape {
    Shape::Dictionary(
        seq![
            ("change_type"@, Shape::Text(change_word(diff.change_type))),
            ("name"@, Shape::Text(diff.name@)),
            ("new_value"@, value_shape(diff.new_value)),
            ("old_value"@, value_shape(diff.old_value)),
        ],
    )
}

impl PropertyDiff {
    /// The diff of a property.
    pub fn to_godot(&self) -> (r: GodotValue)
        ensures
            shape(r) == property_shape(*self),
    {
        let entries = vec![
            entry("change_type", self.change_type.to_godot()),
            entry("name", text(self.name.as_str())),
            entry("new_value", value_or_nil(&self.new_value)),
            entry("old_value", value_or_nil(&self.old_value)),
        ];
        assert(entry_shapes(entries@) =~= property_shape(*self)->Dictionary_0);
        dictionary(entries)
    }
}

/// The diffs of properties, by their names.
pub open spec fn property_entries(list: Seq<PropertyDiff>) -> Seq<(Seq<char>, Shape)>
    decreases list.len(),
{
    if list.len() == 0 {
        Seq::empty()
    } else {
        put(property_entries(list.drop_last()), list.last().name@, property_shape(list.last()))
    }
}

fn property_values(items: &Vec<PropertyDiff>) -> (r: GodotValue)
    ensures
        shape(r) == Shape::Dictionary(property_entries(items@)),
{
    let mut out: Vec<(String, GodotValue)> = Vec::new();
    let mut i: usize = 0;
    assert(items@.take(0) == Seq::<PropertyDiff>::empty());
    assert(entry_shapes(out@) == Seq::<(Seq<char>, Shape)>::empty());
    while i < items.len()
        invariant
            i <= items.len(),
            entry_shapes(out@) == property_entries(items@.take(i as int)),
        decreases items.len() - i,
    {
        assert(items@.take(i + 1).drop_last() == items@.take(i as int));
        assert(items@.take(i + 1).last() == items@[i as int]);
        set(&mut out, items[i].name.as_str(), items[i].to_godot());
        i = i + 1;
    }
    assert(items@.take(items@.len() as int) == items@);
    dictionary(out)
}

/// The diff of a node.
pub open spec fn node_shape(diff: NodeDiff) -> Shape {
    Shape::Dictionary(
        seq![
            ("change_type"@, Shape::Text(change_word(diff.change_type))),
            ("changed_props"@, Shape::Dictionary(property_entries(diff.changed_properties@))),
            ("node_path"@, Shape::Text(diff.node_path@)),
            ("type"@, Shape::NodeType(diff.node_type)),
        ],
    )
}

impl NodeDiff {
    /// The diff of a node.
    pub fn to_godot(&self) -> (r: GodotValue)
        ensures
            shape(r) == node_shape(*self),
    {
        let node_type = match &self.node_type {
            Some(t) => Some(t.duplicate()),
            None => None,
        };
        let entries = vec![
            entry("change_type", self.change_type.to_godot()),
            entry("changed_props", property_values(&self.changed_properties)),
            entry("node_path", text(self.node_path.as_str())),
            entry("type", GodotValue::NodeType(node_type)),
        ];
        assert(entry_shapes(entries@) =~= node_shape(*self)->Dictionary_0);
        dictionary(entries)
    }
}

/// The diffs of nodes.
pub open spec fn nodes_shape(list: Seq<NodeDiff>) -> Shape {
    Shape::List(list.map_values(|d: NodeDiff| node_shape(d)))
}

fn node_values(items: &Vec<NodeDiff>) -> (r: GodotValue)
    ensures
        shape(r) == nodes_shape(items@),
{
    let mut out: Vec<GodotValue> = Vec::new();
    let mut i: usize = 0;
    while i < items.len()
        invariant
            i <= items.len(),
            out.len() == i,
            forall|j: int| 0 <= j < i ==> shape(#[trigger] out@[j]) == node_shape(items@[j]),
        decreases items.len() - i,
    {
        out.push(items[i].to_godot());
        i = i + 1;
    }
    assert(shapes(out@) =~= nodes_shape(items@)->List_0);
    list(out)
}

/// The diff of a scene.
pub open spec fn scene_shape(diff: SceneDiff) -> Shape {
    Shape::Dictionary(
        seq![
            ("change_type"@, Shape::Text(change_word(diff.change_type))),
            ("changed_nodes"@, nodes_shape(diff.changed_nodes@)),
            ("diff_type"@, Shape::Text("scene_changed"@)),
        ],
    )
}

impl SceneDiff {
    /// The diff of a scene.
    pub fn to_godot(&self) -> (r: GodotValue)
        ensures
            shape(r) == scene_shape(*self),
    {
        let entries = vec![
            entry("change_type", self.change_type.to_godot()),
            entry("changed_nodes", node_values(&self.changed_nodes)),
            entry("diff_type", text("scene_changed")),
        ];
        assert(entry_shapes(entries@) =~= scene_shape(*self)->Dictionary_0);
        dictionary(entries)
    }
}

/// A text that may be absent.
pub open spec fn optional_shape(text: Option<String>) -> Shape {
    match text {
        Some(t) => Shape::Text(t@),
        None => Shape::Nil,
    }
}

fn text_or_nil(t: &Option<String>) -> (r: GodotValue)
    ensures
        shape(r) == optional_shape(*t),
{
    match t {
        Some(t) => text(t.as_str()),
        None => GodotValue::Nil,
    }
}

/// The diff of a resource inside another.
pub open spec fn sub_resource_shape(diff: SubResourceDiff) -> Shape {
    Shape::Dictionary(
        seq![
            ("change_type"@, Shape::Text(change_word(diff.change_type))),
            ("sub_resource_id"@, Shape::Text(diff.sub_resource_id@)),
            ("resource_type"@, Shape::Text(diff.resource_type@)),
            ("script_class"@, optional_shape(diff.script_class)),
            ("changed_props"@, Shape::Dictionary(property_entries(diff.changed_properties@))),
        ],
    )
}

impl SubResourceDiff {
    /// The diff of a resource inside another.
    pub fn to_godot(&self) -> (r: GodotValue)
        ensures
            shape(r) == sub_resource_shape(*self),
    {
        let entries = vec![
            entry("change_type", self.change_type.to_godot()),
            entry("sub_resource_id", text(self.sub_resource_id.as_str())),
            entry("resource_type", text(self.resource_type.as_str())),
            entry("script_class", text_or_nil(&self.script_class)),
            entry("changed_props", property_values(&self.changed_properties)),
        ];
        assert(entry_shapes(entries@) =~= sub_resource_shape(*self)->Dictionary_0);
        dictionary(entries)
    }
}

/// The diffs of resources inside another.
pub open spec fn sub_resources_shape(list: Seq<SubResourceDiff>) -> Shape {
    Shape::List(list.map_values(|d: SubResourceDiff| sub_resource_shape(d)))
}

fn sub_resource_values(items: &Vec<SubResourceDiff>) -> (r: GodotValue)
    ensures
        shape(r) == sub_resources_shape(items@),
{
    let mut out: Vec<GodotValue> = Vec::new();
    let mut i: usize = 0;
    while i < items.len()
        invariant
            i <= items.len(),
            out.len() == i,
            forall|j: int| 0 <= j < i ==> shape(#[trigger] out@[j])
                == sub_resource_shape(items@[j]),
        decreases items.len() - i,
    {
        out.push(items[i].to_godot());
        i = i + 1;
    }
    assert(shapes(out@) =~= sub_resources_shape(items@)->List_0);
    list(out)
}

/// The diff of the main resource of a file, where it changed.
pub open spec fn main_resource_shape(diff: Option<SubResourceDiff>) -> Shape {
    match diff {
        Some(d) => sub_resource_shape(d),
        None => Shape::Nil,
    }
}

fn main_resource(diff: &Option<SubResourceDiff>) -> (r: GodotValue)
    ensures
        shape(r) == main_resource_shape(*diff),
{
    match diff {
        Some(d) => d.to_godot(),
        None => GodotValue::Nil,
    }
}

/// The diff of a resource that is kept as text.
pub open spec fn text_resource_shape(diff: TextResourceDiff) -> Shape {
    Shape::Dictionary(
        seq![
            ("change_type"@, Shape::Text(change_word(diff.change_type))),
            ("resource_type"@, Shape::Text(diff.resource_type@)),
            ("changed_sub_resources"@, sub_resources_shape(diff.changed_sub_resources@)),
            ("changed_main_resource"@, main_resource_shape(diff.changed_main_resource)),
            ("diff_type"@, Shape::Text("text_resource_changed"@)),
        ],
    )
}

impl TextResourceDiff {
    /// The diff of a resource that is kept as text.
    pub fn to_godot(&self) -> (r: GodotValue)
        ensures
            shape(r) == text_resource_shape(*self),
    {
        let entries = vec![
            entry("change_type", self.change_type.to_godot()),
            entry("resource_type", text(self.resource_type.as_str())),
            entry("changed_sub_resources", sub_resource_values(&self.changed_sub_resources)),
            entry("changed_main_resource", main_resource(&self.changed_main_resource)),
            entry("diff_type", text("text_resource_changed")),
        ];
        assert(entry_shapes(entries@) =~= text_resource_shape(*self)->Dictionary_0);
        dictionary(entries)
    }
}

/// The diff of a resource that is kept as bytes.
pub open spec fn binary_resource_shape(diff: BinaryResourceDiff) -> Shape {
    Shape::Dictionary(
        seq![
            ("change_type"@, Shape::Text(change_word(diff.change_type))),
            ("new_resource"@, value_shape(diff.new_resource)),
            ("old_resource"@, value_shape(diff.old_resource)),
            ("diff_type"@, Shape::Text("resource_changed"@)),
        ],
    )
}

impl BinaryResourceDiff {
    /// The diff of a resource that is kept as bytes.
    pub fn to_godot(&self) -> (r: GodotValue)
        ensures
            shape(r) == binary_resource_shape(*self),
    {
        let entries = vec![
            entry("change_type", self.change_type.to_godot()),
            entry("new_resource", value_or_nil(&self.new_resource)),
            entry("old_resource", value_or_nil(&self.old_resource)),
            entry("diff_type", text("resource_changed")),
        ];
        assert(entry_shapes(entries@) =~= binary_resource_shape(*self)->Dictionary_0);
        dictionary(entries)
    }
}

/// The diff of a file.
pub open spec fn diff_shape(diff: Diff) -> Shape {
    match diff {
        Diff::Scene(d) => scene_shape(d),
        Diff::TextResourceDiff(d) => text_resource_shape(d),
        Diff::BinaryResource(d) => binary_resource_shape(d),
        Diff::Text(d) => text_shape(d),
    }
}

impl Diff {
    /// The diff of a file.
    pub fn to_godot(&self) -> (r: GodotValue)
        ensures
            shape(r) == diff_shape(*self),
    {
        match self {
            Diff::Scene(d) => d.to_godot(),
            Diff::TextResourceDiff(d) => d.to_godot(),
            Diff::BinaryResource(d) => d.to_godot(),
            Diff::Text(d) => d.to_godot(),
        }
    }
}

/// The diffs of files, by their paths.
pub open spec fn file_entries(diffs: Seq<Diff>) -> Seq<(Seq<char>, Shape)>
    decreases diffs.len(),
{
    if diffs.len() == 0 {
        Seq::empty()
    } else {
        put(file_entries(diffs.drop_last()), path_of(diffs.last())@, diff_shape(diffs.last()))
    }
}

impl ProjectDiff {
    /// The diffs of all changed files, by their paths.
    pub fn to_godot(&self) -> (r: GodotValue)
        ensures
            shape(r) == Shape::Dictionary(file_entries(self.file_diffs@)),
    {
        let mut out: Vec<(String, GodotValue)> = Vec::new();
        let ghost all = self.file_diffs@;
        let mut i: usize = 0;
        assert(all.take(0) == Seq::<Diff>::empty());
        assert(entry_shapes(out@) == Seq::<(Seq<char>, Shape)>::empty());
        while i < self.file_diffs.len()
            invariant
                i <= self.file_diffs.len(),
                all == self.file_diffs@,
                entry_shapes(out@) == file_entries(all.take(i as int)),
            decreases self.file_diffs.len() - i,
        {
            assert(all.take(i + 1).drop_last() == all.take(i as int));
            assert(all.take(i + 1).last() == all[i as int]);
            let diff = &self.file_diffs[i];
            set(&mut out, diff_path(diff).as_str(), diff.to_godot());
            i = i + 1;
        }
        assert(all.take(all.len() as int) == all);
        dictionary(out)
    }
}

/// Every changed file is found under its path; where several diffs have the same path, the last of
/// them is.
pub proof fn files_are_found_by_path(diffs: Seq<Diff>, i: int)
    requires
        0 <= i < diffs.len(),
        forall|j: int| i < j < diffs.len() ==> path_of(#[trigger] diffs[j])@ != path_of(diffs[i])@,
    ensures
        value_at(file_entries(diffs), path_of(diffs[i])@) == Some(diff_shape(diffs[i])),
    decreases diffs.len(),
{
    let front = diffs.drop_last();
    lemma_put(file_entries(front), path_of(diffs.last())@, diff_shape(diffs.last()));
    if i < front.len() {
        assert(front[i] == diffs[i]);
        assert forall|j: int| i < j < front.len() implies path_of(#[trigger] front[j])@ != path_of(
            front[i],
        )@ by {
            assert(front[j] == diffs[j]);
        }
        files_are_found_by_path(front, i);
        assert(diffs[diffs.len() - 1] == diffs.last());
    }
}

/// The dictionary has the value under the key.
pub open spec fn shows(shown: Shape, key: Seq<char>, value: Shape) -> bool {
    shown matches Shape::Dictionary(entries) && value_at(entries, key) == Some(value)
}

proof fn lemma_shows(entries: Seq<(Seq<char>, Shape)>, i: int)
    requires
        0 <= i < entries.len(),
        forall|j: int| 0 <= j < i ==> (#[trigger] entries[j]).0 != entries[i].0,
    ensures
        value_at(entries, entries[i].0) == Some(entries[i].1),
{
    lemma_place(entries, entries[i].0);
    let at = place(entries, entries[i].0);
    if at < i {
        assert(entries[at].0 != entries[i].0);
    } else if i < at {
        assert(entries[i].0 != entries[i].0);
    }
}

/// A line of a text diff is shown with its numbers on both sides, its text and how it changed.
pub proof fn a_line_is_shown(diff: TextDiffLine)
    ensures
        shows(line_shape(diff), "new_line_no"@, Shape::Number(diff.new_line_no as int)),
        shows(line_shape(diff), "old_line_no"@, Shape::Number(diff.old_line_no as int)),
        shows(line_shape(diff), "content"@, Shape::Text(diff.content@)),
        shows(line_shape(diff), "status"@, Shape::Text(diff.status@)),
{
    let entries = line_shape(diff)->Dictionary_0;
    reveal_strlit("new_line_no");
    reveal_strlit("old_line_no");
    reveal_strlit("content");
    reveal_strlit("status");
    assert("new_line_no"@.len() == 11 && "new_line_no"@[0] == 'n' && "new_line_no"@[9] == 'n');
    assert("old_line_no"@.len() == 11 && "old_line_no"@[0] == 'o' && "old_line_no"@[9] == 'n');
    assert("content"@.len() == 7 && "content"@[0] == 'c' && "content"@[5] == 'n');
    assert("status"@.len() == 6 && "status"@[0] == 's' && "status"@[4] == 'u');
    assert(entries[0].0 == "new_line_no"@);
    lemma_shows(entries, 0);
    assert(entries[1].0 == "old_line_no"@);
    lemma_shows(entries, 1);
    assert(entries[2].0 == "content"@);
    lemma_shows(entries, 2);
    assert(entries[3].0 == "status"@);
    lemma_shows(entries, 3);
}

/// A part of a text diff is shown with where it lies on both sides, and its lines.
pub proof fn a_part_is_shown(diff: TextDiffHunk)
    ensures
        shows(hunk_shape(diff), "new_start"@, Shape::Number(diff.new_start as int)),
        shows(hunk_shape(diff), "old_start"@, Shape::Number(diff.old_start as int)),
        shows(hunk_shape(diff), "new_lines"@, Shape::Number(diff.new_lines as int)),
        shows(hunk_shape(diff), "old_lines"@, Shape::Number(diff.old_lines as int)),
        shows(hunk_shape(diff), "diff_lines"@, lines_shape(diff.diff_lines@)),
{
    let entries = hunk_shape(diff)->Dictionary_0;
    reveal_strlit("new_start");
    reveal_strlit("old_start");
    reveal_strlit("new_lines");
    reveal_strlit("old_lines");
    reveal_strlit("diff_lines");
    assert("new_start"@.len() == 9 && "new_start"@[0] == 'n' && "new_start"@[7] == 'r');
    assert("old_start"@.len() == 9 && "old_start"@[0] == 'o' && "old_start"@[7] == 'r');
    assert("new_lines"@.len() == 9 && "new_lines"@[0] == 'n' && "new_lines"@[7] == 'e');
    assert("old_lines"@.len() == 9 && "old_lines"@[0] == 'o' && "old_lines"@[7] == 'e');
    assert("diff_lines"@.len() == 10 && "diff_lines"@[0] == 'd' && "diff_lines"@[8] == 'e');
    assert(entries[0].0 == "new_start"@);
    lemma_shows(entries, 0);
    assert(entries[1].0 == "old_start"@);
    lemma_shows(entries, 1);
    assert(entries[2].0 == "new_lines"@);
    lemma_shows(entries, 2);
    assert(entries[3].0 == "old_lines"@);
    lemma_shows(entries, 3);
    assert(entries[4].0 == "diff_lines"@);
    lemma_shows(entries, 4);
}

/// The change of a text file is shown with the file, which has the same name on both sides, and
/// its parts.
pub proof fn a_changed_text_is_shown(diff: TextDiff)
    ensures
        shows(changed_text_shape(diff), "new_file"@, Shape::Text(diff.path@)),
        shows(changed_text_shape(diff), "old_file"@, Shape::Text(diff.path@)),
        shows(changed_text_shape(diff), "diff_hunks"@, hunks_shape(diff.diff_hunks@)),
{
    let entries = changed_text_shape(diff)->Dictionary_0;
    reveal_strlit("new_file");
    reveal_strlit("old_file");
    reveal_strlit("diff_hunks");
    assert("new_file"@.len() == 8 && "new_file"@[0] == 'n' && "new_file"@[6] == 'l');
    assert("old_file"@.len() == 8 && "old_file"@[0] == 'o' && "old_file"@[6] == 'l');
    assert("diff_hunks"@.len() == 10 && "diff_hunks"@[0] == 'd' && "diff_hunks"@[8] == 'k');
    assert(entries[0].0 == "new_file"@);
    lemma_shows(entries, 0);
    assert(entries[1].0 == "old_file"@);
    lemma_shows(entries, 1);
    assert(entries[2].0 == "diff_hunks"@);
    lemma_shows(entries, 2);
}

/// The diff of a text file is shown as such, with the file, how it changed, and its text.
pub proof fn a_text_file_is_shown(diff: TextDiff)
    ensures
        shows(text_shape(diff), "path"@, Shape::Text(diff.path@)),
        shows(text_shape(diff), "diff_type"@, Shape::Text("text_changed"@)),
        shows(text_shape(diff), "change_type"@, Shape::Text(change_word(diff.change_type))),
        shows(text_shape(diff), "text_diff"@, changed_text_shape(diff)),
{
    let entries = text_shape(diff)->Dictionary_0;
    reveal_strlit("path");
    reveal_strlit("diff_type");
    reveal_strlit("change_type");
    reveal_strlit("text_diff");
    assert("path"@.len() == 4 && "path"@[0] == 'p' && "path"@[2] == 't');
    assert("diff_type"@.len() == 9 && "diff_type"@[0] == 'd' && "diff_type"@[7] == 'p');
    assert("change_type"@.len() == 11 && "change_type"@[0] == 'c' && "change_type"@[9] == 'p');
    assert("text_diff"@.len() == 9 && "text_diff"@[0] == 't' && "text_diff"@[7] == 'f');
    assert(entries[0].0 == "path"@);
    lemma_shows(entries, 0);
    assert(entries[1].0 == "diff_type"@);
    lemma_shows(entries, 1);
    assert(entries[2].0 == "change_type"@);
    lemma_shows(entries, 2);
    assert(entries[3].0 == "text_diff"@);
    lemma_shows(entries, 3);
}

/// The diff of a property is shown with its name and its values before and after.
pub proof fn a_property_is_shown(diff: PropertyDiff)
    ensures
        shows(property_shape(diff), "change_type"@, Shape::Text(change_word(diff.change_type))),
        shows(property_shape(diff), "name"@, Shape::Text(diff.name@)),
        shows(property_shape(diff), "new_value"@, value_shape(diff.new_value)),
        shows(property_shape(diff), "old_value"@, value_shape(diff.old_value)),
{
    let entries = property_shape(diff)->Dictionary_0;
    reveal_strlit("change_type");
    reveal_strlit("name");
    reveal_strlit("new_value");
    reveal_strlit("old_value");
    assert("change_type"@.len() == 11 && "change_type"@[0] == 'c' && "change_type"@[9] == 'p');
    assert("name"@.len() == 4 && "name"@[0] == 'n' && "name"@[2] == 'm');
    assert("new_value"@.len() == 9 && "new_value"@[0] == 'n' && "new_value"@[7] == 'u');
    assert("old_value"@.len() == 9 && "old_value"@[0] == 'o' && "old_value"@[7] == 'u');
    assert(entries[0].0 == "change_type"@);
    lemma_shows(entries, 0);
    assert(entries[1].0 == "name"@);
    lemma_shows(entries, 1);
    assert(entries[2].0 == "new_value"@);
    lemma_shows(entries, 2);
    assert(entries[3].0 == "old_value"@);
    lemma_shows(entries, 3);
}

/// The diff of a node is shown with its path, its type and its properties.
pub proof fn a_node_is_shown(diff: NodeDiff)
    ensures
        shows(node_shape(diff), "change_type"@, Shape::Text(change_word(diff.change_type))),
        shows(node_shape(diff), "changed_props"@,
            Shape::Dictionary(property_entries(diff.changed_properties@))),
        shows(node_shape(diff), "node_path"@, Shape::Text(diff.node_path@)),
        shows(node_shape(diff), "type"@, Shape::NodeType(diff.node_type)),
{
    let entries = node_shape(diff)->Dictionary_0;
    reveal_strlit("change_type");
    reveal_strlit("changed_props");
    reveal_strlit("node_path");
    reveal_strlit("type");
    assert("change_type"@.len() == 11 && "change_type"@[0] == 'c' && "change_type"@[9] == 'p');
    assert("changed_props"@.len() == 13 && "changed_props"@[0] == 'c' && "changed_props"@[11]
        == 'p');
    assert("node_path"@.len() == 9 && "node_path"@[0] == 'n' && "node_path"@[7] == 't');
    assert("type"@.len() == 4 && "type"@[0] == 't' && "type"@[2] == 'p');
    assert(entries[0].0 == "change_type"@);
    lemma_shows(entries, 0);
    assert(entries[1].0 == "changed_props"@);
    lemma_shows(entries, 1);
    assert(entries[2].0 == "node_path"@);
    lemma_shows(entries, 2);
    assert(entries[3].0 == "type"@);
    lemma_shows(entries, 3);
}

/// The diff of a scene is shown as such, with its nodes.
pub proof fn a_scene_is_shown(diff: SceneDiff)
    ensures
        shows(scene_shape(diff), "change_type"@, Shape::Text(change_word(diff.change_type))),
        shows(scene_shape(diff), "changed_nodes"@, nodes_shape(diff.changed_nodes@)),
        shows(scene_shape(diff), "diff_type"@, Shape::Text("scene_changed"@)),
{
    let entries = scene_shape(diff)->Dictionary_0;
    reveal_strlit("change_type");
    reveal_strlit("changed_nodes");
    reveal_strlit("diff_type");
    assert("change_type"@.len() == 11 && "change_type"@[0] == 'c' && "change_type"@[9] == 'p');
    assert("changed_nodes"@.len() == 13 && "changed_nodes"@[0] == 'c' && "changed_nodes"@[11]
        == 'e');
    assert("diff_type"@.len() == 9 && "diff_type"@[0] == 'd' && "diff_type"@[7] == 'p');
    assert(entries[0].0 == "change_type"@);
    lemma_shows(entries, 0);
    assert(entries[1].0 == "changed_nodes"@);
    lemma_shows(entries, 1);
    assert(entries[2].0 == "diff_type"@);
    lemma_shows(entries, 2);
}

/// The diff of a resource inside another is shown with its id, its type, its class and its
/// properties.
pub proof fn a_sub_resource_is_shown(diff: SubResourceDiff)
    ensures
        shows(sub_resource_shape(diff), "change_type"@, Shape::Text(change_word(diff.change_type))),
        shows(sub_resource_shape(diff), "sub_resource_id"@, Shape::Text(diff.sub_resource_id@)),
        shows(sub_resource_shape(diff), "resource_type"@, Shape::Text(diff.resource_type@)),
        shows(sub_resource_shape(diff), "script_class"@, optional_shape(diff.script_class)),
        shows(sub_resource_shape(diff), "changed_props"@,
            Shape::Dictionary(property_entries(diff.changed_properties@))),
{
    let entries = sub_resource_shape(diff)->Dictionary_0;
    reveal_strlit("change_type");
    reveal_strlit("sub_resource_id");
    reveal_strlit("resource_type");
    reveal_strlit("script_class");
    reveal_strlit("changed_props");
    assert("change_type"@.len() == 11 && "change_type"@[0] == 'c' && "change_type"@[9] == 'p');
    assert("sub_resource_id"@.len() == 15 && "sub_resource_id"@[0] == 's'
        && "sub_resource_id"@[13] == 'i');
    assert("resource_type"@.len() == 13 && "resource_type"@[0] == 'r' && "resource_type"@[11]
        == 'p');
    assert("script_class"@.len() == 12 && "script_class"@[0] == 's' && "script_class"@[10] == 's');
    assert("changed_props"@.len() == 13 && "changed_props"@[0] == 'c' && "changed_props"@[11]
        == 'p');
    assert(entries[0].0 == "change_type"@);
    lemma_shows(entries, 0);
    assert(entries[1].0 == "sub_resource_id"@);
    lemma_shows(entries, 1);
    assert(entries[2].0 == "resource_type"@);
    lemma_shows(entries, 2);
    assert(entries[3].0 == "script_class"@);
    lemma_shows(entries, 3);
    assert(entries[4].0 == "changed_props"@);
    lemma_shows(entries, 4);
}

/// The diff of a text resource is shown as such, with its type and the resources in it.
pub proof fn a_text_resource_is_shown(diff: TextResourceDiff)
    ensures
        shows(text_resource_shape(diff), "change_type"@,
            Shape::Text(change_word(diff.change_type))),
        shows(text_resource_shape(diff), "resource_type"@, Shape::Text(diff.resource_type@)),
        shows(text_resource_shape(diff), "changed_sub_resources"@,
            sub_resources_shape(diff.changed_sub_resources@)),
        shows(text_resource_shape(diff), "changed_main_resource"@,
            main_resource_shape(diff.changed_main_resource)),
        shows(text_resource_shape(diff), "diff_type"@, Shape::Text("text_resource_changed"@)),
{
    let entries = text_resource_shape(diff)->Dictionary_0;
    reveal_strlit("change_type");
    reveal_strlit("resource_type");
    reveal_strlit("changed_sub_resources");
    reveal_strlit("changed_main_resource");
    reveal_strlit("diff_type");
    assert("change_type"@.len() == 11 && "change_type"@[0] == 'c' && "change_type"@[9] == 'p');
    assert("resource_type"@.len() == 13 && "resource_type"@[0] == 'r' && "resource_type"@[11]
        == 'p');
    assert("changed_sub_resources"@.len() == 21 && "changed_sub_resources"@[0] == 'c'
        && "changed_sub_resources"@[19] == 'e');
    assert("changed_main_resource"@.len() == 21 && "changed_main_resource"@[0] == 'c'
        && "changed_main_resource"@[19] == 'c');
    assert("diff_type"@.len() == 9 && "diff_type"@[0] == 'd' && "diff_type"@[7] == 'p');
    assert(entries[0].0 == "change_type"@);
    lemma_shows(entries, 0);
    assert(entries[1].0 == "resource_type"@);
    lemma_shows(entries, 1);
    assert(entries[2].0 == "changed_sub_resources"@);
    lemma_shows(entries, 2);
    assert(entries[3].0 == "changed_main_resource"@);
    lemma_shows(entries, 3);
    assert(entries[4].0 == "diff_type"@);
    lemma_shows(entries, 4);
}

/// The diff of a binary resource is shown as such, with the resource before and after.
pub proof fn a_binary_resource_is_shown(diff: BinaryResourceDiff)
    ensures
        shows(binary_resource_shape(diff), "change_type"@,
            Shape::Text(change_word(diff.change_type))),
        shows(binary_resource_shape(diff), "new_resource"@, value_shape(diff.new_resource)),
        shows(binary_resource_shape(diff), "old_resource"@, value_shape(diff.old_resource)),
        shows(binary_resource_shape(diff), "diff_type"@, Shape::Text("resource_changed"@)),
{
    let entries = binary_resource_shape(diff)->Dictionary_0;
    reveal_strlit("change_type");
    reveal_strlit("new_resource");
    reveal_strlit("old_resource");
    reveal_strlit("diff_type");
    assert("change_type"@.len() == 11 && "change_type"@[0] == 'c' && "change_type"@[9] == 'p');
    assert("new_resource"@.len() == 12 && "new_resource"@[0] == 'n' && "new_resource"@[10] == 'c');
    assert("old_resource"@.len() == 12 && "old_resource"@[0] == 'o' && "old_resource"@[10] == 'c');
    assert("diff_type"@.len() == 9 && "diff_type"@[0] == 'd' && "diff_type"@[7] == 'p');
    assert(entries[0].0 == "change_type"@);
    lemma_shows(entries, 0);
    assert(entries[1].0 == "new_resource"@);
    lemma_shows(entries, 1);
    assert(entries[2].0 == "old_resource"@);
    lemma_shows(entries, 2);
    assert(entries[3].0 == "diff_type"@);
    lemma_shows(entries, 3);
}

/// Lists of diffs are shown item by item, in order.
pub proof fn lists_are_shown_in_order(
    lines: Seq<TextDiffLine>,
    hunks: Seq<TextDiffHunk>,
    nodes: Seq<NodeDiff>,
    resources: Seq<SubResourceDiff>,
    i: int,
)
    ensures
        lines_shape(lines)->List_0.len() == lines.len(),
        0 <= i < lines.len() ==> lines_shape(lines)->List_0[i] == line_shape(lines[i]),
        hunks_shape(hunks)->List_0.len() == hunks.len(),
        0 <= i < hunks.len() ==> hunks_shape(hunks)->List_0[i] == hunk_shape(hunks[i]),
        nodes_shape(nodes)->List_0.len() == nodes.len(),
        0 <= i < nodes.len() ==> nodes_shape(nodes)->List_0[i] == node_shape(nodes[i]),
        sub_resources_shape(resources)->List_0.len() == resources.len(),
        0 <= i < resources.len() ==> sub_resources_shape(resources)->List_0[i]
            == sub_resource_shape(resources[i]),
{
}

/// What is absent is shown as nothing, and what is there as it is.
pub proof fn absent_values_are_nil(
    value: Option<VariantValue>,
    text: Option<String>,
    main: Option<SubResourceDiff>,
)
    ensures
        value matches Some(v) ==> value_shape(value) == Shape::Value(v),
        value is None ==> value_shape(value) == Shape::Nil,
        text matches Some(t) ==> optional_shape(text) == Shape::Text(t@),
        text is None ==> optional_shape(text) == Shape::Nil,
        main matches Some(d) ==> main_resource_shape(main) == sub_resource_shape(d),
        main is None ==> main_resource_shape(main) == Shape::Nil,
{
}

/// A diff is shown as what it is of.
pub proof fn diffs_are_shown_by_their_kind(diff: Diff)
    ensures
        match diff {
            Diff::Scene(d) => diff_shape(diff) == scene_shape(d),
            Diff::TextResourceDiff(d) => diff_shape(diff) == text_resource_shape(d),
            Diff::BinaryResource(d) => diff_shape(diff) == binary_resource_shape(d),
            Diff::Text(d) => diff_shape(diff) == text_shape(d),
        },
{
}

/// Every changed property is found under its name; where several have the same name, the last of
/// them is.
pub proof fn properties_are_found_by_name(list: Seq<PropertyDiff>, i: int)
    requires
        0 <= i < list.len(),
        forall|j: int| i < j < list.len() ==> (#[trigger] list[j]).name@ != list[i].name@,
    ensures
        value_at(property_entries(list), list[i].name@) == Some(property_shape(list[i])),
    decreases list.len(),
{
    let front = list.drop_last();
    lemma_put(property_entries(front), list.last().name@, property_shape(list.last()));
    if i < front.len() {
        assert(front[i] == list[i]);
        assert forall|j: int| i < j < front.len() implies (#[trigger] front[j]).name@
            != front[i].name@ by {
            assert(front[j] == list[j]);
        }
        properties_are_found_by_name(front, i);
        assert(list[list.len() - 1] == list.last());
    }
}

} // verus!
