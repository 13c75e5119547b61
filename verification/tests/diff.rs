use backstitch::content::{FileContent, GodotScene, TypeOrInstance};
use backstitch::diff::{
    diff_kind, resolve_instances, BinaryResourceDiff, Diff, DiffKind, Differ, NodeDiff,
    ProjectDiff, PropertyDiff, SceneDiff, SubResourceDiff, TextDiff, TextDiffHunk, TextDiffLine,
    TextResourceDiff, VariantValue,
};
use backstitch::fs_traversal::ChangeType;
use backstitch::godot_values::GodotValue;
use backstitch::history::{ChangeHash, DocumentId, Heads, HistoryRef};
use backstitch::table::Table;
use backstitch::variants::{
    change_label, diff_path, quoted_reference, shown_value,
    str_to_var_safe, wanted_default, LoadRequest, Shown,
};

fn scene(resource_type: &str, ext: &[(&str, &str)], root: &str) -> GodotScene {
    GodotScene {
        resource_type: resource_type.to_string(),
        script_class: None,
        uid: String::new(),
        ext_resources: ext.iter().map(|e| (e.0.to_string(), e.1.to_string())).collect(),
        root_node_type: Some(TypeOrInstance::Type(root.to_string())),
        serialized: String::new(),
    }
}

fn text(t: &str) -> FileContent {
    FileContent::String(t.to_string())
}

fn node(change_type: ChangeType, node_type: TypeOrInstance) -> NodeDiff {
    NodeDiff {
        change_type,
        node_path: "A".to_string(),
        node_type: Some(node_type),
        changed_properties: Vec::new(),
    }
}

fn instance(id: &str) -> TypeOrInstance {
    TypeOrInstance::Instance(id.to_string())
}

fn scene_diff(nodes: Vec<NodeDiff>) -> SceneDiff {
    SceneDiff { path: "res://a.tscn".to_string(), change_type: ChangeType::Modified, changed_nodes: nodes }
}

fn type_of(node: &NodeDiff) -> String {
    match &node.node_type {
        Some(TypeOrInstance::Type(t)) => t.clone(),
        Some(TypeOrInstance::Instance(id)) => format!("instance {id}"),
        None => "none".to_string(),
    }
}

fn field<'a>(value: &'a GodotValue, key: &str) -> &'a GodotValue {
    let GodotValue::Dictionary(entries) = value else { panic!() };
    &entries.iter().find(|e| e.0 == key).unwrap().1
}

fn text_in(value: &GodotValue, key: &str) -> String {
    let GodotValue::Text(t) = field(value, key) else { panic!() };
    t.clone()
}

fn at(n: u8) -> HistoryRef {
    HistoryRef {
        branch: DocumentId { bytes: [1; 16] },
        heads: Heads::from_vec(vec![ChangeHash { bytes: [n; 32] }]),
    }
}

#[test]
fn files_are_compared_by_what_they_hold() {
    let packed = FileContent::Scene(scene("PackedScene", &[], "Node"));
    let theme = FileContent::Scene(scene("Theme", &[], "Node"));
    let binary = FileContent::Binary(vec![1]);
    let plain = text("x");
    assert_eq!(diff_kind(None, Some(&packed)), DiffKind::Scene);
    assert_eq!(diff_kind(Some(&packed), None), DiffKind::Scene);
    assert_eq!(diff_kind(Some(&packed), Some(&theme)), DiffKind::TextResource);
    assert_eq!(diff_kind(Some(&theme), Some(&binary)), DiffKind::TextResource);
    assert_eq!(diff_kind(Some(&plain), Some(&binary)), DiffKind::Binary);
    assert_eq!(diff_kind(Some(&plain), None), DiffKind::Text);
    assert_eq!(diff_kind(Some(&FileContent::Deleted), None), DiffKind::Unknown);
    assert_eq!(diff_kind(None, None), DiffKind::Unknown);
}

#[test]
fn instanced_nodes_get_the_type_of_the_scene() {
    let new_scene = scene("PackedScene", &[("1", "res://b.tscn"), ("2", "res://c.tscn")], "Node");
    let old_scene = scene("PackedScene", &[("1", "res://d.tscn")], "Node");
    let mut new_contents = Table::new();
    new_contents.insert("res://b.tscn".to_string(), FileContent::Scene(scene("PackedScene", &[], "Node3D")));
    let mut old_contents = Table::new();
    old_contents.insert("res://d.tscn".to_string(), FileContent::Scene(scene("PackedScene", &[], "Control")));
    let mut diff = scene_diff(vec![
        node(ChangeType::Created, instance("1")),
        node(ChangeType::Modified, instance("2")),
        node(ChangeType::Deleted, instance("1")),
        node(ChangeType::Modified, instance("3")),
        node(ChangeType::Modified, TypeOrInstance::Type("Button".to_string())),
    ]);
    let needed =
        resolve_instances(&mut diff, 4, Some(&old_scene), Some(&new_scene), &old_contents, &new_contents);
    let types: Vec<String> = diff.changed_nodes.iter().map(type_of).collect();
    assert_eq!(types, ["Node3D", "instance 2", "Control", "instance 3", "Button"]);
    assert_eq!(needed.len(), 1);
    assert_eq!((needed[0].diff, needed[0].node, needed[0].is_new), (4, 1, true));
    assert_eq!(needed[0].path, "res://c.tscn");
}

#[test]
fn a_project_diff_is_put_together() {
    let path = "res://a.tscn".to_string();
    let mut new_contents = Table::new();
    new_contents.insert(
        path.clone(),
        FileContent::Scene(scene("PackedScene", &[("1", "res://b.tscn")], "Node")),
    );
    let mut old_contents = Table::new();
    old_contents.insert("res://t.txt".to_string(), FileContent::String("a".to_string()));
    let paths = vec!["res://odd".to_string(), "res://t.txt".to_string(), path.clone()];
    assert_eq!(
        Differ::files_with_kinds(&paths, &old_contents, &new_contents),
        vec![("res://t.txt".to_string(), DiffKind::Text), (path.clone(), DiffKind::Scene)]
    );
    let text = || Diff::Text(TextDiff {
        path: "res://t.txt".to_string(),
        change_type: ChangeType::Modified,
        diff_hunks: Vec::new(),
    });
    let instances = || Diff::Scene(scene_diff(vec![
        node(ChangeType::Created, instance("1")),
        node(ChangeType::Modified, instance("1")),
    ]));
    let fit = |pieces: &Vec<Diff>| Differ::pieces_fit(&paths, pieces, &old_contents, &new_contents);
    assert!(!fit(&vec![text()]));
    assert!(!fit(&vec![instances(), text()]));
    assert!(!fit(&vec![text(), text()]));
    assert!(!fit(&vec![text(), Diff::Scene(scene_diff(vec![node(ChangeType::Deleted, instance("1"))]))]));
    let pieces = vec![text(), instances()];
    assert!(fit(&pieces));
    let (mut diff, needed) = Differ::get_diff(&paths, pieces, &old_contents, &new_contents);
    assert_eq!(diff.file_diffs.len(), 2);
    assert_eq!(diff_path(&diff.file_diffs[0]), "res://t.txt");
    assert_eq!(needed.len(), 2);
    assert!(needed.iter().all(|n| n.diff == 1 && n.is_new));
    assert_eq!(Differ::scenes_to_load(&needed, true), vec!["res://b.tscn".to_string()]);
    assert!(Differ::scenes_to_load(&needed, false).is_empty());

    let mut found = Table::new();
    found.insert("res://b.tscn".to_string(), FileContent::Scene(scene("PackedScene", &[], "Sprite2D")));
    Differ::finish_diff(&mut diff, &needed, &Table::new(), &found);
    let Diff::Scene(scene) = &diff.file_diffs[1] else { panic!() };
    assert_eq!(type_of(&scene.changed_nodes[0]), "Sprite2D");
    assert_eq!(type_of(&scene.changed_nodes[1]), "Sprite2D");
}

#[test]
fn nodes_take_the_type_of_their_side() {
    let path = "res://a.tscn".to_string();
    let with_instance = || FileContent::Scene(scene("PackedScene", &[("1", "res://b.tscn")], "Node"));
    let mut old_contents = Table::new();
    old_contents.insert(path.clone(), with_instance());
    let mut new_contents = Table::new();
    new_contents.insert(path.clone(), with_instance());
    let pieces = vec![Diff::Scene(scene_diff(vec![
        node(ChangeType::Created, instance("1")),
        node(ChangeType::Modified, instance("1")),
        node(ChangeType::Deleted, instance("1")),
    ]))];
    let paths = vec![path];
    assert!(Differ::pieces_fit(&paths, &pieces, &old_contents, &new_contents));
    let (mut diff, needed) = Differ::get_diff(&paths, pieces, &old_contents, &new_contents);
    assert_eq!(needed.len(), 3);
    let b = |root: &str| {
        let mut table = Table::new();
        table.insert("res://b.tscn".to_string(), FileContent::Scene(scene("PackedScene", &[], root)));
        table
    };
    Differ::finish_diff(&mut diff, &needed, &b("Before"), &b("After"));
    let Diff::Scene(scene) = &diff.file_diffs[0] else { panic!() };
    assert_eq!(type_of(&scene.changed_nodes[0]), "After");
    assert_eq!(type_of(&scene.changed_nodes[1]), "After");
    assert_eq!(type_of(&scene.changed_nodes[2]), "Before");
}

#[test]
fn an_empty_project_diff_stays_empty() {
    let (diff, needed) = Differ::get_diff(&Vec::new(), Vec::new(), &Table::new(), &Table::new());
    assert!(diff.file_diffs.is_empty() && needed.is_empty());
    assert!(ProjectDiff::default().file_diffs.is_empty());
}

#[test]
fn only_changed_files_are_compared() {
    let mut changes = Table::new();
    changes.insert("a".to_string(), ChangeType::Modified);
    changes.insert("b".to_string(), ChangeType::Created);
    assert_eq!(
        Differ::files_to_diff(&at(1), &at(2), Some(&changes)),
        Some(vec!["a".to_string(), "b".to_string()])
    );
    assert_eq!(Differ::files_to_diff(&at(1), &at(1), Some(&changes)), None);
    assert_eq!(Differ::files_to_diff(&at(1), &at(2), None), None);
    assert_eq!(Differ::files_to_diff(&at(1), &at(2), Some(&Table::new())), None);
}

#[test]
fn references_to_resources_are_quoted() {
    assert_eq!(quoted_reference(r#"ExtResource("1")"#), r#""ExtResource(\"1\")""#);
    assert_eq!(str_to_var_safe(r#"[ExtResource("1"), 2]"#), r#"["ExtResource(\"1\")", 2]"#);
    assert_eq!(
        str_to_var_safe(r#"{"a": SubResource("x"), "b": Resource("y")}"#),
        r#"{"a": "SubResource(\"x\")", "b": "Resource(\"y\")"}"#
    );
    assert_eq!(str_to_var_safe("Vector2(1, 2)"), "Vector2(1, 2)");
    assert_eq!(str_to_var_safe(r#"Array[ExtResource("1")]([ExtResource("1")])"#), "Array");
    assert_eq!(str_to_var_safe("Array[int]([1])"), "Array[int]([1])");
    assert_eq!(str_to_var_safe("Array[Resource(1"), "");
    assert_eq!(str_to_var_safe("aResource(1)bResource(2)"), "a\"Resource(1)\"b\"Resource(2)\"");
}

#[test]
fn values_are_shown() {
    let s = |t: &str| t.to_string();
    let button = || Some(TypeOrInstance::Type("Button".to_string()));
    assert!(matches!(shown_value(&VariantValue::Variant(s("Resource(1)")), ""), Shown::Parsed(t) if t == "\"Resource(1)\""));
    let value = VariantValue::DefaultValue(button(), s("text"));
    assert_eq!(wanted_default(&value), Some((&s("Button"), &s("text"))));
    assert!(matches!(shown_value(&value, ""), Shown::Plain(t) if t == "<default_value>"));
    assert!(matches!(shown_value(&value, "1"), Shown::Parsed(t) if t == "1"));
    let value = VariantValue::DefaultValue(Some(instance("1")), s("text"));
    assert_eq!(wanted_default(&value), None);
    assert!(matches!(shown_value(&value, "1"), Shown::Plain(t) if t == "<default_value>"));
    assert!(matches!(
        shown_value(&VariantValue::LazyLoadData(s("res://a"), s("history://a")), ""),
        Shown::Lazy(load, own) if load == "history://a" && own == "res://a"
    ));
    assert!(matches!(shown_value(&VariantValue::Script(s("res://s.gd")), ""), Shown::Plain(t) if t == "<Script: res://s.gd>"));
    assert_eq!(change_label(ChangeType::Created), "added");
    assert_eq!(change_label(ChangeType::Modified), "modified");
    assert_eq!(change_label(ChangeType::Deleted), "removed");
}

#[test]
fn resources_load_or_say_why_not() {
    let s = |t: &str| t.to_string();
    assert_eq!(Differ::start_load_ext_resource(LoadRequest::Started(s("p"))), Ok(s("p")));
    assert_eq!(Differ::start_load_ext_resource(LoadRequest::BadPath), Err(s("Invalid history ref path")));
    assert_eq!(
        Differ::start_load_ext_resource(LoadRequest::Refused(s("BUSY"))),
        Err(s("load_threaded_request failed (BUSY)"))
    );
    let content = FileContent::Binary(vec![1]);
    let diff = Differ::get_binary_resource_diff(
        "res://a.res",
        ChangeType::Modified,
        Some(&content),
        None,
        Err(s("x")),
        Ok(s("p")),
    );
    assert_eq!(diff.path, "res://a.res");
    assert!(matches!(diff.old_resource, Some(VariantValue::Variant(t)) if t == "\"<ExtResource res://a.res load failed (x)>\""));
    assert!(diff.new_resource.is_none());
    assert!(matches!(
        Differ::get_resource("res://a.res", Some(&content), Ok(s("p"))),
        Some(VariantValue::LazyLoadData(own, load)) if own == "res://a.res" && load == "p"
    ));
}

#[test]
fn diffs_become_dictionaries() {
    let node_diff = NodeDiff {
        change_type: ChangeType::Modified,
        node_path: "A".to_string(),
        node_type: None,
        changed_properties: vec![PropertyDiff {
            name: "text".to_string(),
            change_type: ChangeType::Created,
            old_value: None,
            new_value: Some(VariantValue::Variant("1".to_string())),
        }],
    };
    let hunk = TextDiffHunk {
        new_start: 1,
        old_start: 2,
        new_lines: 3,
        old_lines: 4,
        diff_lines: vec![TextDiffLine {
            new_line_no: 5,
            old_line_no: -1,
            content: "c".to_string(),
            status: "+".to_string(),
        }],
    };
    let text_diff = |hunks: Vec<TextDiffHunk>| {
        Diff::Text(TextDiff {
            path: "res://t.txt".to_string(),
            change_type: ChangeType::Deleted,
            diff_hunks: hunks,
        })
    };
    let diff = ProjectDiff {
        file_diffs: vec![
            text_diff(Vec::new()),
            Diff::Scene(scene_diff(vec![node_diff])),
            text_diff(vec![hunk]),
        ],
    };
    let GodotValue::Dictionary(files) = diff.to_godot() else { panic!() };
    // The later diff of the same file takes the place of the earlier one.
    assert_eq!(files.len(), 2);
    assert_eq!(files[0].0, "res://t.txt");
    let hunks = field(field(&files[0].1, "text_diff"), "diff_hunks");
    let GodotValue::List(hunks) = hunks else { panic!() };
    assert!(matches!(field(&hunks[0], "old_lines"), GodotValue::Number(4)));
    let GodotValue::List(lines) = field(&hunks[0], "diff_lines") else { panic!() };
    assert!(matches!(field(&lines[0], "old_line_no"), GodotValue::Number(-1)));
    assert_eq!(text_in(&lines[0], "status"), "+");
    assert_eq!(text_in(&files[0].1, "change_type"), "removed");
    assert_eq!(text_in(&files[0].1, "diff_type"), "text_changed");
    assert_eq!(text_in(field(&files[0].1, "text_diff"), "old_file"), "res://t.txt");
    assert_eq!(text_in(&files[1].1, "diff_type"), "scene_changed");
    let GodotValue::List(nodes) = field(&files[1].1, "changed_nodes") else { panic!() };
    assert_eq!(text_in(&nodes[0], "node_path"), "A");
    assert!(matches!(field(&nodes[0], "type"), GodotValue::NodeType(None)));
    let property = field(field(&nodes[0], "changed_props"), "text");
    assert!(matches!(field(property, "old_value"), GodotValue::Nil));
    assert!(matches!(field(property, "new_value"), GodotValue::Value(VariantValue::Variant(t)) if t == "1"));
}

#[test]
fn resource_diffs_become_dictionaries() {
    let part = |id: &str| SubResourceDiff {
        change_type: ChangeType::Created,
        sub_resource_id: id.to_string(),
        resource_type: "Style".to_string(),
        script_class: None,
        changed_properties: Vec::new(),
    };
    let diff = TextResourceDiff {
        path: "res://a.tres".to_string(),
        change_type: ChangeType::Modified,
        resource_type: "Theme".to_string(),
        changed_sub_resources: vec![part("1")],
        changed_main_resource: Some(part("main")),
    };
    let value = diff.to_godot();
    assert_eq!(text_in(&value, "resource_type"), "Theme");
    assert_eq!(text_in(&value, "diff_type"), "text_resource_changed");
    assert_eq!(text_in(field(&value, "changed_main_resource"), "sub_resource_id"), "main");
    let GodotValue::List(parts) = field(&value, "changed_sub_resources") else { panic!() };
    assert!(matches!(field(&parts[0], "script_class"), GodotValue::Nil));
    let binary = BinaryResourceDiff::new(
        "res://a.res".to_string(),
        ChangeType::Created,
        None,
        Some(VariantValue::Script("res://s.gd".to_string())),
    );
    let value = binary.to_godot();
    assert_eq!(text_in(&value, "diff_type"), "resource_changed");
    assert!(matches!(field(&value, "old_resource"), GodotValue::Nil));
    assert!(matches!(field(&value, "new_resource"), GodotValue::Value(VariantValue::Script(_))));
}
