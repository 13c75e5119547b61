use backstitch::accessors::{
    BackstitchConfigAccessor, BackstitchEditorAccessor, CloseAction, EditorFilesystemAccessor,
    ScanStep, SCAN_TIMEOUT,
};
use backstitch::config::BackstitchConfig;
use backstitch::content::{FileContent, GodotScene};
use backstitch::importers::{GodotError, ImporterKind};
use backstitch::lazy_load::{GetStep, LazyLoadToken, LazyLoadTokenEditorProperty, ThreadLoadStatus};
use backstitch::resource_loader::{
    after_import, asked_cache_mode, asks_current_import, get_all_recognized_extensions,
    get_content_and_import_file_content, get_content_as_textfile, get_temp_path, import_path,
    import_text, set_resource_path, sub_cache_mode, temp_file_name, type_by_extension,
    type_of_content, uid_path, uid_text, write_content_to_temp_file, BackstitchResourceFormatSaver,
    BackstitchResourceLoader, CacheMode, Imported, LoadPlan, PathAction, TempContent, TypeAnswer,
};
use backstitch::table::Table;

fn text(t: &str) -> FileContent {
    FileContent::String(t.to_string())
}

fn strings(list: &[&str]) -> Vec<String> {
    list.iter().map(|s| s.to_string()).collect()
}

fn scene() -> FileContent {
    FileContent::Scene(GodotScene {
        resource_type: "Theme".to_string(),
        script_class: Some("MyTheme".to_string()),
        uid: "uid://abc".to_string(),
        ext_resources: vec![
            ("1".to_string(), "res://a.png".to_string()),
            ("2".to_string(), "res://b.png".to_string()),
        ],
        root_node_type: None,
        serialized: "[gd_resource]".to_string(),
    })
}

#[test]
fn loaded_files_are_kept_as_asked() {
    assert_eq!(asked_cache_mode(None), CacheMode::Ignore);
    assert_eq!(asked_cache_mode(Some(CacheMode::Replace)), CacheMode::Replace);
    assert_eq!(sub_cache_mode(CacheMode::Reuse), CacheMode::Ignore);
    assert_eq!(sub_cache_mode(CacheMode::ReplaceDeep), CacheMode::ReplaceDeep);
    assert_eq!(set_resource_path(CacheMode::Ignore), PathAction::SetPathCache);
    assert_eq!(set_resource_path(CacheMode::IgnoreDeep), PathAction::SetPathCache);
    assert_eq!(set_resource_path(CacheMode::Replace), PathAction::TakeOverPath);
    assert_eq!(set_resource_path(CacheMode::ReplaceDeep), PathAction::TakeOverPath);
    assert_eq!(set_resource_path(CacheMode::Reuse), PathAction::SetPath);
}

#[test]
fn the_import_file_is_found_beside_the_file() {
    assert_eq!(import_path("res://a.png"), "res://a.png.import");
    let table = |names: &[&str]| {
        let mut t = Table::new();
        for n in names {
            t.insert(n.to_string(), text(n));
        }
        Some(t)
    };
    assert!(asks_current_import("a", &table(&["a"])));
    assert!(!asks_current_import("a", &table(&["a", "a.import"])));
    assert!(!asks_current_import("a", &table(&["b"])));
    assert!(!asks_current_import("a", &None));
    let found = get_content_and_import_file_content("a", table(&["a.import", "a"]), None).unwrap();
    assert!(matches!(&found.0, FileContent::String(t) if t == "a"));
    assert!(matches!(&found.1, Some(FileContent::String(t)) if t == "a.import"));
    assert_eq!(import_text(&found.1).unwrap(), "a.import");
    let found = get_content_and_import_file_content("a", table(&["a"]), Some(text("now"))).unwrap();
    assert!(matches!(&found.1, Some(FileContent::String(t)) if t == "now"));
    assert!(matches!(get_content_and_import_file_content("a", table(&["b"]), None), Err(GodotError::FileNotFound)));
    assert!(matches!(get_content_and_import_file_content("a", None, None), Err(GodotError::FileNotFound)));
    assert!(import_text(&None).is_none());
}

#[test]
fn files_are_loaded_by_a_plan() {
    let loader = BackstitchResourceLoader::init();
    let none = strings(&[]);
    let full = "backstitch://1/res/a.png";
    let load = |path: &str, content: FileContent, import: Option<FileContent>, known: &Vec<String>| {
        loader.load(path, full, content, &import, "3d_texture", known)
    };
    assert!(matches!(load("a.png", FileContent::Deleted, None, &none), LoadPlan::Nothing));
    assert!(matches!(
        load("a.png", FileContent::Binary(vec![1]), None, &none),
        LoadPlan::Import(Ok((ImporterKind::Texture, name)), FileContent::Binary(_)) if name == "texture"
    ));
    assert!(matches!(
        load("a.png", FileContent::Binary(vec![1]), Some(text("x")), &none),
        LoadPlan::Import(Ok((ImporterKind::LayeredTexture, name)), _) if name == "3d_texture"
    ));
    assert!(matches!(
        load("a.png", FileContent::Binary(vec![1]), None, &strings(&["png"])),
        LoadPlan::TempFile(FileContent::Binary(_))
    ));
    assert!(matches!(load("a.tscn", scene(), None, &none), LoadPlan::TempFile(FileContent::Scene(_))));
    assert!(matches!(load("a.png", scene(), Some(FileContent::Deleted), &none), LoadPlan::Nothing));
    assert!(matches!(load("a.gd", text("x"), None, &none), LoadPlan::TempFile(_)));
    // The importer is chosen by the full path.
    assert!(matches!(
        loader.load("a.png", "a.txt", text("x"), &None, "", &none),
        LoadPlan::Import(Err(GodotError::CantCreate), _)
    ));
}

#[test]
fn what_was_imported_is_handed_out() {
    assert!(matches!(after_import(&text("t"), Ok(())), Imported::Resource));
    assert!(matches!(after_import(&text("t"), Err(GodotError::CantCreate)), Imported::TextFile(t) if t == "t"));
    assert!(matches!(after_import(&FileContent::Binary(vec![1]), Err(GodotError::CantCreate)), Imported::Nothing));
}

#[test]
fn temporary_files_hold_the_contents() {
    assert_eq!(temp_file_name("res://d/a.png", "7"), "backstitch_7.png");
    assert_eq!(temp_file_name("d/a", "7"), "backstitch_7.res");
    let one = get_temp_path("res://a.png");
    assert!(one.starts_with("backstitch_") && one.ends_with(".png"));
    assert_ne!(one, get_temp_path("res://a.png"));
    assert!(matches!(write_content_to_temp_file(&text("ab")), Ok(TempContent::Bytes(b)) if b == b"ab"));
    assert!(matches!(write_content_to_temp_file(&FileContent::Binary(vec![9])), Ok(TempContent::Bytes(b)) if b == [9]));
    assert!(matches!(write_content_to_temp_file(&scene()), Ok(TempContent::SceneText)));
    assert!(matches!(write_content_to_temp_file(&FileContent::Deleted), Err(GodotError::FileNotFound)));
    assert_eq!(get_content_as_textfile(&scene()), Some("[gd_resource]".to_string()));
    assert_eq!(get_content_as_textfile(&text("t")), Some("t".to_string()));
    assert_eq!(get_content_as_textfile(&FileContent::Deleted), None);
}

#[test]
fn resources_have_types_and_ids() {
    let loader = BackstitchResourceLoader::init();
    for (ext, class) in [
        ("scn", "PackedScene"),
        ("TSCN", "PackedScene"),
        ("gd", "GDScript"),
        ("cs", "CSharpScript"),
        ("txt", "TextFile"),
        ("md", "MarkdownFile"),
        ("cfg", "ConfigFile"),
        ("ini", "IniFile"),
        ("log", "LogFile"),
        ("json", "JsonFile"),
        ("yml", "YamlFile"),
        ("yaml", "YamlFile"),
        ("png", ""),
    ] {
        assert!(matches!(loader.get_resource_type(ext), TypeAnswer::Named(n) if n == class));
    }
    assert!(matches!(type_by_extension("tres"), TypeAnswer::OfContent));
    assert_eq!(type_of_content(Some(&scene())), "Theme");
    assert_eq!(type_of_content(Some(&text("x"))), "");
    assert_eq!(loader.get_resource_script_class(Some(&scene())), "MyTheme");
    assert_eq!(loader.get_resource_script_class(None), "");
    assert_eq!(loader.get_resource_uid("GD", "a.gd"), "a.gd.uid");
    assert_eq!(loader.get_resource_uid("tres", "a.tres"), "a.tres");
    assert_eq!(uid_path("gdextension", "a"), "a.uid");
    assert_eq!(uid_text("gd", Some(&text("uid://x"))), Some("uid://x".to_string()));
    assert_eq!(uid_text("gd", Some(&scene())), None);
    assert_eq!(uid_text("tres", Some(&scene())), Some("uid://abc".to_string()));
    assert_eq!(uid_text("tres", Some(&text("x"))), None);
    assert_eq!(loader.get_dependencies(Some(&scene())), strings(&["res://a.png", "res://b.png"]));
    assert!(loader.get_dependencies(None).is_empty());
}

#[test]
fn resources_from_history_are_read_only() {
    let saver = BackstitchResourceFormatSaver {};
    assert_eq!(saver.save(), GodotError::Locked);
    assert_eq!(saver.set_uid(), GodotError::Locked);
    assert!(saver.recognize(Some(true)));
    assert!(!saver.recognize(Some(false)));
    assert!(!saver.recognize(None));
    assert_eq!(BackstitchResourceLoader::init().rename_dependencies(), GodotError::Unavailable);
}

#[test]
fn all_extensions_are_put_together() {
    assert_eq!(
        get_all_recognized_extensions(strings(&["png"]), Some("txt,md"), None),
        strings(&["png", "cs", "txt", "md", "ico", "icns"])
    );
    assert_eq!(
        get_all_recognized_extensions(Vec::new(), None, Some("")).len(),
        1 + 10 + 1
    );
}

#[test]
fn resources_are_loaded_when_they_are_shown() {
    let mut token: LazyLoadToken<u32> = LazyLoadToken::new("load".to_string(), Some("own".to_string()));
    assert_eq!(token.get_path(), "own");
    assert!(!token.is_started(false, ThreadLoadStatus::InvalidResource));
    assert_eq!(token.get_resource(false, ThreadLoadStatus::InvalidResource), GetStep::Request);
    token.start_load(true);
    assert_eq!(token.after_request(), GetStep::Take);
    assert!(token.is_started(false, ThreadLoadStatus::InProgress));
    assert!(!token.is_load_finished(false, ThreadLoadStatus::InProgress));
    assert!(token.is_load_finished(false, ThreadLoadStatus::Failed));
    assert_eq!(token.get_resource(false, ThreadLoadStatus::Loaded), GetStep::Take);
    assert_eq!(token.take_loaded(Some((5, "load".to_string()))), Some("own".to_string()));
    assert_eq!(token.resource(), Some(&5));
    assert_eq!(token.get_resource(true, ThreadLoadStatus::InvalidResource), GetStep::Ready);
    assert!(token.is_load_finished(true, ThreadLoadStatus::InvalidResource));
    assert!(!token.did_fail());

    let mut token: LazyLoadToken<u32> = LazyLoadToken::new("load".to_string(), None);
    assert_eq!(token.get_path(), "load");
    assert_eq!(token.take_loaded(None), None);
    assert!(token.did_fail());
    assert_eq!(token.get_resource(false, ThreadLoadStatus::Loaded), GetStep::NoResource);

    let mut token: LazyLoadToken<u32> = LazyLoadToken::new("load".to_string(), None);
    token.start_load(false);
    assert_eq!(token.after_request(), GetStep::NoResource);
}

#[test]
fn a_loading_mark_is_shown_until_the_resource_is_there() {
    let token: LazyLoadToken<u32> = LazyLoadToken::new("load".to_string(), None);
    let mut editor = LazyLoadTokenEditorProperty::create(Some(token));
    editor.ready();
    assert!(editor.wants_start(false) && !editor.wants_start(true));
    assert!(editor.wants_resource(true) && !editor.wants_resource(false));
    assert_eq!(editor.token().unwrap().get_path(), "load");
    assert!(editor.take_token().is_some());
    assert!(editor.take_token().is_none());
    assert!(!editor.wants_start(false) && !editor.wants_resource(true));
    assert!(!editor.update_to_real_editor_property(false));
    assert!(editor.update_to_real_editor_property(true));
    assert!(!editor.update_to_real_editor_property(true));
}

#[test]
fn settings_are_read_and_written() {
    let mut config = BackstitchConfig::new(None, None);
    assert_eq!(BackstitchConfigAccessor::get_project_doc_id(&config), "");
    let saved = BackstitchConfigAccessor::set_project_value(&mut config, "project_doc_id", "x");
    assert_eq!(saved, "[backstitch]\nproject_doc_id=\"x\"\n");
    assert_eq!(BackstitchConfigAccessor::get_project_doc_id(&config), "x");
    assert_eq!(BackstitchConfigAccessor::get_user_value(&config, "user_name", "d"), "d");
    BackstitchConfigAccessor::set_user_value(&mut config, "user_name", "Ada");
    assert_eq!(BackstitchConfigAccessor::get_user_value(&config, "user_name", "d"), "Ada");
    assert_eq!(BackstitchConfigAccessor::get_project_value(&config, "user_name", "d"), "d");
}

#[test]
fn open_files_are_closed() {
    let actions = BackstitchEditorAccessor::close_files_if_open(
        &strings(&["a.tscn", "b.tscn", "s.gd", "x"]),
        &strings(&["a.tscn", "b.tscn"]),
        &strings(&["s.gd"]),
        Some("b.tscn"),
    );
    assert_eq!(actions.len(), 2);
    assert!(matches!(actions[0], CloseAction::CloseScene));
    assert!(matches!(&actions[1], CloseAction::CloseScript(p) if p == "s.gd"));
}

#[test]
fn the_edited_scene_is_reloaded_last() {
    let open = strings(&["a", "b", "c"]);
    assert_eq!(BackstitchEditorAccessor::reload_scene_files(&open, Some("b")), strings(&["a", "c", "b"]));
    assert_eq!(BackstitchEditorAccessor::reload_scene_files(&open, None), open);
}

#[test]
fn scans_come_to_an_end() {
    assert_eq!(BackstitchEditorAccessor::scan_fs_sync(false, SCAN_TIMEOUT), ScanStep::Done);
    assert_eq!(BackstitchEditorAccessor::scan_fs_sync(true, 0), ScanStep::Wait);
    assert_eq!(BackstitchEditorAccessor::scan_fs_sync(true, SCAN_TIMEOUT), ScanStep::TimedOut);
    assert!(BackstitchEditorAccessor::refresh_after_source_change(ScanStep::Done));
    assert!(!BackstitchEditorAccessor::refresh_after_source_change(ScanStep::TimedOut));
    assert!(BackstitchEditorAccessor::unsaved_files_open(1, 0));
    assert!(BackstitchEditorAccessor::unsaved_files_open(0, 1));
    assert!(!BackstitchEditorAccessor::unsaved_files_open(0, 0));
    assert!(!BackstitchEditorAccessor::is_editor_importing(None));
    assert!(BackstitchEditorAccessor::is_editor_importing(Some(true)));
    assert!(!EditorFilesystemAccessor::is_scanning(None));
}
