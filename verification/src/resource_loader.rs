//! Loading resources as they were at some point in history, for Godot's resource loader.

use crate::content::{bytes_of, FileContent};
use crate::importers::{
    first_importer, get_extension, lower_extension, FakeImporter, GodotError, ImporterKind,
};
use crate::ordered::{has_key, lemma_without, value_at};
use crate::paths::extension;
use crate::table::Table;
use crate::text::{
    begins_with, chars_of, find_char, first_index, joined, joined3, lemma_first_index, list_has,
    same_text, string_between, text_in, texts, without_first,
};
use vstd::prelude::*;
use vstd::string::*;
use vstd::utf8::*;

verus! {

/// How Godot keeps what it loads.
#[derive(Clone, Copy, Debug, PartialEq, Eq, Structural)]
pub enum CacheMode {
    Ignore,
    Reuse,
    Replace,
    IgnoreDeep,
    ReplaceDeep,
}

/// The mode that Godot asks for; where it asks for none that is known, nothing is kept.
pub fn asked_cache_mode(asked: Option<CacheMode>) -> (r: CacheMode)
    ensures
        r == match asked {
            Some(mode) => mode,
            None => CacheMode::Ignore,
        },
{
    match asked {
        Some(mode) => mode,
        None => CacheMode::Ignore,
    }
}

/// The mode in which the temporary file is loaded. It is never kept itself, but what it uses may
/// be used again.
pub fn sub_cache_mode(mode: CacheMode) -> (r: CacheMode)
    ensures
        r == (if mode == CacheMode::Reuse {
            CacheMode::Ignore
        } else {
            mode
        }),
{
    match mode {
        CacheMode::IgnoreDeep => CacheMode::IgnoreDeep,
        CacheMode::Replace => CacheMode::Replace,
        CacheMode::ReplaceDeep => CacheMode::ReplaceDeep,
        _ => CacheMode::Ignore,
    }
}

/// How a loaded resource gets its path.
#[derive(Clone, Copy, Debug, PartialEq, Eq, Structural)]
pub enum PathAction {
    /// It only remembers the path.
    SetPathCache,
    /// It takes the path from the resource that has it.
    TakeOverPath,
    SetPath,
}

/// How a loaded resource gets its path.
pub fn set_resource_path(mode: CacheMode) -> (r: PathAction)
    ensures
        r == match mode {
            CacheMode::Ignore => PathAction::SetPathCache,
            CacheMode::IgnoreDeep => PathAction::SetPathCache,
            CacheMode::Replace => PathAction::TakeOverPath,
            CacheMode::ReplaceDeep => PathAction::TakeOverPath,
            CacheMode::Reuse => PathAction::SetPath,
        },
{
    match mode {
        CacheMode::Ignore | CacheMode::IgnoreDeep => PathAction::SetPathCache,
        CacheMode::Replace | CacheMode::ReplaceDeep => PathAction::TakeOverPath,
        CacheMode::Reuse => PathAction::SetPath,
    }
}

/// The path of the file that says how the file at a path is imported.
pub fn import_path(path: &str) -> (r: String)
    ensures
        r@ == path@ + ".import"@,
{
    joined(path, ".import")
}

/// The contents of a file and of its import file, out of what was found at the point in history.
/// Where the import file was not found there, `at_current` stands for it.
pub open spec fn content_and_import(
    path: Seq<char>,
    contents: Option<Seq<(Seq<char>, FileContent)>>,
    at_current: Option<FileContent>,
) -> Result<(FileContent, Option<FileContent>), GodotError> {
    match contents {
        None => Err(GodotError::FileNotFound),
        Some(found) => match value_at(found, path) {
            None => Err(GodotError::FileNotFound),
            Some(content) => Ok(
                (
                    content,
                    match value_at(found, path + ".import"@) {
                        Some(import) => Some(import),
                        None => at_current,
                    },
                ),
            ),
        },
    }
}

/// The import file has to be looked up at the current point in history.
pub open spec fn needs_current_import(
    path: Seq<char>,
    contents: Option<Seq<(Seq<char>, FileContent)>>,
) -> bool {
    contents matches Some(found) && has_key(found, path) && !has_key(found, path + ".import"@)
}

/// Whether the import file has to be looked up at the current point in history.
pub fn asks_current_import(path: &str, contents: &Option<Table<FileContent>>) -> (r: bool)
    ensures
        r == needs_current_import(
            path@,
            match *contents {
                Some(found) => Some(found@),
                None => None,
            },
        ),
{
    match contents {
        Some(found) => {
            let import = import_path(path);
            found.contains_key(path) && !found.contains_key(import.as_str())
        },
        None => false,
    }
}

/// The contents of a file and of its import file, out of what was found at the point in history.
pub fn get_content_and_import_file_content(
    path: &str,
    contents: Option<Table<FileContent>>,
    at_current: Option<FileContent>,
) -> (r: Result<(FileContent, Option<FileContent>), GodotError>)
    ensures
        r == content_and_import(
            path@,
            match contents {
                Some(found) => Some(found@),
                None => None,
            },
            at_current,
        ),
{
    match contents {
        None => Err(GodotError::FileNotFound),
        Some(found) => {
            let mut found = found;
            let _n: usize = found.len();
            proof {
                lemma_without(found@, path@);
                reveal_strlit(".import");
                assert((path@ + ".import"@).len() != path@.len());
            }
            let import = import_path(path);
            match found.remove(path) {
                Some(content) => {
                    let import_content = match found.remove(import.as_str()) {
                        Some(c) => Some(c),
                        None => at_current,
                    };
                    Ok((content, import_content))
                },
                None => Err(GodotError::FileNotFound),
            }
        },
    }
}

/// The text of the import file, which names the importer.
pub fn import_text(import: &Option<FileContent>) -> (r: Option<&String>)
    ensures
        match *import {
            Some(FileContent::String(text)) => r == Some(&text),
            _ => r is None,
        },
{
    match import {
        Some(FileContent::String(text)) => Some(text),
        _ => None,
    }
}

/// How a resource is loaded.
#[derive(Debug)]
pub enum LoadPlan {
    /// It is not.
    Nothing,
    /// An importer makes it of the file's contents, or none was found.
    Import(Result<(ImporterKind, String), GodotError>, FileContent),
    /// Godot loads it from a temporary file with these contents.
    TempFile(FileContent),
}

/// The importer that the import file names.
pub open spec fn named_importer(import: Option<FileContent>, importer: Seq<char>) -> Option<
    Seq<char>,
> {
    match import {
        Some(FileContent::String(_)) => Some(importer),
        _ => None,
    }
}

/// The file may have to be imported: it has an import file, or Godot does not load files with its
/// extension and it is no scene.
pub open spec fn may_be_imported(
    path: Seq<char>,
    content: FileContent,
    import: Option<FileContent>,
    recognized: Seq<Seq<char>>,
) -> bool {
    import is Some || (!recognized.contains(lower_extension(path)) && !(content is Scene))
}

/// The plan by which a file is loaded.
pub open spec fn is_load_plan(
    importers: Seq<ImporterKind>,
    path: Seq<char>,
    full_path: Seq<char>,
    content: FileContent,
    import: Option<FileContent>,
    importer: Seq<char>,
    recognized: Seq<Seq<char>>,
    plan: LoadPlan,
) -> bool {
    let name = named_importer(import, importer);
    if content is Deleted {
        plan is Nothing
    } else if may_be_imported(path, content, import, recognized) && first_importer(
        importers,
        lower_extension(path),
        name,
    ) is Some {
        if content is Scene {
            plan is Nothing
        } else {
            (plan matches LoadPlan::Import(chosen, c) && c == content && (match first_importer(
                importers,
                lower_extension(full_path),
                name,
            ) {
                Some(kind) => (chosen matches Ok((k, n)) && k == kind && n@ == (match name {
                    Some(given) => given,
                    None => kind.importers()[0],
                })),
                None => (chosen matches Err(e) && e == GodotError::CantCreate),
            }))
        }
    } else {
        (plan matches LoadPlan::TempFile(c) && c == content)
    }
}

/// What is to be done with a resource that was to be imported.
#[derive(Debug)]
pub enum Imported {
    /// The resource is handed out.
    Resource,
    /// The file is handed out as plain text.
    TextFile(String),
    Nothing,
}

/// What a temporary file is to hold.
#[derive(Debug)]
pub enum TempContent {
    Bytes(Vec<u8>),
    /// The text of the scene, with its resources at the same point in history.
    SceneText,
}

/// The name of a temporary file for the file at a path: it keeps the extension.
pub open spec fn temp_name(path: Seq<char>, id: Seq<char>) -> Seq<char> {
    let rest = if "res://"@.is_prefix_of(path) {
        path.skip("res://"@.len() as int)
    } else {
        path
    };
    "backstitch_"@ + id + "."@ + match extension(rest) {
        Some(ext) => ext,
        None => "res"@,
    }
}

/// The name of a temporary file for the file at a path; `id` tells it from others.
pub fn temp_file_name(path: &str, id: &str) -> (r: String)
    ensures
        r@ == temp_name(path@, id@),
{
    let prefix = "res://";
    let rest = if begins_with(path, prefix) {
        without_first(path, prefix.unicode_len())
    } else {
        path.to_owned()
    };
    let ext = match crate::paths::get_extension(rest.as_str()) {
        Some(ext) => ext,
        None => "res".to_owned(),
    };
    let head = joined3("backstitch_", id, ".");
    joined(head.as_str(), ext.as_str())
}

/// The name of a new temporary file for the file at a path.
pub fn get_temp_path(path: &str) -> (r: String)
    ensures
        exists|id: Seq<char>| r@ == #[trigger] temp_name(path@, id),
{
    let id = crate::toml_file::random_id();
    temp_file_name(path, id.as_str())
}

/// What the temporary file for a file with these contents is to hold.
pub open spec fn is_temp_content(
    content: FileContent,
    r: Result<TempContent, GodotError>,
) -> bool {
    match content {
        FileContent::String(text) => r matches Ok(TempContent::Bytes(b)) && b@ == encode_utf8(
            text@,
        ),
        FileContent::Binary(data) => r matches Ok(TempContent::Bytes(b)) && b@ == data@,
        FileContent::Scene(_) => r matches Ok(TempContent::SceneText),
        FileContent::Deleted => r matches Err(e) && e == GodotError::FileNotFound,
    }
}

/// What the temporary file for a file with these contents is to hold; an error where the file is
/// deleted.
pub fn write_content_to_temp_file(content: &FileContent) -> (r: Result<TempContent, GodotError>)
    ensures
        is_temp_content(*content, r),
{
    match content {
        FileContent::Scene(_) => Ok(TempContent::SceneText),
        _ => match content.as_bytes() {
            Some(bytes) => Ok(TempContent::Bytes(bytes)),
            None => Err(GodotError::FileNotFound),
        },
    }
}

/// The text with which a file is shown as plain text; nothing where it is no text.
pub fn get_content_as_textfile(content: &FileContent) -> (r: Option<String>)
    ensures
        match *content {
            FileContent::String(text) => r == Some(text),
            FileContent::Scene(scene) => r == Some(scene.serialized),
            _ => r is None,
        },
{
    match content {
        FileContent::String(text) => Some(text.clone()),
        FileContent::Scene(scene) => Some(scene.serialize()),
        _ => None,
    }
}

/// What is to be done with a resource that was to be imported.
pub open spec fn is_import_outcome(
    content: FileContent,
    outcome: Result<(), GodotError>,
    r: Imported,
) -> bool {
    match (outcome, content) {
        (Ok(_), _) => r is Resource,
        (Err(_), FileContent::String(text)) => r matches Imported::TextFile(t) && t == text,
        (Err(_), _) => r is Nothing,
    }
}

/// What is to be done with a resource that was to be imported: where that failed, a text file is
/// handed out as plain text.
pub fn after_import(content: &FileContent, outcome: Result<(), GodotError>) -> (r: Imported)
    ensures
        is_import_outcome(*content, outcome, r),
{
    match outcome {
        Ok(_) => Imported::Resource,
        Err(_) => match content {
            FileContent::String(text) => Imported::TextFile(text.clone()),
            _ => Imported::Nothing,
        },
    }
}

/// How the type of a resource is told.
#[derive(Debug)]
pub enum TypeAnswer {
    /// By its extension; empty where it is left to Godot's own loaders.
    Named(String),
    /// By the contents of the file.
    OfContent,
}

/// The type of the resources with the given extension, in lower case; nothing where it is told by
/// the contents of the file.
pub open spec fn resource_class(ext: Seq<char>) -> Option<Seq<char>> {
    if ext == "scn"@ || ext == "tscn"@ {
        Some("PackedScene"@)
    } else if ext == "gd"@ {
        Some("GDScript"@)
    } else if ext == "cs"@ {
        Some("CSharpScript"@)
    } else if ext == "txt"@ {
        Some("TextFile"@)
    } else if ext == "md"@ {
        Some("MarkdownFile"@)
    } else if ext == "cfg"@ {
        Some("ConfigFile"@)
    } else if ext == "ini"@ {
        Some("IniFile"@)
    } else if ext == "log"@ {
        Some("LogFile"@)
    } else if ext == "json"@ {
        Some("JsonFile"@)
    } else if ext == "yml"@ || ext == "yaml"@ {
        Some("YamlFile"@)
    } else if ext == "tres"@ {
        None
    } else {
        Some(""@)
    }
}

/// How the type of resources with the given extension, in lower case, is told.
pub fn type_by_extension(ext: &str) -> (r: TypeAnswer)
    ensures
        match resource_class(ext@) {
            Some(name) => r matches TypeAnswer::Named(n) && n@ == name,
            None => r is OfContent,
        },
{
    let name = if same_text(ext, "scn") || same_text(ext, "tscn") {
        "PackedScene"
    } else if same_text(ext, "gd") {
        "GDScript"
    } else if same_text(ext, "cs") {
        "CSharpScript"
    } else if same_text(ext, "txt") {
        "TextFile"
    } else if same_text(ext, "md") {
        "MarkdownFile"
    } else if same_text(ext, "cfg") {
        "ConfigFile"
    } else if same_text(ext, "ini") {
        "IniFile"
    } else if same_text(ext, "log") {
        "LogFile"
    } else if same_text(ext, "json") {
        "JsonFile"
    } else if same_text(ext, "yml") || same_text(ext, "yaml") {
        "YamlFile"
    } else if same_text(ext, "tres") {
        return TypeAnswer::OfContent;
    } else {
        ""
    };
    TypeAnswer::Named(name.to_owned())
}

/// The type of a resource that is told by its contents; empty where they are no text resource.
pub fn type_of_content(content: Option<&FileContent>) -> (r: String)
    ensures
        match content {
            Some(FileContent::Scene(scene)) => r == scene.resource_type,
            _ => r@ == ""@,
        },
{
    match content {
        Some(FileContent::Scene(scene)) => scene.resource_type.clone(),
        _ => "".to_owned(),
    }
}

/// Files with this extension, in lower case, have their unique id in a file of its own.
pub open spec fn uid_beside(ext: Seq<char>) -> bool {
    ext == "gd"@ || ext == "cs"@ || ext == "gdextension"@
}

fn has_uid_beside(ext: &str) -> (r: bool)
    ensures
        r == uid_beside(ext@),
{
    same_text(ext, "gd") || same_text(ext, "cs") || same_text(ext, "gdextension")
}

/// The path of the file that holds the unique id of the resource at a path, by the extension, in
/// lower case, that Godot sees.
pub fn uid_path(ext: &str, path: &str) -> (r: String)
    ensures
        r@ == (if uid_beside(ext@) {
            path@ + ".uid"@
        } else {
            path@
        }),
{
    if has_uid_beside(ext) {
        joined(path, ".uid")
    } else {
        path.to_owned()
    }
}

/// The text of the unique id of a resource, from the contents of the file that holds it; nothing
/// where there is none.
pub fn uid_text(ext: &str, content: Option<&FileContent>) -> (r: Option<String>)
    ensures
        match content {
            Some(FileContent::String(text)) => r == (if uid_beside(ext@) {
                Some(*text)
            } else {
                None::<String>
            }),
            Some(FileContent::Scene(scene)) => r == (if uid_beside(ext@) {
                None::<String>
            } else {
                Some(scene.uid)
            }),
            _ => r is None,
        },
{
    let beside = has_uid_beside(ext);
    match content {
        Some(FileContent::String(text)) => if beside {
            Some(text.clone())
        } else {
            None
        },
        Some(FileContent::Scene(scene)) => if beside {
            None
        } else {
            Some(scene.uid.clone())
        },
        _ => None,
    }
}

/// Loads resources as they were at some point in history.
pub struct BackstitchResourceLoader {
    pub fake_importer: FakeImporter,
}

impl BackstitchResourceLoader {
    /// A loader with all importers.
    pub fn init() -> (r: BackstitchResourceLoader)
        ensures
            r.fake_importer@ == crate::importers::all_importers(),
    {
        BackstitchResourceLoader { fake_importer: FakeImporter::default() }
    }

    /// How the file at a path, with these contents at the point in history, is loaded. `full_path`
    /// is the path with the point in history, `importer` the name that Godot reads out of the
    /// import file where there is one, and `recognized` the extensions of the files that Godot
    /// loads.
    pub fn load(
        &self,
        path: &str,
        full_path: &str,
        content: FileContent,
        import: &Option<FileContent>,
        importer: &str,
        recognized: &Vec<String>,
    ) -> (r: LoadPlan)
        ensures
            is_load_plan(
                self.fake_importer@,
                path@,
                full_path@,
                content,
                *import,
                importer@,
                texts(recognized@),
                r,
            ),
    {
        if let FileContent::Deleted = content {
            return LoadPlan::Nothing;
        }
        let scene = match content {
            FileContent::Scene(_) => true,
            _ => false,
        };
        let maybe_import = if import.is_some() {
            true
        } else {
            let ext = get_extension(path);
            !list_has(recognized, ext.as_str()) && !scene
        };
        if maybe_import {
            let name: Option<&str> = match import_text(import) {
                Some(_) => Some(importer),
                None => None,
            };
            assert(text_in(name) == named_importer(*import, importer@));
            if self.fake_importer.recognize(path, name) {
                if scene {
                    return LoadPlan::Nothing;
                }
                let chosen = self.fake_importer.import_file(full_path, name);
                return LoadPlan::Import(chosen, content);
            }
        }
        LoadPlan::TempFile(content)
    }

    /// How the type of the resource at a path is told, by the extension that Godot sees.
    pub fn get_resource_type(&self, ext: &str) -> (r: TypeAnswer)
        ensures
            match resource_class(crate::importers::lower_case(ext@)) {
                Some(name) => r matches TypeAnswer::Named(n) && n@ == name,
                None => r is OfContent,
            },
    {
        let lower = crate::importers::to_lower_case(ext);
        type_by_extension(lower.as_str())
    }

    /// The class that the script of a resource declares; empty where there is none.
    pub fn get_resource_script_class(&self, content: Option<&FileContent>) -> (r: String)
        ensures
            match content {
                Some(FileContent::Scene(scene)) => match scene.script_class {
                    Some(class) => r == class,
                    None => r@ == ""@,
                },
                _ => r@ == ""@,
            },
    {
        match content {
            Some(FileContent::Scene(scene)) => match &scene.script_class {
                Some(class) => class.clone(),
                None => "".to_owned(),
            },
            _ => "".to_owned(),
        }
    }

    /// The path of the file that holds the unique id of the resource at a path, by the extension
    /// that Godot sees.
    pub fn get_resource_uid(&self, ext: &str, path: &str) -> (r: String)
        ensures
            r@ == (if uid_beside(crate::importers::lower_case(ext@)) {
                path@ + ".uid"@
            } else {
                path@
            }),
    {
        let lower = crate::importers::to_lower_case(ext);
        uid_path(lower.as_str(), path)
    }

    /// The paths of the resources that a resource uses.
    pub fn get_dependencies(&self, content: Option<&FileContent>) -> (r: Vec<String>)
        ensures
            match content {
                Some(FileContent::Scene(scene)) => r@ == scene.ext_resources@.map_values(
                    |e: (String, String)| e.1,
                ),
                _ => r@.len() == 0,
            },
    {
        let mut out: Vec<String> = Vec::new();
        match content {
            Some(FileContent::Scene(scene)) => {
                let mut i: usize = 0;
                while i < scene.ext_resources.len()
                    invariant
                        i <= scene.ext_resources.len(),
                        out.len() == i,
                        forall|j: int| 0 <= j < i ==> #[trigger] out@[j] == scene.ext_resources@[j].1,
                    decreases scene.ext_resources.len() - i,
                {
                    out.push(scene.ext_resources[i].1.clone());
                    i = i + 1;
                }
                assert(out@ =~= scene.ext_resources@.map_values(|e: (String, String)| e.1));
            },
            _ => {},
        }
        out
    }

    /// Resources from history are read-only: what they use cannot be renamed.
    pub fn rename_dependencies(&self) -> (r: GodotError)
        ensures
            r == GodotError::Unavailable,
    {
        GodotError::Unavailable
    }
}

/// Keeps resources from history from being saved.
pub struct BackstitchResourceFormatSaver {}

impl BackstitchResourceFormatSaver {
    /// Resources from history are read-only.
    pub fn save(&self) -> (r: GodotError)
        ensures
            r == GodotError::Locked,
    {
        GodotError::Locked
    }

    /// Resources from history are read-only.
    pub fn set_uid(&self) -> (r: GodotError)
        ensures
            r == GodotError::Locked,
    {
        GodotError::Locked
    }

    /// Whether a resource is one from history: it has a path, and the path is one into history.
    pub fn recognize(&self, path_recognized: Option<bool>) -> (r: bool)
        ensures
            r == (path_recognized == Some(true)),
    {
        match path_recognized {
            Some(found) => found,
            None => false,
        }
    }
}

/// The parts of a text between its commas.
pub open spec fn comma_parts(text: Seq<char>) -> Seq<Seq<char>>
    decreases text.len(),
{
    let comma = first_index(text, ',');
    if 0 <= comma < text.len() {
        seq![text.take(comma)] + comma_parts(text.skip(comma + 1))
    } else {
        seq![text]
    }
}

/// The parts of a text between its commas.
fn split_commas(text: &str) -> (r: Vec<String>)
    ensures
        texts(r@) == comma_parts(text@),
{
    let v = chars_of(text);
    let mut out: Vec<String> = Vec::new();
    let mut from: usize = 0;
    assert(v@.skip(0) == v@);
    loop
        invariant
            v@ == text@,
            from <= v.len(),
            comma_parts(text@) == texts(out@) + comma_parts(v@.skip(from as int)),
        decreases v.len() - from,
    {
        let to = find_char(&v, ',', from);
        let ghost rest = v@.skip(from as int);
        let ghost before = out@;
        proof {
            lemma_first_index(rest, ',');
        }
        if to == v.len() {
            let part = string_between(&v, from, to);
            assert(part@ == rest);
            out.push(part);
            assert(texts(out@) == texts(before) + seq![rest]);
            return out;
        }
        let part = string_between(&v, from, to);
        assert(part@ == rest.take(to - from));
        out.push(part);
        assert(texts(out@) == texts(before) + seq![rest.take(to - from)]);
        assert(rest.skip(to - from + 1) == v@.skip(to + 1));
        assert(texts(before) + (seq![rest.take(to - from)] + comma_parts(v@.skip(to + 1))) == (
        texts(before) + seq![rest.take(to - from)]) + comma_parts(v@.skip(to + 1)));
        from = to + 1;
    }
}

/// All extensions that resources may have.
pub open spec fn all_extensions(
    loaded: Seq<Seq<char>>,
    text_files: Option<Seq<char>>,
    other_files: Option<Seq<char>>,
) -> Seq<Seq<char>> {
    loaded.push("cs"@) + comma_parts(
        match text_files {
            Some(list) => list,
            None => "txt,md,cfg,ini,log,json,yml,yaml,toml,xml"@,
        },
    ) + comma_parts(
        match other_files {
            Some(list) => list,
            None => "ico,icns"@,
        },
    )
}

/// All extensions that resources may have: those of the files that Godot loads, C# scripts, and
/// the text and other files that its settings name.
pub fn get_all_recognized_extensions(
    loaded: Vec<String>,
    text_files: Option<&str>,
    other_files: Option<&str>,
) -> (r: Vec<String>)
    ensures
        texts(r@) == all_extensions(texts(loaded@), text_in(text_files), text_in(other_files)),
{
    let mut all = loaded;
    all.push("cs".to_owned());
    assert(texts(all@) == texts(loaded@).push("cs"@));
    let mut text_list = split_commas(
        match text_files {
            Some(list) => list,
            None => "txt,md,cfg,ini,log,json,yml,yaml,toml,xml",
        },
    );
    let mut other_list = split_commas(
        match other_files {
            Some(list) => list,
            None => "ico,icns",
        },
    );
    let ghost first = all@;
    let ghost second = text_list@;
    let ghost third = other_list@;
    all.append(&mut text_list);
    all.append(&mut other_list);
    assert(texts(all@) == texts(first) + texts(second) + texts(third));
    all
}

/// A file is found exactly where it was there at the point in history. Its import file is the one
/// that was there at the same point; only where there was none does the current one stand for it,
/// and only then is that one looked up.
pub proof fn the_import_file_of_the_time_counts_first(
    path: Seq<char>,
    found: Seq<(Seq<char>, FileContent)>,
    at_current: Option<FileContent>,
    other: Option<FileContent>,
)
    ensures
        content_and_import(path, None, at_current) == Err::<(FileContent, Option<FileContent>), _>(
            GodotError::FileNotFound,
        ),
        content_and_import(path, Some(found), at_current) is Ok <==> has_key(found, path),
        content_and_import(path, Some(found), at_current) matches Err(e) ==> e
            == GodotError::FileNotFound,
        content_and_import(path, Some(found), at_current) matches Ok(c) ==> Some(c.0) == value_at(
            found,
            path,
        ) && (has_key(found, path + ".import"@) ==> c.1 == value_at(found, path + ".import"@)) && (
        !has_key(found, path + ".import"@) ==> c.1 == at_current),
        !needs_current_import(path, Some(found)) ==> content_and_import(
            path,
            Some(found),
            at_current,
        ) == content_and_import(path, Some(found), other),
        has_key(found, path) && !has_key(found, path + ".import"@) ==> needs_current_import(
            path,
            Some(found),
        ),
{
}

/// A file that is there is loaded with the contents that it had, and nothing but a deleted file, or
/// a scene that an importer is asked to make, is left out. An importer is used exactly where the file
/// has an import file, or Godot does not load such files itself, and there is an importer for it.
pub proof fn files_are_loaded_as_they_were(
    importers: Seq<ImporterKind>,
    path: Seq<char>,
    full_path: Seq<char>,
    content: FileContent,
    import: Option<FileContent>,
    importer: Seq<char>,
    recognized: Seq<Seq<char>>,
    plan: LoadPlan,
)
    requires
        is_load_plan(importers, path, full_path, content, import, importer, recognized, plan),
    ensures
        content is Deleted ==> plan is Nothing,
        !(content is Deleted) && !(content is Scene) ==> !(plan is Nothing),
        plan matches LoadPlan::Import(_, c) ==> c == content,
        plan matches LoadPlan::TempFile(c) ==> c == content,
        content is Scene && import is None ==> plan is TempFile,
        content is String || content is Binary ==> {
            let name = match import {
                Some(FileContent::String(_)) => Some(importer),
                _ => None,
            };
            plan is Import <==> (import is Some || !recognized.contains(lower_extension(path)))
                && first_importer(importers, lower_extension(path), name) is Some
        },
        (content is String || content is Binary) && import is None && recognized.contains(
            lower_extension(path),
        ) ==> plan is TempFile,
        plan matches LoadPlan::Import(Ok(chosen), _) ==> (match import {
            Some(FileContent::String(_)) => chosen.1@ == importer && Some(chosen.0)
                == first_importer(importers, lower_extension(full_path), Some(importer)),
            _ => chosen.1@ == chosen.0.importers()[0] && Some(chosen.0) == first_importer(
                importers,
                lower_extension(full_path),
                None,
            ),
        }),
{
}

/// A temporary file holds what the file held, byte for byte; only a scene is written anew, and a
/// deleted file has none.
pub proof fn temporary_files_hold_the_contents(
    content: FileContent,
    r: Result<TempContent, GodotError>,
)
    requires
        is_temp_content(content, r),
    ensures
        r is Err <==> content is Deleted,
        r matches Err(e) ==> e == GodotError::FileNotFound,
        content is Scene <==> r matches Ok(TempContent::SceneText),
        r matches Ok(TempContent::Bytes(b)) ==> Some(b@) == bytes_of(content),
{
}

/// What was imported is handed out; what could not be is handed out as text where it is text.
pub proof fn a_failed_import_shows_the_text(
    content: FileContent,
    outcome: Result<(), GodotError>,
    r: Imported,
)
    requires
        is_import_outcome(content, outcome, r),
    ensures
        outcome is Ok <==> r is Resource,
        outcome is Err && content is String ==> r == Imported::TextFile(content->String_0),
        outcome is Err && !(content is String) ==> r is Nothing,
{
}

/// The extensions by which the type of a resource is known, and what it is then. A text resource
/// says its type itself, and any other file is left to Godot.
pub proof fn types_by_extension(ext: Seq<char>)
    ensures
        resource_class(ext) is None <==> ext == "tres"@,
        resource_class(ext) == Some("PackedScene"@) <==> (ext == "scn"@ || ext == "tscn"@),
        ext == "gd"@ ==> resource_class(ext) == Some("GDScript"@),
        ext == "cs"@ ==> resource_class(ext) == Some("CSharpScript"@),
        ext == "txt"@ ==> resource_class(ext) == Some("TextFile"@),
        ext == "md"@ ==> resource_class(ext) == Some("MarkdownFile"@),
        ext == "cfg"@ ==> resource_class(ext) == Some("ConfigFile"@),
        ext == "ini"@ ==> resource_class(ext) == Some("IniFile"@),
        ext == "log"@ ==> resource_class(ext) == Some("LogFile"@),
        ext == "json"@ ==> resource_class(ext) == Some("JsonFile"@),
        ext == "yml"@ || ext == "yaml"@ ==> resource_class(ext) == Some("YamlFile"@),
        resource_class(ext) == Some(""@) <==> !(ext == "scn"@ || ext == "tscn"@ || ext == "gd"@
            || ext == "cs"@ || ext == "txt"@ || ext == "md"@ || ext == "cfg"@ || ext == "ini"@
            || ext == "log"@ || ext == "json"@ || ext == "yml"@ || ext == "yaml"@ || ext
            == "tres"@),
{
    reveal_strlit("scn");
    reveal_strlit("tscn");
    reveal_strlit("gd");
    reveal_strlit("cs");
    reveal_strlit("txt");
    reveal_strlit("md");
    reveal_strlit("cfg");
    reveal_strlit("ini");
    reveal_strlit("log");
    reveal_strlit("json");
    reveal_strlit("yml");
    reveal_strlit("yaml");
    reveal_strlit("tres");
    assert("scn"@[0] == 's' && "scn"@[1] == 'c');
    assert("tscn"@[0] == 't' && "tscn"@[1] == 's');
    assert("gd"@[0] == 'g');
    assert("cs"@[0] == 'c');
    assert("txt"@[0] == 't');
    assert("md"@[0] == 'm');
    assert("cfg"@[0] == 'c' && "cfg"@.len() == 3 && "cs"@.len() == 2);
    assert("ini"@[0] == 'i');
    assert("log"@[0] == 'l');
    assert("json"@[0] == 'j');
    assert("yml"@[0] == 'y');
    assert("yaml"@[0] == 'y');
    assert("tres"@[0] == 't' && "tres"@[1] == 'r');
    reveal_strlit("");
    reveal_strlit("PackedScene");
    reveal_strlit("GDScript");
    reveal_strlit("CSharpScript");
    reveal_strlit("TextFile");
    reveal_strlit("MarkdownFile");
    reveal_strlit("ConfigFile");
    reveal_strlit("IniFile");
    reveal_strlit("LogFile");
    reveal_strlit("JsonFile");
    reveal_strlit("YamlFile");
    assert("PackedScene"@.len() == 11);
    assert("GDScript"@.len() == 8);
    assert("CSharpScript"@.len() == 12);
    assert("TextFile"@.len() == 8);
    assert("MarkdownFile"@.len() == 12);
    assert("ConfigFile"@.len() == 10);
    assert("IniFile"@.len() == 7);
    assert("LogFile"@.len() == 7);
    assert("JsonFile"@.len() == 8);
    assert("YamlFile"@.len() == 8);
    assert(""@.len() == 0);
}

/// Scripts and extension libraries have their unique id in a file beside them, and no other files.
pub proof fn scripts_have_their_id_beside(ext: Seq<char>)
    ensures
        uid_beside(ext) <==> (ext == "gd"@ || ext == "cs"@ || ext == "gdextension"@),
{
}

/// A list is split at its commas: no part holds one, and the parts with a comma between each two
/// are the list again.
pub proof fn lists_are_split_at_commas(text: Seq<char>)
    ensures
        comma_parts(text).len() > 0,
        with_commas(comma_parts(text)) == text,
        forall|i: int| 0 <= i < comma_parts(text).len() ==> !(#[trigger] comma_parts(text)[i]).contains(','),
    decreases text.len(),
{
    lemma_first_index(text, ',');
    let comma = first_index(text, ',');
    if comma < text.len() {
        let head = text.take(comma);
        let rest = text.skip(comma + 1);
        lists_are_split_at_commas(rest);
        let parts = comma_parts(rest);
        let all = seq![head] + parts;
        assert(comma_parts(text) == all);
        assert(all.skip(1) == parts);
        assert(all[0] == head);
        assert(with_commas(all) == head.push(',') + with_commas(parts));
        assert(head.push(',') + rest == text);
        assert forall|i: int| 0 <= i < all.len() implies !(#[trigger] all[i]).contains(',') by {
            if i > 0 {
                assert(all[i] == parts[i - 1]);
            } else {
                assert forall|k: int| 0 <= k < head.len() implies head[k] != ',' by {
                    assert(text[k] != ',');
                }
            }
        }
    } else {
        assert(comma_parts(text) == seq![text]);
        assert(seq![text].skip(1) == Seq::<Seq<char>>::empty());
        assert(seq![text][0] == text);
        assert(with_commas(seq![text]) == text);
        assert forall|k: int| 0 <= k < text.len() implies text[k] != ',' by {}
    }
}

/// Parts with a comma between each two.
pub open spec fn with_commas(parts: Seq<Seq<char>>) -> Seq<char>
    decreases parts.len(),
{
    if parts.len() == 0 {
        Seq::empty()
    } else if parts.len() == 1 {
        parts[0]
    } else {
        parts[0].push(',') + with_commas(parts.skip(1))
    }
}

/// All files that Godot loads are recognized, and C# scripts, and all files that its settings name.
pub proof fn all_kinds_of_files_are_recognized(
    loaded: Seq<Seq<char>>,
    text_files: Option<Seq<char>>,
    other_files: Option<Seq<char>>,
    ext: Seq<char>,
)
    ensures
        all_extensions(loaded, text_files, other_files).contains(ext) <==> loaded.contains(ext)
            || ext == "cs"@ || comma_parts(
            match text_files {
                Some(list) => list,
                None => "txt,md,cfg,ini,log,json,yml,yaml,toml,xml"@,
            },
        ).contains(ext) || comma_parts(
            match other_files {
                Some(list) => list,
                None => "ico,icns"@,
            },
        ).contains(ext),
{
    let a = loaded.push("cs"@);
    let b = comma_parts(
        match text_files {
            Some(list) => list,
            None => "txt,md,cfg,ini,log,json,yml,yaml,toml,xml"@,
        },
    );
    let c = comma_parts(
        match other_files {
            Some(list) => list,
            None => "ico,icns"@,
        },
    );
    let all = a + b + c;
    if loaded.contains(ext) {
        let k = choose|k: int| 0 <= k < loaded.len() && loaded[k] == ext;
        assert(all[k] == ext);
    }
    if ext == "cs"@ {
        assert(all[loaded.len() as int] == ext);
    }
    if b.contains(ext) {
        let k = choose|k: int| 0 <= k < b.len() && b[k] == ext;
        assert(all[a.len() + k] == ext);
    }
    if c.contains(ext) {
        let k = choose|k: int| 0 <= k < c.len() && c[k] == ext;
        assert(all[a.len() + b.len() + k] == ext);
    }
    if all.contains(ext) {
        let k = choose|k: int| 0 <= k < all.len() && all[k] == ext;
        if k < loaded.len() {
            assert(loaded[k] == ext);
        } else if k < a.len() {
            assert(a[k] == "cs"@);
        } else if k < a.len() + b.len() {
            assert(b[k - a.len()] == ext);
        } else {
            assert(c[k - a.len() - b.len()] == ext);
        }
    }
}

/// A temporary file keeps the extension of the file that it stands for.
pub proof fn a_temporary_file_keeps_the_extension(
    path: Seq<char>,
    id: Seq<char>,
    ext: Seq<char>,
)
    ensures
        extension(path) == Some(ext) ==> temp_name("res://"@ + path, id) == "backstitch_"@ + id
            + "."@ + ext,
        extension(path) is None ==> temp_name("res://"@ + path, id) == "backstitch_"@ + id + "."@
            + "res"@,
{
    let whole = "res://"@ + path;
    assert("res://"@.is_prefix_of(whole));
    assert(whole.skip("res://"@.len() as int) == path);
}

} // verus!
