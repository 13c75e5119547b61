//! The contents of a project's files.

use crate::digest::{blake3_hash, FileHash};
use crate::document::{
    get_at, get_string_at, held, held_text, string_under, text_at, winner, DocValue, Held,
    ObjectId,
};
use crate::history::{document_id, hash_views, ChangeHash, DocumentId};
use crate::text::{begins_with, without_first};
use vstd::prelude::*;
use vstd::slice::*;
use vstd::string::*;
use vstd::utf8::*;

verus! {

/// `String::from_utf8`: the text that the bytes encode, where they are valid UTF-8. Its encoding
/// is the bytes.
#[verifier::external_body]
fn text_of_bytes(bytes: &Vec<u8>) -> (r: Option<String>)
    ensures
        r is Some <==> valid_utf8(bytes@),
        r matches Some(t) ==> encode_utf8(t@) == bytes@,
{
    String::from_utf8(bytes.clone()).ok()
}

/// The type of a scene node: a class, or an instance of the scene in an external resource.
#[derive(Debug)]
pub enum TypeOrInstance {
    Type(String),
    Instance(String),
}

impl TypeOrInstance {
    pub fn duplicate(&self) -> (r: TypeOrInstance)
        ensures
            r == *self,
    {
        match self {
            TypeOrInstance::Type(s) => TypeOrInstance::Type(s.clone()),
            TypeOrInstance::Instance(s) => TypeOrInstance::Instance(s.clone()),
        }
    }
}

/// What Backstitch uses of a parsed scene or text resource.
#[derive(Debug)]
pub struct GodotScene {
    /// The type of the resource; `PackedScene` for a scene.
    pub resource_type: String,
    /// The class that the resource's script declares.
    pub script_class: Option<String>,
    /// The text of the resource's unique id.
    pub uid: String,
    /// The id and the path of each external resource.
    pub ext_resources: Vec<(String, String)>,
    /// The type of the scene's root node.
    pub root_node_type: Option<TypeOrInstance>,
    /// The text that the scene is saved as.
    pub serialized: String,
}

/// The path of the first external resource with the given id.
pub open spec fn ext_path(resources: Seq<(String, String)>, id: Seq<char>) -> Option<String>
    decreases resources.len(),
{
    if resources.len() == 0 {
        None
    } else if resources[0].0@ == id {
        Some(resources[0].1)
    } else {
        ext_path(resources.skip(1), id)
    }
}

impl GodotScene {
    /// The path of the external resource with the given id.
    pub fn get_ext_resource_path(&self, id: &str) -> (r: Option<String>)
        ensures
            r == ext_path(self.ext_resources@, id@),
    {
        let mut i: usize = 0;
        assert(self.ext_resources@.skip(0) == self.ext_resources@);
        while i < self.ext_resources.len()
            invariant
                i <= self.ext_resources.len(),
                ext_path(self.ext_resources@, id@) == ext_path(
                    self.ext_resources@.skip(i as int),
                    id@,
                ),
            decreases self.ext_resources.len() - i,
        {
            if crate::text::same_text(self.ext_resources[i].0.as_str(), id) {
                return Some(self.ext_resources[i].1.clone());
            }
            assert(self.ext_resources@.skip(i as int).skip(1) == self.ext_resources@.skip(i + 1));
            i = i + 1;
        }
        None
    }

    /// The type of the root node.
    pub fn get_root_node_type(&self) -> (r: Option<TypeOrInstance>)
        ensures
            r == self.root_node_type,
    {
        match &self.root_node_type {
            Some(t) => Some(t.duplicate()),
            None => None,
        }
    }

    /// The text to save the scene as.
    pub fn serialize(&self) -> (r: String)
        ensures
            r == self.serialized,
    {
        self.serialized.clone()
    }
}

/// What the scene parser made of a text.
#[derive(Debug)]
pub enum SceneParse {
    /// The text is neither a scene nor a text resource.
    NotAScene,
    /// The text looks like one, and could not be parsed.
    Broken,
    Parsed(GodotScene),
}

/// The contents of a file.
#[derive(Debug)]
pub enum FileContent {
    String(String),
    Binary(Vec<u8>),
    Scene(GodotScene),
    Deleted,
}

/// A change of a file on disk, by the file's path.
#[derive(Debug)]
pub enum FileSystemEvent {
    FileCreated(String, FileContent),
    FileModified(String, FileContent),
    FileDeleted(String),
}

/// The contents that a text stands for.
pub open spec fn content_of_text(text: String, parse: SceneParse) -> FileContent {
    match parse {
        SceneParse::Parsed(scene) => FileContent::Scene(scene),
        _ => FileContent::String(text),
    }
}

/// A null byte stands among the first eight thousand bytes.
pub open spec fn has_early_null(bytes: Seq<u8>) -> bool {
    exists|i: int| 0 <= i < bytes.len() && i < 8000 && #[trigger] bytes[i] == 0
}

/// The bytes of a file with the given contents; none for a deleted file.
pub open spec fn bytes_of(content: FileContent) -> Option<Seq<u8>> {
    match content {
        FileContent::String(text) => Some(encode_utf8(text@)),
        FileContent::Binary(data) => Some(data@),
        FileContent::Scene(scene) => Some(encode_utf8(scene.serialized@)),
        FileContent::Deleted => None,
    }
}

/// The hash of a file with the given contents; a deleted file hashes as an empty one.
pub open spec fn content_hash(content: FileContent) -> Seq<u8> {
    match bytes_of(content) {
        Some(bytes) => blake3_hash(bytes),
        None => blake3_hash(Seq::empty()),
    }
}

/// How file contents are told from bytes: as text, or else as binary data.
pub open spec fn reads_as_text(bytes: Seq<u8>) -> bool {
    !has_early_null(bytes) && valid_utf8(bytes)
}

/// The bytes of a file with their hash, from whether there is such a file and what reading it gave.
pub fn get_buffer_and_hash(is_file: bool, read: Option<Vec<u8>>) -> (r: Result<
    (Vec<u8>, FileHash),
    String,
>)
    ensures
        if !is_file {
            r matches Err(e) && e@ == "Not a file"@
        } else {
            match read {
                Some(bytes) => r matches Ok((b, hash)) && b == bytes && hash@ == blake3_hash(bytes@),
                None => r matches Err(e) && e@ == "Failed to read file"@,
            }
        },
{
    if !is_file {
        return Err("Not a file".to_owned());
    }
    match read {
        Some(bytes) => {
            let hash = FileHash::of(bytes.as_slice());
            Ok((bytes, hash))
        },
        None => Err("Failed to read file".to_owned()),
    }
}

/// Whether the bytes are binary data: a null byte stands among the first eight thousand.
pub fn is_buf_binary(buf: &Vec<u8>) -> (r: bool)
    ensures
        r == has_early_null(buf@),
{
    let mut i: usize = 0;
    while i < buf.len() && i < 8000
        invariant
            i <= buf.len(),
            i <= 8000,
            forall|j: int| 0 <= j < i ==> buf@[j] != 0,
        decreases buf.len() - i,
    {
        if buf[i] == 0 {
            return true;
        }
        i = i + 1;
    }
    false
}

/// How the contents of a file are found from its entry in a branch document.
#[derive(Debug)]
pub enum Hydrated {
    /// The entry holds the contents.
    Content(FileContent),
    /// The entry holds a scene, whose parts have to be read out.
    Scene,
    /// The contents are in another document.
    Linked(DocumentId),
    /// The contents cannot be read.
    Unreadable,
}

/// The entry of a file in a branch document is no object with keys.
#[derive(Debug, Clone, Copy, PartialEq, Eq)]
pub struct BrokenEntry;

/// How contents are found, over the contents themselves.
pub enum Source {
    Text(Seq<char>),
    Deleted,
    Scene,
    Linked(Seq<u8>),
    Unreadable,
}

impl View for Hydrated {
    type V = Source;

    open spec fn view(&self) -> Source {
        match *self {
            Hydrated::Content(FileContent::String(t)) => Source::Text(t@),
            Hydrated::Content(FileContent::Deleted) => Source::Deleted,
            Hydrated::Content(_) => Source::Unreadable,
            Hydrated::Scene => Source::Scene,
            Hydrated::Linked(id) => Source::Linked(id@),
            Hydrated::Unreadable => Source::Unreadable,
        }
    }
}

/// The document that a URL of the form `automerge:<id>` names.
pub open spec fn automerge_url(url: Seq<char>) -> Option<Seq<u8>> {
    if "automerge:"@.is_prefix_of(url) {
        document_id(url.skip("automerge:"@.len() as int))
    } else {
        None
    }
}

/// The document that a URL names, where it has the form `automerge:<id>`.
pub fn parse_automerge_url(url: &str) -> (r: Option<DocumentId>)
    ensures
        (match r {
            Some(id) => Some(id@),
            None => None,
        }) == automerge_url(url@),
{
    let prefix = "automerge:";
    if !begins_with(url, prefix) {
        return None;
    }
    let id = without_first(url, prefix.unicode_len());
    DocumentId::from_text(id.as_str())
}

/// How the contents of a file are found from its entry: a scene before everything, then the mark
/// of a deleted file, then a text object, then a string, then a link.
pub open spec fn source_at(
    doc: automerge::Automerge,
    entry: Seq<u8>,
    heads: Seq<Seq<u8>>,
) -> Option<Source> {
    if held(doc)[(entry, "structured_content"@, heads)] is None {
        None
    } else if winner(doc, entry, "structured_content"@, heads) is Some {
        Some(Source::Scene)
    } else if winner(doc, entry, "deleted"@, heads) is Some {
        Some(Source::Deleted)
    } else {
        match winner(doc, entry, "content"@, heads) {
            Some((Held::Text, id)) => match held_text(doc)[(id, heads)] {
                Some(text) => Some(Source::Text(text)),
                None => Some(Source::Unreadable),
            },
            Some((Held::Str(text), _)) => Some(Source::Text(text)),
            _ => Some(
                match string_under(doc, entry, "url"@, heads) {
                    Some(url) => match automerge_url(url) {
                        Some(id) => Source::Linked(id),
                        None => Source::Unreadable,
                    },
                    None => Source::Unreadable,
                },
            ),
        }
    }
}

impl FileContent {
    /// The bytes of the file; none for a deleted file.
    pub fn as_bytes(&self) -> (r: Option<Vec<u8>>)
        ensures
            (match r {
                Some(b) => Some(b@),
                None => None,
            }) == bytes_of(*self),
    {
        match self {
            FileContent::String(text) => Some(text_bytes(text.as_str())),
            FileContent::Binary(data) => {
                let copy = data.clone();
                assert(copy@ == data@);
                Some(copy)
            },
            FileContent::Scene(scene) => Some(text_bytes(scene.serialized.as_str())),
            FileContent::Deleted => None,
        }
    }

    /// The hash of the file; a deleted file hashes as an empty one.
    pub fn to_hash(&self) -> (r: FileHash)
        ensures
            r@ == content_hash(*self),
    {
        match self.as_bytes() {
            Some(bytes) => FileHash::of(bytes.as_slice()),
            None => {
                let none: Vec<u8> = Vec::new();
                FileHash::of(none.as_slice())
            },
        }
    }

    /// The bytes to write to disk and their hash; nothing for a deleted file, which cannot be
    /// written.
    pub fn write_file_content(&self) -> (r: Option<(Vec<u8>, FileHash)>)
        ensures
            match r {
                Some(w) => bytes_of(*self) == Some(w.0@) && w.1@ == content_hash(*self),
                None => *self is Deleted,
            },
    {
        match self.as_bytes() {
            Some(bytes) => {
                let hash = self.to_hash();
                Some((bytes, hash))
            },
            None => None,
        }
    }

    /// The contents of a file that holds the given text, of which the scene parser made `parse`.
    pub fn from_string(string: String, parse: SceneParse) -> (r: FileContent)
        ensures
            r == content_of_text(string, parse),
    {
        match parse {
            SceneParse::Parsed(scene) => FileContent::Scene(scene),
            _ => FileContent::String(string),
        }
    }

    /// The text in the bytes of a file, where they are to be read as text.
    pub fn text_in_buf(buf: &Vec<u8>) -> (r: Option<String>)
        ensures
            r is Some <==> reads_as_text(buf@),
            r matches Some(t) ==> encode_utf8(t@) == buf@,
    {
        if is_buf_binary(buf) {
            return None;
        }
        text_of_bytes(buf)
    }

    /// The contents of a file with the given bytes: binary data where there is a null byte among
    /// the first eight thousand or the bytes are not UTF-8, else the text, of which the scene
    /// parser made `parse`. Unless it is a scene, the contents have those bytes again, and their
    /// hash.
    pub fn from_buf(buf: Vec<u8>, parse: SceneParse) -> (r: FileContent)
        ensures
            !(r is Scene) ==> bytes_of(r) == Some(buf@) && content_hash(r) == blake3_hash(buf@),
            !reads_as_text(buf@) ==> r == FileContent::Binary(buf),
            reads_as_text(buf@) && parse is Parsed ==> r == FileContent::Scene(parse->Parsed_0),
            reads_as_text(buf@) && !(parse is Parsed) ==> (r matches FileContent::String(t)
                && encode_utf8(t@) == buf@),
    {
        match FileContent::text_in_buf(&buf) {
            Some(text) => FileContent::from_string(text, parse),
            None => FileContent::Binary(buf),
        }
    }

    /// How the contents of a file are found from its entry in a branch document, at the given
    /// heads.
    pub fn hydrate_content_at(
        file_entry: &ObjectId,
        doc: &automerge::Automerge,
        heads: &Vec<ChangeHash>,
    ) -> (r: Result<Hydrated, BrokenEntry>)
        ensures
            (match r {
                Ok(h) => Some(h@),
                Err(_) => None,
            }) == source_at(*doc, file_entry@, hash_views(heads@)),
            r matches Ok(Hydrated::Content(c)) ==> c is String || c is Deleted,
    {
        match get_at(doc, file_entry, "structured_content", heads) {
            Err(_) => {
                return Err(BrokenEntry);
            },
            Ok(Some(_)) => {
                return Ok(Hydrated::Scene);
            },
            Ok(None) => {},
        }
        if let Ok(Some(_)) = get_at(doc, file_entry, "deleted", heads) {
            return Ok(Hydrated::Content(FileContent::Deleted));
        }
        match get_at(doc, file_entry, "content", heads) {
            Ok(Some((DocValue::Text, id))) => {
                return Ok(
                    match text_at(doc, &id, heads) {
                        Some(text) => Hydrated::Content(FileContent::String(text)),
                        None => Hydrated::Unreadable,
                    },
                );
            },
            Ok(Some((DocValue::Str(text), _))) => {
                return Ok(Hydrated::Content(FileContent::String(text)));
            },
            _ => {},
        }
        match get_string_at(doc, file_entry, "url", heads) {
            Some(url) => match parse_automerge_url(url.as_str()) {
                Some(id) => Ok(Hydrated::Linked(id)),
                None => Ok(Hydrated::Unreadable),
            },
            None => Ok(Hydrated::Unreadable),
        }
    }
}

impl Default for FileContent {
    fn default() -> (r: FileContent)
        ensures
            r == FileContent::Deleted,
    {
        FileContent::Deleted
    }
}

/// The bytes of a text.
pub(crate) fn text_bytes(text: &str) -> (r: Vec<u8>)
    ensures
        r@ == encode_utf8(text@),
{
    slice_to_vec(text.as_bytes())
}

/// The external resource with an id is the first that has it.
pub proof fn the_first_resource_counts(resources: Seq<(String, String)>, id: Seq<char>)
    ensures
        ext_path(resources, id) is None <==> forall|i: int|
            0 <= i < resources.len() ==> (#[trigger] resources[i]).0@ != id,
        forall|i: int|
            0 <= i < resources.len() && (#[trigger] resources[i]).0@ == id && (forall|j: int|
                0 <= j < i ==> (#[trigger] resources[j]).0@ != id) ==> ext_path(resources, id)
                == Some(resources[i].1),
    decreases resources.len(),
{
    if resources.len() > 0 && resources[0].0@ != id {
        let rest = resources.skip(1);
        the_first_resource_counts(rest, id);
        assert forall|i: int|
            0 <= i < resources.len() && (#[trigger] resources[i]).0@ == id && (forall|j: int|
                0 <= j < i ==> (#[trigger] resources[j]).0@ != id) implies ext_path(resources, id)
            == Some(resources[i].1) by {
            assert(rest[i - 1] == resources[i]);
            assert forall|j: int| 0 <= j < i - 1 implies (#[trigger] rest[j]).0@ != id by {
                assert(resources[j + 1].0@ != id);
            }
        }
        if ext_path(resources, id) is None {
            assert forall|i: int| 0 <= i < resources.len() implies (#[trigger] resources[i]).0@
                != id by {
                if i > 0 {
                    assert(rest[i - 1].0@ != id);
                }
            }
        }
        if forall|i: int| 0 <= i < resources.len() ==> (#[trigger] resources[i]).0@ != id {
            assert forall|i: int| 0 <= i < rest.len() implies (#[trigger] rest[i]).0@ != id by {
                assert(resources[i + 1].0@ != id);
            }
        }
    } else if resources.len() > 0 {
        assert(resources[0].0@ == id);
        assert forall|i: int|
            0 <= i < resources.len() && (#[trigger] resources[i]).0@ == id && (forall|j: int|
                0 <= j < i ==> (#[trigger] resources[j]).0@ != id) implies ext_path(resources, id)
            == Some(resources[i].1) by {
            if i > 0 {
                assert(resources[0].0@ != id);
            }
        }
    }
}

/// A file is binary data exactly where one of its first eight thousand bytes is null or its bytes
/// are no UTF-8; what comes after those bytes makes no difference but for the encoding.
pub proof fn an_early_null_makes_binary_data(bytes: Seq<u8>)
    ensures
        !reads_as_text(bytes) <==> !valid_utf8(bytes) || exists|i: int|
            0 <= i < 8000 && i < bytes.len() && #[trigger] bytes[i] == 0,
{
}

/// What a file holds is what is written to disk for it, byte for byte, and what it is hashed by. A
/// deleted file holds nothing, and hashes as an empty file.
pub proof fn files_are_hashed_by_what_they_hold(content: FileContent)
    ensures
        match content {
            FileContent::String(text) => bytes_of(content) == Some(encode_utf8(text@))
                && content_hash(content) == blake3_hash(encode_utf8(text@)),
            FileContent::Binary(data) => bytes_of(content) == Some(data@) && content_hash(content)
                == blake3_hash(data@),
            FileContent::Scene(scene) => bytes_of(content) == Some(
                encode_utf8(scene.serialized@),
            ) && content_hash(content) == blake3_hash(encode_utf8(scene.serialized@)),
            FileContent::Deleted => bytes_of(content) is None && content_hash(content)
                == blake3_hash(Seq::empty()),
        },
{
}

/// A text is a scene exactly where the parser made one of it, and is kept as it stands otherwise.
pub proof fn only_parsed_text_is_a_scene(text: String, parse: SceneParse)
    ensures
        match parse {
            SceneParse::Parsed(scene) => content_of_text(text, parse) == FileContent::Scene(scene),
            SceneParse::NotAScene => content_of_text(text, parse) == FileContent::String(text),
            SceneParse::Broken => content_of_text(text, parse) == FileContent::String(text),
        },
{
}

/// A link names a document exactly where it is that document's id after `automerge:`.
pub proof fn a_link_is_an_id_after_the_scheme(id: Seq<char>, url: Seq<char>)
    ensures
        automerge_url("automerge:"@ + id) == document_id(id),
        automerge_url(url) is Some ==> exists|rest: Seq<char>|
            url == "automerge:"@ + rest && automerge_url(url) == #[trigger] document_id(rest),
{
    reveal_strlit("automerge:");
    let whole = "automerge:"@ + id;
    assert("automerge:"@.is_prefix_of(whole));
    assert(whole.skip(10) == id);
    if automerge_url(url) is Some {
        let rest = url.skip(10);
        assert(url == "automerge:"@ + rest);
        assert(automerge_url(url) == document_id(rest));
    }
}

/// What an entry of a branch document holds for a file. A scene goes before all else. A file that
/// is marked as deleted is deleted, whatever else the entry holds. Then comes the text of the
/// entry, and the document that it links to only where there is no text.
pub proof fn what_an_entry_holds(
    doc: automerge::Automerge,
    entry: Seq<u8>,
    heads: Seq<Seq<u8>>,
    text: Seq<char>,
    id: Seq<u8>,
)
    requires
        held(doc)[(entry, "structured_content"@, heads)] is Some,
    ensures
        source_at(doc, entry, heads) is Some,
        source_at(doc, entry, heads) == Some(Source::Scene) <==> winner(
            doc,
            entry,
            "structured_content"@,
            heads,
        ) is Some,
        source_at(doc, entry, heads) == Some(Source::Deleted) <==> winner(
            doc,
            entry,
            "structured_content"@,
            heads,
        ) is None && winner(doc, entry, "deleted"@, heads) is Some,
        source_at(doc, entry, heads) == Some(Source::Text(text)) <==> (winner(
                doc,
                entry,
                "structured_content"@,
                heads,
            ) is None && winner(doc, entry, "deleted"@, heads) is None && (match winner(
                doc,
                entry,
                "content"@,
                heads,
            ) {
                Some((Held::Str(t), _)) => t == text,
                Some((Held::Text, object)) => held_text(doc)[(object, heads)] == Some(text),
                _ => false,
            })),
        source_at(doc, entry, heads) == Some(Source::Linked(id)) ==> (match string_under(
                doc,
                entry,
                "url"@,
                heads,
            ) {
                Some(url) => automerge_url(url) == Some(id),
                None => false,
            }) && !(winner(doc, entry, "content"@, heads) matches Some((Held::Str(_), _))) && !(
            winner(doc, entry, "content"@, heads) matches Some((Held::Text, _))),
        winner(doc, entry, "structured_content"@, heads) is None && winner(
            doc,
            entry,
            "deleted"@,
            heads,
        ) is None && winner(doc, entry, "content"@, heads) is None ==> (match string_under(
            doc,
            entry,
            "url"@,
            heads,
        ) {
            Some(url) => match automerge_url(url) {
                Some(linked) => source_at(doc, entry, heads) == Some(Source::Linked(linked)),
                None => source_at(doc, entry, heads) == Some(Source::Unreadable),
            },
            None => source_at(doc, entry, heads) == Some(Source::Unreadable),
        }),
{
}

} // verus!
