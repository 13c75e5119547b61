//! Stand-ins for Godot's importers, which make a resource of the bytes of a file as it was at some
//! point in history: which importer takes a file, and with which settings.

use crate::paths::{extension, file_stem};
use crate::text::{begins_with, joined, joined3, same_text, text_in, without_first};
use vstd::prelude::*;
use vstd::string::*;

verus! {

/// The text in lower case.
pub uninterp spec fn lower_case(text: Seq<char>) -> Seq<char>;

/// `str::to_lowercase`: the text in lower case, as Unicode defines it, whatever the locale.
#[verifier::external_body]
pub(crate) fn to_lower_case(text: &str) -> (r: String)
    ensures
        r@ == lower_case(text@),
{
    text.to_lowercase()
}

/// The errors of Godot that Backstitch gives itself.
#[derive(Clone, Copy, Debug, PartialEq, Eq, Structural)]
pub enum GodotError {
    Unavailable,
    Locked,
    FileNotFound,
    FileUnrecognized,
    FileCantOpen,
    CantCreate,
    CantAcquireResource,
    InvalidParameter,
}

/// The words that a list of literals holds.
pub open spec fn words(list: Seq<&'static str>) -> Seq<Seq<char>> {
    list.map_values(|s: &'static str| s@)
}

/// Whether a list of literals holds `word`.
fn has_word(list: &Vec<&'static str>, word: &str) -> (r: bool)
    ensures
        r == words(list@).contains(word@),
{
    let mut i: usize = 0;
    while i < list.len()
        invariant
            i <= list.len(),
            forall|j: int| 0 <= j < i ==> (#[trigger] list@[j])@ != word@,
        decreases list.len() - i,
    {
        if same_text(list[i], word) {
            assert(words(list@)[i as int] == word@);
            return true;
        }
        i = i + 1;
    }
    false
}

/// The extension of the file that a path names, in lower case; empty where it has none.
pub open spec fn lower_extension(path: Seq<char>) -> Seq<char> {
    lower_case(
        match extension(path) {
            Some(e) => e,
            None => Seq::empty(),
        },
    )
}

/// The extension of the file that a path names, in lower case; empty where it has none.
pub fn get_extension(path: &str) -> (r: String)
    ensures
        r@ == lower_extension(path@),
{
    proof {
        reveal_strlit("");
        assert(""@ == Seq::<char>::empty());
    }
    match crate::paths::get_extension(path) {
        Some(e) => to_lower_case(e.as_str()),
        None => to_lower_case(""),
    }
}

/// A path without the root of the project's resources before it.
pub open spec fn below_resources(path: Seq<char>) -> Seq<char> {
    if path == "res:"@ || "res:/"@.is_prefix_of(path) {
        path.skip(4)
    } else {
        path
    }
}

/// The name of a temporary file that stands for the file at a path.
pub open spec fn temp_name(
    path: Seq<char>,
    id: Seq<char>,
    override_ext: Option<Seq<char>>,
) -> Seq<char> {
    let rest = below_resources(path);
    let stem = match file_stem(rest) {
        Some(s) => s,
        None => "file_name"@,
    };
    let ext = match override_ext {
        Some(e) => e,
        None => match extension(rest) {
            Some(e) => e,
            None => "res"@,
        },
    };
    "backstitch_"@ + stem + "_"@ + (id + "."@ + ext)
}

/// The name of a temporary file that stands for the file at a path; `id` tells it from others.
pub fn temp_file_name(path: &str, id: &str, override_ext: Option<&str>) -> (r: String)
    ensures
        r@ == temp_name(path@, id@, text_in(override_ext)),
{
    let below = same_text(path, "res:") || begins_with(path, "res:/");
    proof {
        reveal_strlit("res:");
        reveal_strlit("res:/");
    }
    let rest = if below {
        without_first(path, 4)
    } else {
        path.to_owned()
    };
    let stem = match crate::paths::get_file_stem(rest.as_str()) {
        Some(s) => s,
        None => "file_name".to_owned(),
    };
    let ext = match override_ext {
        Some(e) => e.to_owned(),
        None => match crate::paths::get_extension(rest.as_str()) {
            Some(e) => e,
            None => "res".to_owned(),
        },
    };
    let head = joined3("backstitch_", stem.as_str(), "_");
    let tail = joined3(id, ".", ext.as_str());
    joined(head.as_str(), tail.as_str())
}

/// The name of a new temporary file that stands for the file at a path.
pub fn get_temp_path(path: &str, override_ext: Option<&str>) -> (r: String)
    ensures
        exists|id: Seq<char>|
            r@ == #[trigger] temp_name(path@, id, text_in(override_ext)),
{
    let id = crate::toml_file::random_id();
    temp_file_name(path, id.as_str(), override_ext)
}

/// An importer.
pub trait FakeResourceImporter {
    /// The names that the importer goes by.
    spec fn importers(&self) -> Seq<Seq<char>>;

    /// The extensions of the files that it can read.
    spec fn extensions(&self) -> Seq<Seq<char>>;

    /// It takes files with this extension, where no importer is asked for by name.
    spec fn takes(&self, ext: Seq<char>) -> bool;

    fn get_recognized_importers(&self) -> (r: Vec<&'static str>)
        ensures
            words(r@) == self.importers(),
    ;

    fn get_recognized_extensions(&self) -> (r: Vec<&'static str>)
        ensures
            words(r@) == self.extensions(),
    ;

    /// Whether the importer takes files with this extension, where none is asked for by name.
    fn takes_extension(&self, ext: &str) -> (r: bool)
        ensures
            r == self.takes(ext@),
    ;

    /// Whether the importer is the one that is asked for by name or, where none is, takes the
    /// file.
    fn recognize(&self, path: &str, importer_name: Option<&str>) -> (r: bool)
        ensures
            r == match importer_name {
                Some(name) => self.importers().contains(name@),
                None => self.takes(lower_extension(path@)),
            },
    {
        match importer_name {
            Some(name) => {
                let names = self.get_recognized_importers();
                has_word(&names, name)
            },
            None => {
                let ext = get_extension(path);
                self.takes_extension(ext.as_str())
            },
        }
    }
}

pub struct FakeResourceImporterTexture {}

pub struct FakeResourceImporterLayeredTexture {}

pub struct FakeResourceImporterMP3 {}

pub struct FakeResourceImporterOggVorbis {}

pub struct FakeResourceImporterWAV {}

pub struct FakeResourceImporterBMFont {}

pub struct FakeResourceImporterDynamicFont {}

pub struct FakeResourceImporterImageFont {}

pub struct FakeResourceImporterSVG {}

pub struct FakeResourceImporterOBJ {}

pub struct FakeResourceImporterScene {}

pub struct FakeResourceImporterTextureAtlas {}

/// The extensions of image files.
pub open spec fn image_extensions() -> Seq<Seq<char>> {
    seq![
        "png"@,
        "jpg"@,
        "jpeg"@,
        "webp"@,
        "tga"@,
        "svg"@,
        "bmp"@,
        "dds"@,
        "hdr"@,
        "exr"@,
    ]
}

fn recognized_image_extensions() -> (r: Vec<&'static str>)
    ensures
        words(r@) == image_extensions(),
{
    let r: Vec<&'static str> = vec![
        "png",
        "jpg",
        "jpeg",
        "webp",
        "tga",
        "svg",
        "bmp",
        "dds",
        "hdr",
        "exr",
    ];
    assert(words(r@) =~= image_extensions());
    r
}

/// The extensions of font files.
pub open spec fn font_extensions() -> Seq<Seq<char>> {
    seq!["ttf"@, "ttc"@, "otf"@, "otc"@, "woff"@, "woff2"@, "pfb"@, "pfm"@]
}

fn recognized_font_extensions() -> (r: Vec<&'static str>)
    ensures
        words(r@) == font_extensions(),
{
    let r: Vec<&'static str> = vec!["ttf", "ttc", "otf", "otc", "woff", "woff2", "pfb", "pfm"];
    assert(words(r@) =~= font_extensions());
    r
}

impl FakeResourceImporter for FakeResourceImporterTexture {
    open spec fn importers(&self) -> Seq<Seq<char>> {
        seq!["texture"@]
    }

    open spec fn extensions(&self) -> Seq<Seq<char>> {
        image_extensions()
    }

    /// SVG files are left to their own importer.
    open spec fn takes(&self, ext: Seq<char>) -> bool {
        ext != "svg"@ && image_extensions().contains(ext)
    }

    fn get_recognized_importers(&self) -> (r: Vec<&'static str>) {
        let r: Vec<&'static str> = vec!["texture"];
        assert(words(r@) =~= self.importers());
        r
    }

    fn get_recognized_extensions(&self) -> (r: Vec<&'static str>) {
        recognized_image_extensions()
    }

    fn takes_extension(&self, ext: &str) -> (r: bool) {
        if same_text(ext, "svg") {
            return false;
        }
        let all = recognized_image_extensions();
        has_word(&all, ext)
    }
}

impl FakeResourceImporter for FakeResourceImporterLayeredTexture {
    open spec fn importers(&self) -> Seq<Seq<char>> {
        seq!["cubemap_texture"@, "2d_array_texture"@, "cubemap_array_texture"@, "3d_texture"@]
    }

    open spec fn extensions(&self) -> Seq<Seq<char>> {
        image_extensions()
    }

    /// Image files are left to the importer of plain textures.
    open spec fn takes(&self, ext: Seq<char>) -> bool {
        false
    }

    fn get_recognized_importers(&self) -> (r: Vec<&'static str>) {
        let r: Vec<&'static str> = vec![
            "cubemap_texture",
            "2d_array_texture",
            "cubemap_array_texture",
            "3d_texture",
        ];
        assert(words(r@) =~= self.importers());
        r
    }

    fn get_recognized_extensions(&self) -> (r: Vec<&'static str>) {
        recognized_image_extensions()
    }

    fn takes_extension(&self, _ext: &str) -> (r: bool) {
        false
    }
}

impl FakeResourceImporter for FakeResourceImporterMP3 {
    open spec fn importers(&self) -> Seq<Seq<char>> {
        seq!["mp3"@]
    }

    open spec fn extensions(&self) -> Seq<Seq<char>> {
        seq!["mp3"@]
    }

    open spec fn takes(&self, ext: Seq<char>) -> bool {
        self.extensions().contains(ext)
    }

    fn get_recognized_importers(&self) -> (r: Vec<&'static str>) {
        let r: Vec<&'static str> = vec!["mp3"];
        assert(words(r@) =~= self.importers());
        r
    }

    fn get_recognized_extensions(&self) -> (r: Vec<&'static str>) {
        let r: Vec<&'static str> = vec!["mp3"];
        assert(words(r@) =~= self.extensions());
        r
    }

    fn takes_extension(&self, ext: &str) -> (r: bool) {
        let all = self.get_recognized_extensions();
        has_word(&all, ext)
    }
}

impl FakeResourceImporter for FakeResourceImporterOggVorbis {
    open spec fn importers(&self) -> Seq<Seq<char>> {
        seq!["oggvorbisstr"@]
    }

    open spec fn extensions(&self) -> Seq<Seq<char>> {
        seq!["ogg"@]
    }

    open spec fn takes(&self, ext: Seq<char>) -> bool {
        self.extensions().contains(ext)
    }

    fn get_recognized_importers(&self) -> (r: Vec<&'static str>) {
        let r: Vec<&'static str> = vec!["oggvorbisstr"];
        assert(words(r@) =~= self.importers());
        r
    }

    fn get_recognized_extensions(&self) -> (r: Vec<&'static str>) {
        let r: Vec<&'static str> = vec!["ogg"];
        assert(words(r@) =~= self.extensions());
        r
    }

    fn takes_extension(&self, ext: &str) -> (r: bool) {
        let all = self.get_recognized_extensions();
        has_word(&all, ext)
    }
}

impl FakeResourceImporter for FakeResourceImporterWAV {
    open spec fn importers(&self) -> Seq<Seq<char>> {
        seq!["wav"@]
    }

    open spec fn extensions(&self) -> Seq<Seq<char>> {
        seq!["wav"@]
    }

    open spec fn takes(&self, ext: Seq<char>) -> bool {
        self.extensions().contains(ext)
    }

    fn get_recognized_importers(&self) -> (r: Vec<&'static str>) {
        let r: Vec<&'static str> = vec!["wav"];
        assert(words(r@) =~= self.importers());
        r
    }

    fn get_recognized_extensions(&self) -> (r: Vec<&'static str>) {
        let r: Vec<&'static str> = vec!["wav"];
        assert(words(r@) =~= self.extensions());
        r
    }

    fn takes_extension(&self, ext: &str) -> (r: bool) {
        let all = self.get_recognized_extensions();
        has_word(&all, ext)
    }
}

impl FakeResourceImporter for FakeResourceImporterBMFont {
    open spec fn importers(&self) -> Seq<Seq<char>> {
        seq!["font_data_bmfont"@]
    }

    open spec fn extensions(&self) -> Seq<Seq<char>> {
        seq!["fnt"@, "font"@]
    }

    open spec fn takes(&self, ext: Seq<char>) -> bool {
        self.extensions().contains(ext)
    }

    fn get_recognized_importers(&self) -> (r: Vec<&'static str>) {
        let r: Vec<&'static str> = vec!["font_data_bmfont"];
        assert(words(r@) =~= self.importers());
        r
    }

    fn get_recognized_extensions(&self) -> (r: Vec<&'static str>) {
        let r: Vec<&'static str> = vec!["fnt", "font"];
        assert(words(r@) =~= self.extensions());
        r
    }

    fn takes_extension(&self, ext: &str) -> (r: bool) {
        let all = self.get_recognized_extensions();
        has_word(&all, ext)
    }
}

impl FakeResourceImporter for FakeResourceImporterDynamicFont {
    open spec fn importers(&self) -> Seq<Seq<char>> {
        seq!["font_data_dynamic"@]
    }

    open spec fn extensions(&self) -> Seq<Seq<char>> {
        font_extensions()
    }

    open spec fn takes(&self, ext: Seq<char>) -> bool {
        self.extensions().contains(ext)
    }

    fn get_recognized_importers(&self) -> (r: Vec<&'static str>) {
        let r: Vec<&'static str> = vec!["font_data_dynamic"];
        assert(words(r@) =~= self.importers());
        r
    }

    fn get_recognized_extensions(&self) -> (r: Vec<&'static str>) {
        recognized_font_extensions()
    }

    fn takes_extension(&self, ext: &str) -> (r: bool) {
        let all = self.get_recognized_extensions();
        has_word(&all, ext)
    }
}

impl FakeResourceImporter for FakeResourceImporterImageFont {
    open spec fn importers(&self) -> Seq<Seq<char>> {
        seq!["font_data_image"@]
    }

    open spec fn extensions(&self) -> Seq<Seq<char>> {
        font_extensions()
    }

    /// Files are left to the other importers.
    open spec fn takes(&self, ext: Seq<char>) -> bool {
        false
    }

    fn get_recognized_importers(&self) -> (r: Vec<&'static str>) {
        let r: Vec<&'static str> = vec!["font_data_image"];
        assert(words(r@) =~= self.importers());
        r
    }

    fn get_recognized_extensions(&self) -> (r: Vec<&'static str>) {
        recognized_font_extensions()
    }

    fn takes_extension(&self, _ext: &str) -> (r: bool) {
        false
    }
}

impl FakeResourceImporter for FakeResourceImporterSVG {
    open spec fn importers(&self) -> Seq<Seq<char>> {
        seq!["svg"@]
    }

    open spec fn extensions(&self) -> Seq<Seq<char>> {
        seq!["svg"@]
    }

    open spec fn takes(&self, ext: Seq<char>) -> bool {
        self.extensions().contains(ext)
    }

    fn get_recognized_importers(&self) -> (r: Vec<&'static str>) {
        let r: Vec<&'static str> = vec!["svg"];
        assert(words(r@) =~= self.importers());
        r
    }

    fn get_recognized_extensions(&self) -> (r: Vec<&'static str>) {
        let r: Vec<&'static str> = vec!["svg"];
        assert(words(r@) =~= self.extensions());
        r
    }

    fn takes_extension(&self, ext: &str) -> (r: bool) {
        let all = self.get_recognized_extensions();
        has_word(&all, ext)
    }
}

impl FakeResourceImporter for FakeResourceImporterOBJ {
    open spec fn importers(&self) -> Seq<Seq<char>> {
        seq!["wavefront_obj"@]
    }

    open spec fn extensions(&self) -> Seq<Seq<char>> {
        seq!["obj"@]
    }

    open spec fn takes(&self, ext: Seq<char>) -> bool {
        self.extensions().contains(ext)
    }

    fn get_recognized_importers(&self) -> (r: Vec<&'static str>) {
        let r: Vec<&'static str> = vec!["wavefront_obj"];
        assert(words(r@) =~= self.importers());
        r
    }

    fn get_recognized_extensions(&self) -> (r: Vec<&'static str>) {
        let r: Vec<&'static str> = vec!["obj"];
        assert(words(r@) =~= self.extensions());
        r
    }

    fn takes_extension(&self, ext: &str) -> (r: bool) {
        let all = self.get_recognized_extensions();
        has_word(&all, ext)
    }
}

impl FakeResourceImporter for FakeResourceImporterScene {
    open spec fn importers(&self) -> Seq<Seq<char>> {
        seq!["scene"@, "animation_library"@]
    }

    open spec fn extensions(&self) -> Seq<Seq<char>> {
        seq!["escn"@, "glb"@, "gltf"@, "fbx"@, "blend"@, "dae"@]
    }

    open spec fn takes(&self, ext: Seq<char>) -> bool {
        self.extensions().contains(ext)
    }

    fn get_recognized_importers(&self) -> (r: Vec<&'static str>) {
        let r: Vec<&'static str> = vec!["scene", "animation_library"];
        assert(words(r@) =~= self.importers());
        r
    }

    fn get_recognized_extensions(&self) -> (r: Vec<&'static str>) {
        let r: Vec<&'static str> = vec!["escn", "glb", "gltf", "fbx", "blend", "dae"];
        assert(words(r@) =~= self.extensions());
        r
    }

    fn takes_extension(&self, ext: &str) -> (r: bool) {
        let all = self.get_recognized_extensions();
        has_word(&all, ext)
    }
}

impl FakeResourceImporter for FakeResourceImporterTextureAtlas {
    open spec fn importers(&self) -> Seq<Seq<char>> {
        seq!["texture_atlas"@]
    }

    open spec fn extensions(&self) -> Seq<Seq<char>> {
        seq!["texture_atlas"@]
    }

    open spec fn takes(&self, ext: Seq<char>) -> bool {
        self.extensions().contains(ext)
    }

    fn get_recognized_importers(&self) -> (r: Vec<&'static str>) {
        let r: Vec<&'static str> = vec!["texture_atlas"];
        assert(words(r@) =~= self.importers());
        r
    }

    fn get_recognized_extensions(&self) -> (r: Vec<&'static str>) {
        let r: Vec<&'static str> = vec!["texture_atlas"];
        assert(words(r@) =~= self.extensions());
        r
    }

    fn takes_extension(&self, ext: &str) -> (r: bool) {
        let all = self.get_recognized_extensions();
        has_word(&all, ext)
    }
}

/// One of the importers.
#[derive(Clone, Copy, Debug, PartialEq, Eq, Structural)]
pub enum ImporterKind {
    Texture,
    LayeredTexture,
    MP3,
    OggVorbis,
    WAV,
    BMFont,
    DynamicFont,
    ImageFont,
    SVG,
    OBJ,
    Scene,
    TextureAtlas,
}

impl ImporterKind {
    /// The names that the importer goes by.
    pub open spec fn importers(self) -> Seq<Seq<char>> {
        match self {
            ImporterKind::Texture => (FakeResourceImporterTexture {  }).importers(),
            ImporterKind::LayeredTexture => (FakeResourceImporterLayeredTexture {  }).importers(),
            ImporterKind::MP3 => (FakeResourceImporterMP3 {  }).importers(),
            ImporterKind::OggVorbis => (FakeResourceImporterOggVorbis {  }).importers(),
            ImporterKind::WAV => (FakeResourceImporterWAV {  }).importers(),
            ImporterKind::BMFont => (FakeResourceImporterBMFont {  }).importers(),
            ImporterKind::DynamicFont => (FakeResourceImporterDynamicFont {  }).importers(),
            ImporterKind::ImageFont => (FakeResourceImporterImageFont {  }).importers(),
            ImporterKind::SVG => (FakeResourceImporterSVG {  }).importers(),
            ImporterKind::OBJ => (FakeResourceImporterOBJ {  }).importers(),
            ImporterKind::Scene => (FakeResourceImporterScene {  }).importers(),
            ImporterKind::TextureAtlas => (FakeResourceImporterTextureAtlas {  }).importers(),
        }
    }

    /// The importer takes files with this extension, where none is asked for by name.
    pub open spec fn takes(self, ext: Seq<char>) -> bool {
        match self {
            ImporterKind::Texture => (FakeResourceImporterTexture {  }).takes(ext),
            ImporterKind::LayeredTexture => (FakeResourceImporterLayeredTexture {  }).takes(ext),
            ImporterKind::MP3 => (FakeResourceImporterMP3 {  }).takes(ext),
            ImporterKind::OggVorbis => (FakeResourceImporterOggVorbis {  }).takes(ext),
            ImporterKind::WAV => (FakeResourceImporterWAV {  }).takes(ext),
            ImporterKind::BMFont => (FakeResourceImporterBMFont {  }).takes(ext),
            ImporterKind::DynamicFont => (FakeResourceImporterDynamicFont {  }).takes(ext),
            ImporterKind::ImageFont => (FakeResourceImporterImageFont {  }).takes(ext),
            ImporterKind::SVG => (FakeResourceImporterSVG {  }).takes(ext),
            ImporterKind::OBJ => (FakeResourceImporterOBJ {  }).takes(ext),
            ImporterKind::Scene => (FakeResourceImporterScene {  }).takes(ext),
            ImporterKind::TextureAtlas => (FakeResourceImporterTextureAtlas {  }).takes(ext),
        }
    }

    /// The importer is the one that is asked for by name or, where none is, takes files with
    /// this extension.
    pub open spec fn recognizes(self, ext: Seq<char>, importer_name: Option<Seq<char>>) -> bool {
        match importer_name {
            Some(name) => self.importers().contains(name),
            None => self.takes(ext),
        }
    }

    /// Whether the importer is the one that is asked for by name or, where none is, takes the
    /// file.
    pub fn recognize(&self, path: &str, importer_name: Option<&str>) -> (r: bool)
        ensures
            r == self.recognizes(lower_extension(path@), text_in(importer_name)),
    {
        match self {
            ImporterKind::Texture => (FakeResourceImporterTexture {  }).recognize(path,
                importer_name),
            ImporterKind::LayeredTexture => (FakeResourceImporterLayeredTexture {  }).recognize(path,
                importer_name),
            ImporterKind::MP3 => (FakeResourceImporterMP3 {  }).recognize(path, importer_name),
            ImporterKind::OggVorbis => (FakeResourceImporterOggVorbis {  }).recognize(path,
                importer_name),
            ImporterKind::WAV => (FakeResourceImporterWAV {  }).recognize(path, importer_name),
            ImporterKind::BMFont => (FakeResourceImporterBMFont {  }).recognize(path,
                importer_name),
            ImporterKind::DynamicFont => (FakeResourceImporterDynamicFont {  }).recognize(path,
                importer_name),
            ImporterKind::ImageFont => (FakeResourceImporterImageFont {  }).recognize(path,
                importer_name),
            ImporterKind::SVG => (FakeResourceImporterSVG {  }).recognize(path, importer_name),
            ImporterKind::OBJ => (FakeResourceImporterOBJ {  }).recognize(path, importer_name),
            ImporterKind::Scene => (FakeResourceImporterScene {  }).recognize(path, importer_name),
            ImporterKind::TextureAtlas => (FakeResourceImporterTextureAtlas {  }).recognize(path,
                importer_name),
        }
    }

    /// The name that the importer goes by where none is asked for.
    pub fn first_name(&self) -> (r: String)
        ensures
            r@ == self.importers()[0],
    {
        let names = match self {
            ImporterKind::Texture => (FakeResourceImporterTexture {  }).get_recognized_importers(),
            ImporterKind::LayeredTexture => (FakeResourceImporterLayeredTexture {  }).get_recognized_importers(),
            ImporterKind::MP3 => (FakeResourceImporterMP3 {  }).get_recognized_importers(),
            ImporterKind::OggVorbis => (FakeResourceImporterOggVorbis {  }).get_recognized_importers(),
            ImporterKind::WAV => (FakeResourceImporterWAV {  }).get_recognized_importers(),
            ImporterKind::BMFont => (FakeResourceImporterBMFont {  }).get_recognized_importers(),
            ImporterKind::DynamicFont => (FakeResourceImporterDynamicFont {  }).get_recognized_importers(),
            ImporterKind::ImageFont => (FakeResourceImporterImageFont {  }).get_recognized_importers(),
            ImporterKind::SVG => (FakeResourceImporterSVG {  }).get_recognized_importers(),
            ImporterKind::OBJ => (FakeResourceImporterOBJ {  }).get_recognized_importers(),
            ImporterKind::Scene => (FakeResourceImporterScene {  }).get_recognized_importers(),
            ImporterKind::TextureAtlas => (FakeResourceImporterTextureAtlas {  }).get_recognized_importers(),
        };
        assert(names@.len() == words(names@).len());
        assert(words(names@)[0] == names@[0]@);
        names[0].to_owned()
    }
}

/// All importers, in the order in which they are asked.
pub open spec fn all_importers() -> Seq<ImporterKind> {
    seq![
        ImporterKind::Texture,
        ImporterKind::LayeredTexture,
        ImporterKind::MP3,
        ImporterKind::OggVorbis,
        ImporterKind::WAV,
        ImporterKind::BMFont,
        ImporterKind::DynamicFont,
        ImporterKind::ImageFont,
        ImporterKind::SVG,
        ImporterKind::OBJ,
        ImporterKind::Scene,
        ImporterKind::TextureAtlas,
    ]
}

/// The first importer that recognizes a file.
pub open spec fn first_importer(
    importers: Seq<ImporterKind>,
    ext: Seq<char>,
    importer_name: Option<Seq<char>>,
) -> Option<ImporterKind>
    decreases importers.len(),
{
    if importers.len() == 0 {
        None
    } else if importers[0].recognizes(ext, importer_name) {
        Some(importers[0])
    } else {
        first_importer(importers.skip(1), ext, importer_name)
    }
}

/// All importers together.
pub struct FakeImporter {
    importers: Vec<ImporterKind>,
}

impl View for FakeImporter {
    type V = Seq<ImporterKind>;

    closed spec fn view(&self) -> Seq<ImporterKind> {
        self.importers@
    }
}

impl Default for FakeImporter {
    fn default() -> (r: FakeImporter)
        ensures
            r@ == all_importers(),
    {
        let importers: Vec<ImporterKind> = vec![
            ImporterKind::Texture,
            ImporterKind::LayeredTexture,
            ImporterKind::MP3,
            ImporterKind::OggVorbis,
            ImporterKind::WAV,
            ImporterKind::BMFont,
            ImporterKind::DynamicFont,
            ImporterKind::ImageFont,
            ImporterKind::SVG,
            ImporterKind::OBJ,
            ImporterKind::Scene,
            ImporterKind::TextureAtlas,
        ];
        assert(importers@ =~= all_importers());
        FakeImporter { importers }
    }
}

impl FakeImporter {
    /// The first importer that recognizes a file.
    fn find(&self, path: &str, importer_name: Option<&str>) -> (r: Option<ImporterKind>)
        ensures
            r == first_importer(self@, lower_extension(path@), text_in(importer_name)),
    {
        let mut i: usize = 0;
        assert(self.importers@.skip(0) == self.importers@);
        while i < self.importers.len()
            invariant
                i <= self.importers.len(),
                first_importer(self@, lower_extension(path@), text_in(importer_name))
                    == first_importer(
                    self.importers@.skip(i as int),
                    lower_extension(path@),
                    text_in(importer_name),
                ),
            decreases self.importers.len() - i,
        {
            let kind = self.importers[i];
            if kind.recognize(path, importer_name) {
                return Some(kind);
            }
            assert(self.importers@.skip(i as int).skip(1) == self.importers@.skip(i + 1));
            i = i + 1;
        }
        None
    }

    /// Whether some importer recognizes a file.
    pub fn recognize(&self, path: &str, importer_name: Option<&str>) -> (r: bool)
        ensures
            r == (first_importer(self@, lower_extension(path@), text_in(importer_name)) is Some),
    {
        self.find(path, importer_name).is_some()
    }

    /// The importer for a file, and the name under which it is to work; an error where no
    /// importer recognizes the file.
    pub fn import_file(&self, path: &str, importer_name: Option<&str>) -> (r: Result<
        (ImporterKind, String),
        GodotError,
    >)
        ensures
            match first_importer(self@, lower_extension(path@), text_in(importer_name)) {
                Some(kind) => r matches Ok((k, name)) && k == kind && name@ == (
                match text_in(importer_name) {
                    Some(n) => n,
                    None => kind.importers()[0],
                }),
                None => r == Err::<(ImporterKind, String), GodotError>(GodotError::CantCreate),
            },
    {
        match self.find(path, importer_name) {
            Some(kind) => {
                let name = match importer_name {
                    Some(n) => n.to_owned(),
                    None => kind.first_name(),
                };
                Ok((kind, name))
            },
            None => Err(GodotError::CantCreate),
        }
    }
}

/// A file is imported only if it is recognized: what `import_file` finds no importer for is what
/// `recognize` refuses.
pub proof fn recognized_files_have_importers(
    importers: Seq<ImporterKind>,
    ext: Seq<char>,
    importer_name: Option<Seq<char>>,
)
    ensures
        first_importer(importers, ext, importer_name) is Some <==> exists|i: int|
            0 <= i < importers.len() && #[trigger] importers[i].recognizes(ext, importer_name),
        first_importer(importers, ext, importer_name) matches Some(kind) ==> kind.recognizes(
            ext,
            importer_name,
        ),
    decreases importers.len(),
{
    if importers.len() > 0 {
        recognized_files_have_importers(importers.skip(1), ext, importer_name);
        assert forall|i: int| 0 < i < importers.len() implies importers[i] == importers.skip(
            1,
        )[i - 1] by {}
        if !importers[0].recognizes(ext, importer_name) {
            if first_importer(importers, ext, importer_name) is Some {
                let i = choose|i: int|
                    0 <= i < importers.skip(1).len() && #[trigger] importers.skip(
                        1,
                    )[i].recognizes(ext, importer_name);
                assert(importers[i + 1].recognizes(ext, importer_name));
            }
            if exists|i: int|
                0 <= i < importers.len() && #[trigger] importers[i].recognizes(
                    ext,
                    importer_name,
                ) {
                let i = choose|i: int|
                    0 <= i < importers.len() && #[trigger] importers[i].recognizes(
                        ext,
                        importer_name,
                    );
                assert(importers.skip(1)[i - 1].recognizes(ext, importer_name));
            }
        }
    }
}

/// Which importer takes a file by its extension, where none is asked for by name: images, sounds,
/// fonts, drawings, models and scenes each go to their own, and any other file to none.
pub proof fn every_extension_has_its_importer(ext: Seq<char>)
    ensures
        first_importer(all_importers(), ext, None) == Some(ImporterKind::Texture) <==> (ext
            == "png"@ || ext == "jpg"@ || ext == "jpeg"@ || ext == "webp"@ || ext == "tga"@ || ext
            == "bmp"@ || ext == "dds"@ || ext == "hdr"@ || ext == "exr"@),
        first_importer(all_importers(), ext, None) == Some(ImporterKind::MP3) <==> (ext == "mp3"@),
        first_importer(all_importers(), ext, None) == Some(ImporterKind::OggVorbis) <==> (ext
            == "ogg"@),
        first_importer(all_importers(), ext, None) == Some(ImporterKind::WAV) <==> (ext == "wav"@),
        first_importer(all_importers(), ext, None) == Some(ImporterKind::BMFont) <==> (ext
            == "fnt"@ || ext == "font"@),
        first_importer(all_importers(), ext, None) == Some(ImporterKind::DynamicFont) <==> (ext
            == "ttf"@ || ext == "ttc"@ || ext == "otf"@ || ext == "otc"@ || ext == "woff"@ || ext
            == "woff2"@ || ext == "pfb"@ || ext == "pfm"@),
        first_importer(all_importers(), ext, None) == Some(ImporterKind::SVG) <==> (ext == "svg"@),
        first_importer(all_importers(), ext, None) == Some(ImporterKind::OBJ) <==> (ext == "obj"@),
        first_importer(all_importers(), ext, None) == Some(ImporterKind::Scene) <==> (ext
            == "escn"@ || ext == "glb"@ || ext == "gltf"@ || ext == "fbx"@ || ext == "blend"@
            || ext == "dae"@),
        first_importer(all_importers(), ext, None) == Some(ImporterKind::TextureAtlas) <==> (ext
            == "texture_atlas"@),
        first_importer(all_importers(), ext, None) != Some(ImporterKind::LayeredTexture),
        first_importer(all_importers(), ext, None) != Some(ImporterKind::ImageFont),
{
    lemma_extensions_differ(ext);
    lemma_takers(ext);
    lemma_all_asked(ext, None);
}

/// Which extensions each importer takes.
proof fn lemma_takers(ext: Seq<char>)
    ensures
        ImporterKind::Texture.takes(ext) <==> (ext == "png"@ || ext == "jpg"@ || ext == "jpeg"@
            || ext == "webp"@ || ext == "tga"@ || ext == "bmp"@ || ext == "dds"@ || ext == "hdr"@
            || ext == "exr"@),
        ImporterKind::MP3.takes(ext) <==> (ext == "mp3"@),
        ImporterKind::OggVorbis.takes(ext) <==> (ext == "ogg"@),
        ImporterKind::WAV.takes(ext) <==> (ext == "wav"@),
        ImporterKind::BMFont.takes(ext) <==> (ext == "fnt"@ || ext == "font"@),
        ImporterKind::DynamicFont.takes(ext) <==> (ext == "ttf"@ || ext == "ttc"@ || ext == "otf"@
            || ext == "otc"@ || ext == "woff"@ || ext == "woff2"@ || ext == "pfb"@ || ext
            == "pfm"@),
        ImporterKind::SVG.takes(ext) <==> (ext == "svg"@),
        ImporterKind::OBJ.takes(ext) <==> (ext == "obj"@),
        ImporterKind::Scene.takes(ext) <==> (ext == "escn"@ || ext == "glb"@ || ext == "gltf"@
            || ext == "fbx"@ || ext == "blend"@ || ext == "dae"@),
        ImporterKind::TextureAtlas.takes(ext) <==> (ext == "texture_atlas"@),
        !ImporterKind::LayeredTexture.takes(ext),
        !ImporterKind::ImageFont.takes(ext),
{
    reveal_strlit("svg");
    reveal_strlit("png");
    reveal_strlit("jpg");
    reveal_strlit("jpeg");
    reveal_strlit("webp");
    reveal_strlit("tga");
    reveal_strlit("bmp");
    reveal_strlit("dds");
    reveal_strlit("hdr");
    reveal_strlit("exr");
    let images = image_extensions();
    assert(images[0] == "png"@);
    assert(images[1] == "jpg"@);
    assert(images[2] == "jpeg"@);
    assert(images[3] == "webp"@);
    assert(images[4] == "tga"@);
    assert(images[5] == "svg"@);
    assert(images[6] == "bmp"@);
    assert(images[7] == "dds"@);
    assert(images[8] == "hdr"@);
    assert(images[9] == "exr"@);
    assert("svg"@[1] == 'v');
    assert("png"@ != "svg"@) by {
        assert("png"@[1] == 'n');
    }
    assert("jpg"@ != "svg"@) by {
        assert("jpg"@[1] == 'p');
    }
    assert("jpeg"@ != "svg"@) by {
        assert("jpeg"@[1] == 'p');
    }
    assert("webp"@ != "svg"@) by {
        assert("webp"@[1] == 'e');
    }
    assert("tga"@ != "svg"@) by {
        assert("tga"@[1] == 'g');
    }
    assert("bmp"@ != "svg"@) by {
        assert("bmp"@[1] == 'm');
    }
    assert("dds"@ != "svg"@) by {
        assert("dds"@[1] == 'd');
    }
    assert("hdr"@ != "svg"@) by {
        assert("hdr"@[1] == 'd');
    }
    assert("exr"@ != "svg"@) by {
        assert("exr"@[1] == 'x');
    }
    let fonts = font_extensions();
    assert(fonts[0] == "ttf"@);
    assert(fonts[1] == "ttc"@);
    assert(fonts[2] == "otf"@);
    assert(fonts[3] == "otc"@);
    assert(fonts[4] == "woff"@);
    assert(fonts[5] == "woff2"@);
    assert(fonts[6] == "pfb"@);
    assert(fonts[7] == "pfm"@);
    assert((FakeResourceImporterMP3 {  }).extensions()[0] == "mp3"@);
    assert((FakeResourceImporterOggVorbis {  }).extensions()[0] == "ogg"@);
    assert((FakeResourceImporterWAV {  }).extensions()[0] == "wav"@);
    assert((FakeResourceImporterBMFont {  }).extensions()[0] == "fnt"@);
    assert((FakeResourceImporterBMFont {  }).extensions()[1] == "font"@);
    assert((FakeResourceImporterSVG {  }).extensions()[0] == "svg"@);
    assert((FakeResourceImporterOBJ {  }).extensions()[0] == "obj"@);
    assert((FakeResourceImporterScene {  }).extensions()[0] == "escn"@);
    assert((FakeResourceImporterScene {  }).extensions()[1] == "glb"@);
    assert((FakeResourceImporterScene {  }).extensions()[2] == "gltf"@);
    assert((FakeResourceImporterScene {  }).extensions()[3] == "fbx"@);
    assert((FakeResourceImporterScene {  }).extensions()[4] == "blend"@);
    assert((FakeResourceImporterScene {  }).extensions()[5] == "dae"@);
    assert((FakeResourceImporterTextureAtlas {  }).extensions()[0] == "texture_atlas"@);
}

/// No extension stands for two importers.
proof fn lemma_extensions_differ(ext: Seq<char>)
    ensures
        (ext == "png"@ || ext == "jpg"@ || ext == "jpeg"@ || ext == "webp"@ || ext == "tga"@
            || ext == "bmp"@ || ext == "dds"@ || ext == "hdr"@ || ext == "exr"@) ==> !(ext
            == "mp3"@ || ext == "ogg"@ || ext == "wav"@ || ext == "fnt"@ || ext == "font"@ || ext
            == "ttf"@ || ext == "ttc"@ || ext == "otf"@ || ext == "otc"@ || ext == "woff"@ || ext
            == "woff2"@ || ext == "pfb"@ || ext == "pfm"@ || ext == "svg"@ || ext == "obj"@ || ext
            == "escn"@ || ext == "glb"@ || ext == "gltf"@ || ext == "fbx"@ || ext == "blend"@
            || ext == "dae"@ || ext == "texture_atlas"@),
        (ext == "mp3"@) ==> !(ext == "ogg"@ || ext == "wav"@ || ext == "fnt"@ || ext == "font"@
            || ext == "ttf"@ || ext == "ttc"@ || ext == "otf"@ || ext == "otc"@ || ext == "woff"@
            || ext == "woff2"@ || ext == "pfb"@ || ext == "pfm"@ || ext == "svg"@ || ext == "obj"@
            || ext == "escn"@ || ext == "glb"@ || ext == "gltf"@ || ext == "fbx"@ || ext
            == "blend"@ || ext == "dae"@ || ext == "texture_atlas"@),
        (ext == "ogg"@) ==> !(ext == "wav"@ || ext == "fnt"@ || ext == "font"@ || ext == "ttf"@
            || ext == "ttc"@ || ext == "otf"@ || ext == "otc"@ || ext == "woff"@ || ext
            == "woff2"@ || ext == "pfb"@ || ext == "pfm"@ || ext == "svg"@ || ext == "obj"@ || ext
            == "escn"@ || ext == "glb"@ || ext == "gltf"@ || ext == "fbx"@ || ext == "blend"@
            || ext == "dae"@ || ext == "texture_atlas"@),
        (ext == "wav"@) ==> !(ext == "fnt"@ || ext == "font"@ || ext == "ttf"@ || ext == "ttc"@
            || ext == "otf"@ || ext == "otc"@ || ext == "woff"@ || ext == "woff2"@ || ext
            == "pfb"@ || ext == "pfm"@ || ext == "svg"@ || ext == "obj"@ || ext == "escn"@ || ext
            == "glb"@ || ext == "gltf"@ || ext == "fbx"@ || ext == "blend"@ || ext == "dae"@
            || ext == "texture_atlas"@),
        (ext == "fnt"@ || ext == "font"@) ==> !(ext == "ttf"@ || ext == "ttc"@ || ext == "otf"@
            || ext == "otc"@ || ext == "woff"@ || ext == "woff2"@ || ext == "pfb"@ || ext
            == "pfm"@ || ext == "svg"@ || ext == "obj"@ || ext == "escn"@ || ext == "glb"@ || ext
            == "gltf"@ || ext == "fbx"@ || ext == "blend"@ || ext == "dae"@ || ext
            == "texture_atlas"@),
        (ext == "ttf"@ || ext == "ttc"@ || ext == "otf"@ || ext == "otc"@ || ext == "woff"@ || ext
            == "woff2"@ || ext == "pfb"@ || ext == "pfm"@) ==> !(ext == "svg"@ || ext == "obj"@
            || ext == "escn"@ || ext == "glb"@ || ext == "gltf"@ || ext == "fbx"@ || ext
            == "blend"@ || ext == "dae"@ || ext == "texture_atlas"@),
        (ext == "svg"@) ==> !(ext == "obj"@ || ext == "escn"@ || ext == "glb"@ || ext == "gltf"@
            || ext == "fbx"@ || ext == "blend"@ || ext == "dae"@ || ext == "texture_atlas"@),
        (ext == "obj"@) ==> !(ext == "escn"@ || ext == "glb"@ || ext == "gltf"@ || ext == "fbx"@
            || ext == "blend"@ || ext == "dae"@ || ext == "texture_atlas"@),
        (ext == "escn"@ || ext == "glb"@ || ext == "gltf"@ || ext == "fbx"@ || ext == "blend"@
            || ext == "dae"@) ==> !(ext == "texture_atlas"@),
{
    reveal_strlit("png");
    reveal_strlit("jpg");
    reveal_strlit("jpeg");
    reveal_strlit("webp");
    reveal_strlit("tga");
    reveal_strlit("bmp");
    reveal_strlit("dds");
    reveal_strlit("hdr");
    reveal_strlit("exr");
    reveal_strlit("mp3");
    reveal_strlit("ogg");
    reveal_strlit("wav");
    reveal_strlit("fnt");
    reveal_strlit("font");
    reveal_strlit("ttf");
    reveal_strlit("ttc");
    reveal_strlit("otf");
    reveal_strlit("otc");
    reveal_strlit("woff");
    reveal_strlit("woff2");
    reveal_strlit("pfb");
    reveal_strlit("pfm");
    reveal_strlit("svg");
    reveal_strlit("obj");
    reveal_strlit("escn");
    reveal_strlit("glb");
    reveal_strlit("gltf");
    reveal_strlit("fbx");
    reveal_strlit("blend");
    reveal_strlit("dae");
    reveal_strlit("texture_atlas");
    assert("png"@.len() == 3 && "png"@[0] == 'p' && "png"@[1] == 'n' && "png"@[2] == 'g');
    assert("jpg"@.len() == 3 && "jpg"@[0] == 'j' && "jpg"@[1] == 'p' && "jpg"@[2] == 'g');
    assert("jpeg"@.len() == 4 && "jpeg"@[0] == 'j' && "jpeg"@[1] == 'p' && "jpeg"@[2] == 'e');
    assert("webp"@.len() == 4 && "webp"@[0] == 'w' && "webp"@[1] == 'e' && "webp"@[2] == 'b');
    assert("tga"@.len() == 3 && "tga"@[0] == 't' && "tga"@[1] == 'g' && "tga"@[2] == 'a');
    assert("bmp"@.len() == 3 && "bmp"@[0] == 'b' && "bmp"@[1] == 'm' && "bmp"@[2] == 'p');
    assert("dds"@.len() == 3 && "dds"@[0] == 'd' && "dds"@[1] == 'd' && "dds"@[2] == 's');
    assert("hdr"@.len() == 3 && "hdr"@[0] == 'h' && "hdr"@[1] == 'd' && "hdr"@[2] == 'r');
    assert("exr"@.len() == 3 && "exr"@[0] == 'e' && "exr"@[1] == 'x' && "exr"@[2] == 'r');
    assert("mp3"@.len() == 3 && "mp3"@[0] == 'm' && "mp3"@[1] == 'p' && "mp3"@[2] == '3');
    assert("ogg"@.len() == 3 && "ogg"@[0] == 'o' && "ogg"@[1] == 'g' && "ogg"@[2] == 'g');
    assert("wav"@.len() == 3 && "wav"@[0] == 'w' && "wav"@[1] == 'a' && "wav"@[2] == 'v');
    assert("fnt"@.len() == 3 && "fnt"@[0] == 'f' && "fnt"@[1] == 'n' && "fnt"@[2] == 't');
    assert("font"@.len() == 4 && "font"@[0] == 'f' && "font"@[1] == 'o' && "font"@[2] == 'n');
    assert("ttf"@.len() == 3 && "ttf"@[0] == 't' && "ttf"@[1] == 't' && "ttf"@[2] == 'f');
    assert("ttc"@.len() == 3 && "ttc"@[0] == 't' && "ttc"@[1] == 't' && "ttc"@[2] == 'c');
    assert("otf"@.len() == 3 && "otf"@[0] == 'o' && "otf"@[1] == 't' && "otf"@[2] == 'f');
    assert("otc"@.len() == 3 && "otc"@[0] == 'o' && "otc"@[1] == 't' && "otc"@[2] == 'c');
    assert("woff"@.len() == 4 && "woff"@[0] == 'w' && "woff"@[1] == 'o' && "woff"@[2] == 'f');
    assert("woff2"@.len() == 5 && "woff2"@[0] == 'w' && "woff2"@[1] == 'o' && "woff2"@[2] == 'f');
    assert("pfb"@.len() == 3 && "pfb"@[0] == 'p' && "pfb"@[1] == 'f' && "pfb"@[2] == 'b');
    assert("pfm"@.len() == 3 && "pfm"@[0] == 'p' && "pfm"@[1] == 'f' && "pfm"@[2] == 'm');
    assert("svg"@.len() == 3 && "svg"@[0] == 's' && "svg"@[1] == 'v' && "svg"@[2] == 'g');
    assert("obj"@.len() == 3 && "obj"@[0] == 'o' && "obj"@[1] == 'b' && "obj"@[2] == 'j');
    assert("escn"@.len() == 4 && "escn"@[0] == 'e' && "escn"@[1] == 's' && "escn"@[2] == 'c');
    assert("glb"@.len() == 3 && "glb"@[0] == 'g' && "glb"@[1] == 'l' && "glb"@[2] == 'b');
    assert("gltf"@.len() == 4 && "gltf"@[0] == 'g' && "gltf"@[1] == 'l' && "gltf"@[2] == 't');
    assert("fbx"@.len() == 3 && "fbx"@[0] == 'f' && "fbx"@[1] == 'b' && "fbx"@[2] == 'x');
    assert("blend"@.len() == 5 && "blend"@[0] == 'b' && "blend"@[1] == 'l' && "blend"@[2] == 'e');
    assert("dae"@.len() == 3 && "dae"@[0] == 'd' && "dae"@[1] == 'a' && "dae"@[2] == 'e');
    assert("texture_atlas"@.len() == 13 && "texture_atlas"@[0] == 't' && "texture_atlas"@[1]
        == 'e' && "texture_atlas"@[2] == 'x');
}

/// The importers are asked one after the other.
proof fn lemma_all_asked(ext: Seq<char>, name: Option<Seq<char>>)
    ensures
        first_importer(all_importers(), ext, name) == (
        if ImporterKind::Texture.recognizes(ext, name) {
            Some(ImporterKind::Texture)
        } else if ImporterKind::LayeredTexture.recognizes(ext, name) {
            Some(ImporterKind::LayeredTexture)
        } else if ImporterKind::MP3.recognizes(ext, name) {
            Some(ImporterKind::MP3)
        } else if ImporterKind::OggVorbis.recognizes(ext, name) {
            Some(ImporterKind::OggVorbis)
        } else if ImporterKind::WAV.recognizes(ext, name) {
            Some(ImporterKind::WAV)
        } else if ImporterKind::BMFont.recognizes(ext, name) {
            Some(ImporterKind::BMFont)
        } else if ImporterKind::DynamicFont.recognizes(ext, name) {
            Some(ImporterKind::DynamicFont)
        } else if ImporterKind::ImageFont.recognizes(ext, name) {
            Some(ImporterKind::ImageFont)
        } else if ImporterKind::SVG.recognizes(ext, name) {
            Some(ImporterKind::SVG)
        } else if ImporterKind::OBJ.recognizes(ext, name) {
            Some(ImporterKind::OBJ)
        } else if ImporterKind::Scene.recognizes(ext, name) {
            Some(ImporterKind::Scene)
        } else if ImporterKind::TextureAtlas.recognizes(ext, name) {
            Some(ImporterKind::TextureAtlas)
        } else {
            None
        }),
{
    let all = all_importers();
    assert(first_importer(all.skip(0), ext, name) == (if ImporterKind::Texture.recognizes(ext,
        name) {
        Some(ImporterKind::Texture)
    } else {
        first_importer(all.skip(1), ext, name)
    })) by {
        assert(all.skip(0)[0] == ImporterKind::Texture);
        assert(all.skip(0).skip(1) == all.skip(1));
    }
    assert(first_importer(all.skip(1), ext, name)
        == (if ImporterKind::LayeredTexture.recognizes(ext, name) {
        Some(ImporterKind::LayeredTexture)
    } else {
        first_importer(all.skip(2), ext, name)
    })) by {
        assert(all.skip(1)[0] == ImporterKind::LayeredTexture);
        assert(all.skip(1).skip(1) == all.skip(2));
    }
    assert(first_importer(all.skip(2), ext, name) == (if ImporterKind::MP3.recognizes(ext, name) {
        Some(ImporterKind::MP3)
    } else {
        first_importer(all.skip(3), ext, name)
    })) by {
        assert(all.skip(2)[0] == ImporterKind::MP3);
        assert(all.skip(2).skip(1) == all.skip(3));
    }
    assert(first_importer(all.skip(3), ext, name) == (if ImporterKind::OggVorbis.recognizes(ext,
        name) {
        Some(ImporterKind::OggVorbis)
    } else {
        first_importer(all.skip(4), ext, name)
    })) by {
        assert(all.skip(3)[0] == ImporterKind::OggVorbis);
        assert(all.skip(3).skip(1) == all.skip(4));
    }
    assert(first_importer(all.skip(4), ext, name) == (if ImporterKind::WAV.recognizes(ext, name) {
        Some(ImporterKind::WAV)
    } else {
        first_importer(all.skip(5), ext, name)
    })) by {
        assert(all.skip(4)[0] == ImporterKind::WAV);
        assert(all.skip(4).skip(1) == all.skip(5));
    }
    assert(first_importer(all.skip(5), ext, name) == (if ImporterKind::BMFont.recognizes(ext,
        name) {
        Some(ImporterKind::BMFont)
    } else {
        first_importer(all.skip(6), ext, name)
    })) by {
        assert(all.skip(5)[0] == ImporterKind::BMFont);
        assert(all.skip(5).skip(1) == all.skip(6));
    }
    assert(first_importer(all.skip(6), ext, name)
        == (if ImporterKind::DynamicFont.recognizes(ext, name) {
        Some(ImporterKind::DynamicFont)
    } else {
        first_importer(all.skip(7), ext, name)
    })) by {
        assert(all.skip(6)[0] == ImporterKind::DynamicFont);
        assert(all.skip(6).skip(1) == all.skip(7));
    }
    assert(first_importer(all.skip(7), ext, name) == (if ImporterKind::ImageFont.recognizes(ext,
        name) {
        Some(ImporterKind::ImageFont)
    } else {
        first_importer(all.skip(8), ext, name)
    })) by {
        assert(all.skip(7)[0] == ImporterKind::ImageFont);
        assert(all.skip(7).skip(1) == all.skip(8));
    }
    assert(first_importer(all.skip(8), ext, name) == (if ImporterKind::SVG.recognizes(ext, name) {
        Some(ImporterKind::SVG)
    } else {
        first_importer(all.skip(9), ext, name)
    })) by {
        assert(all.skip(8)[0] == ImporterKind::SVG);
        assert(all.skip(8).skip(1) == all.skip(9));
    }
    assert(first_importer(all.skip(9), ext, name) == (if ImporterKind::OBJ.recognizes(ext, name) {
        Some(ImporterKind::OBJ)
    } else {
        first_importer(all.skip(10), ext, name)
    })) by {
        assert(all.skip(9)[0] == ImporterKind::OBJ);
        assert(all.skip(9).skip(1) == all.skip(10));
    }
    assert(first_importer(all.skip(10), ext, name) == (if ImporterKind::Scene.recognizes(ext,
        name) {
        Some(ImporterKind::Scene)
    } else {
        first_importer(all.skip(11), ext, name)
    })) by {
        assert(all.skip(10)[0] == ImporterKind::Scene);
        assert(all.skip(10).skip(1) == all.skip(11));
    }
    assert(first_importer(all.skip(11), ext, name)
        == (if ImporterKind::TextureAtlas.recognizes(ext, name) {
        Some(ImporterKind::TextureAtlas)
    } else {
        first_importer(all.skip(12), ext, name)
    })) by {
        assert(all.skip(11)[0] == ImporterKind::TextureAtlas);
        assert(all.skip(11).skip(1) == all.skip(12));
    }
    assert(all.skip(0) == all);
    assert(all.skip(12).len() == 0);
}

/// Which importer a file goes to that is asked for by name, whatever the file's extension.
pub proof fn every_name_has_its_importer(ext: Seq<char>, name: Seq<char>)
    ensures
        first_importer(all_importers(), ext, Some(name)) == Some(ImporterKind::Texture) <==> (name
            == "texture"@),
        first_importer(all_importers(), ext, Some(name)) == Some(ImporterKind::LayeredTexture)
            <==> (name == "cubemap_texture"@ || name == "2d_array_texture"@ || name
            == "cubemap_array_texture"@ || name == "3d_texture"@),
        first_importer(all_importers(), ext, Some(name)) == Some(ImporterKind::MP3) <==> (name
            == "mp3"@),
        first_importer(all_importers(), ext, Some(name)) == Some(ImporterKind::OggVorbis)
            <==> (name == "oggvorbisstr"@),
        first_importer(all_importers(), ext, Some(name)) == Some(ImporterKind::WAV) <==> (name
            == "wav"@),
        first_importer(all_importers(), ext, Some(name)) == Some(ImporterKind::BMFont) <==> (name
            == "font_data_bmfont"@),
        first_importer(all_importers(), ext, Some(name)) == Some(ImporterKind::DynamicFont)
            <==> (name == "font_data_dynamic"@),
        first_importer(all_importers(), ext, Some(name)) == Some(ImporterKind::ImageFont)
            <==> (name == "font_data_image"@),
        first_importer(all_importers(), ext, Some(name)) == Some(ImporterKind::SVG) <==> (name
            == "svg"@),
        first_importer(all_importers(), ext, Some(name)) == Some(ImporterKind::OBJ) <==> (name
            == "wavefront_obj"@),
        first_importer(all_importers(), ext, Some(name)) == Some(ImporterKind::Scene) <==> (name
            == "scene"@ || name == "animation_library"@),
        first_importer(all_importers(), ext, Some(name)) == Some(ImporterKind::TextureAtlas)
            <==> (name == "texture_atlas"@),
{
    lemma_names_differ(name);
    lemma_named(name);
    lemma_all_asked(ext, Some(name));
}

/// Which names each importer goes by; the first is used where none is asked for.
proof fn lemma_named(name: Seq<char>)
    ensures
        ImporterKind::Texture.importers().contains(name) <==> (name == "texture"@),
        ImporterKind::LayeredTexture.importers().contains(name) <==> (name == "cubemap_texture"@
            || name == "2d_array_texture"@ || name == "cubemap_array_texture"@ || name
            == "3d_texture"@),
        ImporterKind::MP3.importers().contains(name) <==> (name == "mp3"@),
        ImporterKind::OggVorbis.importers().contains(name) <==> (name == "oggvorbisstr"@),
        ImporterKind::WAV.importers().contains(name) <==> (name == "wav"@),
        ImporterKind::BMFont.importers().contains(name) <==> (name == "font_data_bmfont"@),
        ImporterKind::DynamicFont.importers().contains(name) <==> (name == "font_data_dynamic"@),
        ImporterKind::ImageFont.importers().contains(name) <==> (name == "font_data_image"@),
        ImporterKind::SVG.importers().contains(name) <==> (name == "svg"@),
        ImporterKind::OBJ.importers().contains(name) <==> (name == "wavefront_obj"@),
        ImporterKind::Scene.importers().contains(name) <==> (name == "scene"@ || name
            == "animation_library"@),
        ImporterKind::TextureAtlas.importers().contains(name) <==> (name == "texture_atlas"@),
{
    assert(ImporterKind::Texture.importers()[0] == "texture"@);
    assert(ImporterKind::LayeredTexture.importers()[0] == "cubemap_texture"@);
    assert(ImporterKind::LayeredTexture.importers()[1] == "2d_array_texture"@);
    assert(ImporterKind::LayeredTexture.importers()[2] == "cubemap_array_texture"@);
    assert(ImporterKind::LayeredTexture.importers()[3] == "3d_texture"@);
    assert(ImporterKind::MP3.importers()[0] == "mp3"@);
    assert(ImporterKind::OggVorbis.importers()[0] == "oggvorbisstr"@);
    assert(ImporterKind::WAV.importers()[0] == "wav"@);
    assert(ImporterKind::BMFont.importers()[0] == "font_data_bmfont"@);
    assert(ImporterKind::DynamicFont.importers()[0] == "font_data_dynamic"@);
    assert(ImporterKind::ImageFont.importers()[0] == "font_data_image"@);
    assert(ImporterKind::SVG.importers()[0] == "svg"@);
    assert(ImporterKind::OBJ.importers()[0] == "wavefront_obj"@);
    assert(ImporterKind::Scene.importers()[0] == "scene"@);
    assert(ImporterKind::Scene.importers()[1] == "animation_library"@);
    assert(ImporterKind::TextureAtlas.importers()[0] == "texture_atlas"@);
}

/// No name stands for two importers.
proof fn lemma_names_differ(name: Seq<char>)
    ensures
        (name == "texture"@) ==> !(name == "cubemap_texture"@ || name == "2d_array_texture"@
            || name == "cubemap_array_texture"@ || name == "3d_texture"@ || name == "mp3"@ || name
            == "oggvorbisstr"@ || name == "wav"@ || name == "font_data_bmfont"@ || name
            == "font_data_dynamic"@ || name == "font_data_image"@ || name == "svg"@ || name
            == "wavefront_obj"@ || name == "scene"@ || name == "animation_library"@ || name
            == "texture_atlas"@),
        (name == "cubemap_texture"@ || name == "2d_array_texture"@ || name
            == "cubemap_array_texture"@ || name == "3d_texture"@) ==> !(name == "mp3"@ || name
            == "oggvorbisstr"@ || name == "wav"@ || name == "font_data_bmfont"@ || name
            == "font_data_dynamic"@ || name == "font_data_image"@ || name == "svg"@ || name
            == "wavefront_obj"@ || name == "scene"@ || name == "animation_library"@ || name
            == "texture_atlas"@),
        (name == "mp3"@) ==> !(name == "oggvorbisstr"@ || name == "wav"@ || name
            == "font_data_bmfont"@ || name == "font_data_dynamic"@ || name == "font_data_image"@
            || name == "svg"@ || name == "wavefront_obj"@ || name == "scene"@ || name
            == "animation_library"@ || name == "texture_atlas"@),
        (name == "oggvorbisstr"@) ==> !(name == "wav"@ || name == "font_data_bmfont"@ || name
            == "font_data_dynamic"@ || name == "font_data_image"@ || name == "svg"@ || name
            == "wavefront_obj"@ || name == "scene"@ || name == "animation_library"@ || name
            == "texture_atlas"@),
        (name == "wav"@) ==> !(name == "font_data_bmfont"@ || name == "font_data_dynamic"@ || name
            == "font_data_image"@ || name == "svg"@ || name == "wavefront_obj"@ || name
            == "scene"@ || name == "animation_library"@ || name == "texture_atlas"@),
        (name == "font_data_bmfont"@) ==> !(name == "font_data_dynamic"@ || name
            == "font_data_image"@ || name == "svg"@ || name == "wavefront_obj"@ || name
            == "scene"@ || name == "animation_library"@ || name == "texture_atlas"@),
        (name == "font_data_dynamic"@) ==> !(name == "font_data_image"@ || name == "svg"@ || name
            == "wavefront_obj"@ || name == "scene"@ || name == "animation_library"@ || name
            == "texture_atlas"@),
        (name == "font_data_image"@) ==> !(name == "svg"@ || name == "wavefront_obj"@ || name
            == "scene"@ || name == "animation_library"@ || name == "texture_atlas"@),
        (name == "svg"@) ==> !(name == "wavefront_obj"@ || name == "scene"@ || name
            == "animation_library"@ || name == "texture_atlas"@),
        (name == "wavefront_obj"@) ==> !(name == "scene"@ || name == "animation_library"@ || name
            == "texture_atlas"@),
        (name == "scene"@ || name == "animation_library"@) ==> !(name == "texture_atlas"@),
{
    reveal_strlit("texture");
    reveal_strlit("cubemap_texture");
    reveal_strlit("2d_array_texture");
    reveal_strlit("cubemap_array_texture");
    reveal_strlit("3d_texture");
    reveal_strlit("mp3");
    reveal_strlit("oggvorbisstr");
    reveal_strlit("wav");
    reveal_strlit("font_data_bmfont");
    reveal_strlit("font_data_dynamic");
    reveal_strlit("font_data_image");
    reveal_strlit("svg");
    reveal_strlit("wavefront_obj");
    reveal_strlit("scene");
    reveal_strlit("animation_library");
    reveal_strlit("texture_atlas");
    assert("texture"@.len() == 7 && "texture"@[0] == 't' && "texture"@[1] == 'e');
    assert("cubemap_texture"@.len() == 15 && "cubemap_texture"@[0] == 'c' && "cubemap_texture"@[1]
        == 'u' && "cubemap_texture"@[10] == 'x');
    assert("2d_array_texture"@.len() == 16 && "2d_array_texture"@[0] == '2'
        && "2d_array_texture"@[1] == 'd' && "2d_array_texture"@[10] == 'e');
    assert("cubemap_array_texture"@.len() == 21 && "cubemap_array_texture"@[0] == 'c'
        && "cubemap_array_texture"@[1] == 'u' && "cubemap_array_texture"@[10] == 'r');
    assert("3d_texture"@.len() == 10 && "3d_texture"@[0] == '3' && "3d_texture"@[1] == 'd');
    assert("mp3"@.len() == 3 && "mp3"@[0] == 'm' && "mp3"@[1] == 'p');
    assert("oggvorbisstr"@.len() == 12 && "oggvorbisstr"@[0] == 'o' && "oggvorbisstr"@[1] == 'g'
        && "oggvorbisstr"@[10] == 't');
    assert("wav"@.len() == 3 && "wav"@[0] == 'w' && "wav"@[1] == 'a');
    assert("font_data_bmfont"@.len() == 16 && "font_data_bmfont"@[0] == 'f'
        && "font_data_bmfont"@[1] == 'o' && "font_data_bmfont"@[10] == 'b');
    assert("font_data_dynamic"@.len() == 17 && "font_data_dynamic"@[0] == 'f'
        && "font_data_dynamic"@[1] == 'o' && "font_data_dynamic"@[10] == 'd');
    assert("font_data_image"@.len() == 15 && "font_data_image"@[0] == 'f' && "font_data_image"@[1]
        == 'o' && "font_data_image"@[10] == 'i');
    assert("svg"@.len() == 3 && "svg"@[0] == 's' && "svg"@[1] == 'v');
    assert("wavefront_obj"@.len() == 13 && "wavefront_obj"@[0] == 'w' && "wavefront_obj"@[1]
        == 'a' && "wavefront_obj"@[10] == 'o');
    assert("scene"@.len() == 5 && "scene"@[0] == 's' && "scene"@[1] == 'c');
    assert("animation_library"@.len() == 17 && "animation_library"@[0] == 'a'
        && "animation_library"@[1] == 'n' && "animation_library"@[10] == 'l');
    assert("texture_atlas"@.len() == 13 && "texture_atlas"@[0] == 't' && "texture_atlas"@[1]
        == 'e' && "texture_atlas"@[10] == 'l');
}

/// The name that an importer works under where none is asked for.
pub proof fn importers_have_a_usual_name()
    ensures
        ImporterKind::Texture.importers()[0] == "texture"@,
        ImporterKind::LayeredTexture.importers()[0] == "cubemap_texture"@,
        ImporterKind::MP3.importers()[0] == "mp3"@,
        ImporterKind::OggVorbis.importers()[0] == "oggvorbisstr"@,
        ImporterKind::WAV.importers()[0] == "wav"@,
        ImporterKind::BMFont.importers()[0] == "font_data_bmfont"@,
        ImporterKind::DynamicFont.importers()[0] == "font_data_dynamic"@,
        ImporterKind::ImageFont.importers()[0] == "font_data_image"@,
        ImporterKind::SVG.importers()[0] == "svg"@,
        ImporterKind::OBJ.importers()[0] == "wavefront_obj"@,
        ImporterKind::Scene.importers()[0] == "scene"@,
        ImporterKind::TextureAtlas.importers()[0] == "texture_atlas"@,
{
}

/// A temporary file has the extension that is asked for or, where none is, that of the file that it
/// stands for; without either it is a resource. Its name tells what it is made by and for.
pub proof fn temporary_files_keep_the_extension(
    path: Seq<char>,
    id: Seq<char>,
    stem: Seq<char>,
    ext: Seq<char>,
    asked: Seq<char>,
)
    requires
        file_stem(below_resources(path)) == Some(stem),
    ensures
        temp_name(path, id, Some(asked)) == "backstitch_"@ + stem + "_"@ + (id + "."@ + asked),
        extension(below_resources(path)) == Some(ext) ==> temp_name(path, id, None)
            == "backstitch_"@ + stem + "_"@ + (id + "."@ + ext),
        extension(below_resources(path)) is None ==> temp_name(path, id, None) == "backstitch_"@
            + stem + "_"@ + (id + "."@ + "res"@),
{
}

/// The files of a project are named from its root, which does not count as a directory.
pub proof fn the_root_of_the_project_is_left_out(rest: Seq<char>)
    ensures
        below_resources("res:/"@ + rest) == seq!['/'] + rest,
        !("res:"@.is_prefix_of(rest)) ==> below_resources(rest) == rest,
{
    reveal_strlit("res:");
    reveal_strlit("res:/");
    let whole = "res:/"@ + rest;
    assert("res:/"@.is_prefix_of(whole));
    assert(whole.skip(4) =~= seq!['/'] + rest);
    if "res:/"@.is_prefix_of(rest) {
        assert("res:"@ =~= rest.take(4));
    }
    if rest == "res:"@ {
        assert("res:"@.is_prefix_of(rest));
    }
}

} // verus!
