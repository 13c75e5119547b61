//! Settings in a TOML file that may be changed behind Backstitch's back.

use crate::fs_index::FileMetadata;
use crate::paths::{file_name, get_file_name};
use crate::text::{joined, joined3};
use vstd::prelude::*;
use vstd::string::*;

verus! {

/// `toml::map::Map`, which `toml::Table` is made of.
#[verifier::external_type_specification]
#[verifier::external_body]
#[verifier::reject_recursive_types(K)]
#[verifier::reject_recursive_types(V)]
pub struct ExTomlMap<K, V>(toml::map::Map<K, V>);

/// `toml::Value`, any value in a TOML file.
#[verifier::external_type_specification]
#[verifier::external_body]
pub struct ExTomlValue(toml::Value);

/// The keys and values of a table.
pub uninterp spec fn entries(table: toml::map::Map<String, toml::Value>) -> Map<
    Seq<char>,
    toml::Value,
>;

/// The keys and values of a value that is a table.
pub uninterp spec fn table_in(value: toml::Value) -> Option<Map<Seq<char>, toml::Value>>;

/// The keys and values of the table that a TOML text writes out.
pub uninterp spec fn parsed_table(text: Seq<char>) -> Option<Map<Seq<char>, toml::Value>>;

/// The TOML text of a table.
pub uninterp spec fn table_text(table: toml::map::Map<String, toml::Value>) -> Option<Seq<char>>;

/// No keys at all.
pub open spec fn no_entries() -> Map<Seq<char>, toml::Value> {
    Map::empty()
}

/// `toml::Table::new`: a table without entries.
#[verifier::external_body]
fn new_table() -> (r: toml::map::Map<String, toml::Value>)
    ensures
        entries(r) == no_entries(),
{
    toml::Table::new()
}

/// `toml::Value::Table`: the value that is the given table.
#[verifier::external_body]
fn table_value(table: toml::map::Map<String, toml::Value>) -> (r: toml::Value)
    ensures
        table_in(r) == Some(entries(table)),
{
    toml::Value::Table(table)
}

/// `toml::Table::get`: the value under a key.
#[verifier::external_body]
fn get_entry<'a>(table: &'a toml::map::Map<String, toml::Value>, key: &str) -> (r: Option<
    &'a toml::Value,
>)
    ensures
        r == (if entries(*table).dom().contains(key@) {
            Some(&entries(*table)[key@])
        } else {
            None
        }),
{
    table.get(key)
}

/// `toml::Table::remove`: takes the key, and its value, out of the table.
#[verifier::external_body]
fn remove_entry(table: &mut toml::map::Map<String, toml::Value>, key: &str) -> (r: Option<
    toml::Value,
>)
    ensures
        r == (if entries(*old(table)).dom().contains(key@) {
            Some(entries(*old(table))[key@])
        } else {
            None
        }),
        entries(*final(table)) == entries(*old(table)).remove(key@),
{
    table.remove(key)
}

/// `toml::Table::insert`: puts the value under the key.
#[verifier::external_body]
fn insert_entry(table: &mut toml::map::Map<String, toml::Value>, key: String, value: toml::Value)
    ensures
        entries(*final(table)) == entries(*old(table)).insert(key@, value),
{
    table.insert(key, value);
}

/// `toml::Value::as_table`: the table that the value is.
#[verifier::external_body]
fn as_table(value: &toml::Value) -> (r: Option<&toml::map::Map<String, toml::Value>>)
    ensures
        (match r {
            Some(t) => Some(entries(*t)),
            None => None,
        }) == table_in(*value),
{
    value.as_table()
}

/// `toml::Value::as_table_mut`: the table that the value is, for change.
#[verifier::external_body]
fn as_table_mut(value: &mut toml::Value) -> (r: Option<&mut toml::map::Map<String, toml::Value>>)
    ensures
        match r {
            Some(t) => table_in(*old(value)) == Some(entries(*t)) && table_in(*final(value))
                == Some(entries(*final(t))),
            None => table_in(*old(value)) is None && *final(value) == *old(value),
        },
{
    value.as_table_mut()
}

/// `toml::Value::clone`: the same value once more.
#[verifier::external_body]
fn same_value(value: &toml::Value) -> (r: toml::Value)
    ensures
        r == *value,
{
    value.clone()
}

/// `str::parse` into a `toml::Table`: the table that a TOML text writes out.
#[verifier::external_body]
fn parse_table(text: &str) -> (r: Option<toml::map::Map<String, toml::Value>>)
    ensures
        (match r {
            Some(t) => Some(entries(t)),
            None => None,
        }) == parsed_table(text@),
{
    text.parse::<toml::Table>().ok()
}

/// `toml::to_string_pretty`: the TOML text of a table. Nothing is stated of what the text reads
/// back as.
#[verifier::external_body]
fn write_table(table: &toml::map::Map<String, toml::Value>) -> (r: Option<String>)
    ensures
        (match r {
            Some(t) => Some(t@),
            None => None,
        }) == table_text(*table),
{
    toml::to_string_pretty(table).ok()
}

/// `uuid::Uuid::new_v4`: the text of a new random id. Nothing is stated of it, which rests on
/// chance.
#[verifier::external_body]
pub(crate) fn random_id() -> (r: String) {
    uuid::Uuid::new_v4().to_string()
}

/// The values of a section, where there is a section of that name.
pub open spec fn section(
    table: Map<Seq<char>, toml::Value>,
    name: Seq<char>,
) -> Option<Map<Seq<char>, toml::Value>> {
    if table.dom().contains(name) {
        table_in(table[name])
    } else {
        None
    }
}

/// The value under a key of a section.
pub open spec fn setting(
    table: Map<Seq<char>, toml::Value>,
    name: Seq<char>,
    key: Seq<char>,
) -> Option<toml::Value> {
    match section(table, name) {
        Some(s) => if s.dom().contains(key) {
            Some(s[key])
        } else {
            None
        },
        None => None,
    }
}

/// The second table is the first with a value set, or removed, under a key of a section. A section
/// that is not there, or is no table, is made to set a value, and left alone to remove one.
pub open spec fn is_set(
    before: Map<Seq<char>, toml::Value>,
    after: Map<Seq<char>, toml::Value>,
    name: Seq<char>,
    key: Seq<char>,
    value: Option<toml::Value>,
) -> bool {
    &&& after.remove(name) == before.remove(name)
    &&& match value {
        Some(v) => section(after, name) == Some(
            (match section(before, name) {
                Some(s) => s,
                None => Map::empty(),
            }).insert(key, v),
        ),
        None => match section(before, name) {
            Some(s) => section(after, name) == Some(s.remove(key)),
            None => after == before,
        },
    }
}

/// A setting that was set is read again, a setting that was removed is gone, and all others stay.
pub proof fn setting_one_leaves_others(
    before: Map<Seq<char>, toml::Value>,
    after: Map<Seq<char>, toml::Value>,
    name: Seq<char>,
    key: Seq<char>,
    value: Option<toml::Value>,
    other_name: Seq<char>,
    other_key: Seq<char>,
)
    requires
        is_set(before, after, name, key, value),
    ensures
        setting(after, name, key) == value,
        other_name != name || other_key != key ==> setting(after, other_name, other_key)
            == setting(before, other_name, other_key),
{
    if other_name != name {
        assert(after.remove(name).dom().contains(other_name) == after.dom().contains(other_name));
        assert(before.remove(name).dom().contains(other_name) == before.dom().contains(
            other_name,
        ));
        if after.dom().contains(other_name) {
            assert(after.remove(name)[other_name] == after[other_name]);
            assert(before.remove(name)[other_name] == before[other_name]);
        }
    }
}

/// Why settings could not be read or written.
#[derive(Debug)]
pub enum FileBackedTomlError {
    Io(String),
    Serialize,
}

/// What reading the file came to.
#[derive(Debug)]
pub enum FileRead {
    /// There is no file.
    Missing,
    Text(String),
}

/// Settings in a TOML file.
pub struct FileBackedToml {
    table: toml::map::Map<String, toml::Value>,
    metadata: Option<FileMetadata>,
}

impl View for FileBackedToml {
    type V = Map<Seq<char>, toml::Value>;

    closed spec fn view(&self) -> Map<Seq<char>, toml::Value> {
        entries(self.table)
    }
}

impl FileBackedToml {
    /// The state of the file when it was last read or written; none where there was no file.
    pub closed spec fn seen(self) -> Option<FileMetadata> {
        self.metadata
    }

    /// The text that the settings are saved as.
    pub closed spec fn text(self) -> Option<Seq<char>> {
        table_text(self.table)
    }

    /// No settings, and no file seen yet.
    pub fn new() -> (r: FileBackedToml)
        ensures
            r@ == Map::<Seq<char>, toml::Value>::empty(),
            r.seen() is None,
    {
        FileBackedToml { table: new_table(), metadata: None }
    }

    /// Whether the file has to be read: it is not in the state in which it was last seen.
    pub fn needs_reload(&self, metadata: &Option<FileMetadata>) -> (r: bool)
        ensures
            r == (*metadata != self.seen()),
    {
        match (metadata, &self.metadata) {
            (Some(a), Some(b)) => *a != *b,
            (None, None) => false,
            _ => true,
        }
    }

    /// Takes over what the file holds. A missing file empties the settings, and is made; a file
    /// that is no TOML is overwritten with the settings, which stay. Gives the text to write, where
    /// there is one.
    pub fn reload_backing(&mut self, read: FileRead) -> (r: Result<
        Option<String>,
        FileBackedTomlError,
    >)
        ensures
            final(self).seen() == old(self).seen(),
            match read {
                FileRead::Missing => r is Ok && r->Ok_0 is Some && r->Ok_0->0@ == ""@ && final(
                    self)@ == Map::<Seq<char>, toml::Value>::empty(),
                FileRead::Text(text) => match parsed_table(text@) {
                    Some(table) => r == Ok::<Option<String>, FileBackedTomlError>(None) && final(
                        self)@ == table,
                    None => *final(self) == *old(self) && match old(self).text() {
                        Some(t) => r is Ok && r->Ok_0 is Some && r->Ok_0->0@ == t,
                        None => r == Err::<Option<String>, _>(FileBackedTomlError::Serialize),
                    },
                },
            },
    {
        match read {
            FileRead::Missing => {
                self.table = new_table();
                Ok(Some("".to_owned()))
            },
            FileRead::Text(text) => match parse_table(text.as_str()) {
                Some(table) => {
                    self.table = table;
                    Ok(None)
                },
                None => match self.write_backing() {
                    Ok(text) => Ok(Some(text)),
                    Err(e) => Err(e),
                },
            },
        }
    }

    /// The text to save the settings as.
    pub fn write_backing(&self) -> (r: Result<String, FileBackedTomlError>)
        ensures
            match self.text() {
                Some(t) => r is Ok && r->Ok_0@ == t,
                None => r == Err::<String, _>(FileBackedTomlError::Serialize),
            },
    {
        match write_table(&self.table) {
            Some(text) => Ok(text),
            None => Err(FileBackedTomlError::Serialize),
        }
    }

    /// Takes note of the state of the file after it was read or written.
    pub fn saw(&mut self, metadata: Option<FileMetadata>)
        ensures
            final(self).seen() == metadata,
            final(self)@ == old(self)@,
            final(self).text() == old(self).text(),
    {
        self.metadata = metadata;
    }

    /// The value under a key of a section.
    pub fn get(&self, section: &str, key: &str) -> (r: Option<toml::Value>)
        ensures
            r == setting(self@, section@, key@),
    {
        match get_entry(&self.table, section) {
            Some(value) => match as_table(value) {
                Some(table) => match get_entry(table, key) {
                    Some(value) => Some(same_value(value)),
                    None => None,
                },
                None => None,
            },
            None => None,
        }
    }

    /// Sets, or removes, the value under a key of a section.
    pub fn set(&mut self, section: &str, key: &str, value: Option<toml::Value>)
        ensures
            is_set(old(self)@, final(self)@, section@, key@, value),
            final(self).seen() == old(self).seen(),
    {
        let ghost before = entries(self.table);
        match value {
            Some(value) => {
                let mut inner = match remove_entry(&mut self.table, section) {
                    Some(old_value) => old_value,
                    None => table_value(new_table()),
                };
                if as_table(&inner).is_none() {
                    inner = table_value(new_table());
                }
                if let Some(table) = as_table_mut(&mut inner) {
                    insert_entry(table, key.to_owned(), value);
                }
                insert_entry(&mut self.table, section.to_owned(), inner);
                assert(entries(self.table).remove(section@) =~= before.remove(section@));
            },
            None => {
                let is_there = match get_entry(&self.table, section) {
                    Some(value) => as_table(value).is_some(),
                    None => false,
                };
                if is_there {
                    if let Some(old_value) = remove_entry(&mut self.table, section) {
                        let mut inner = old_value;
                        if let Some(table) = as_table_mut(&mut inner) {
                            let _ = remove_entry(table, key);
                        }
                        insert_entry(&mut self.table, section.to_owned(), inner);
                        assert(entries(self.table).remove(section@) =~= before.remove(section@));
                    }
                }
            },
        }
    }
}

/// The name of a temporary file beside the file at a path.
pub open spec fn temp_name(path: Seq<char>, id: Seq<char>) -> Seq<char> {
    let name = match file_name(path) {
        Some(n) => n,
        None => "file"@,
    };
    "."@ + name + "."@ + (id + ".tmp"@)
}

/// The name of a temporary file beside the file at a path, with the given id in it.
pub fn temp_file_name(path: &str, id: &str) -> (r: String)
    ensures
        r@ == temp_name(path@, id@),
{
    let name = match get_file_name(path) {
        Some(name) => name,
        None => "file".to_owned(),
    };
    let head = joined3(".", name.as_str(), ".");
    let tail = joined(id, ".tmp");
    joined(head.as_str(), tail.as_str())
}

/// The name of a new temporary file beside the file at a path, to be renamed once it is complete.
pub fn new_temp_file_name(path: &str) -> (r: String)
    ensures
        exists|id: Seq<char>| r@ == #[trigger] temp_name(path@, id),
{
    let id = random_id();
    temp_file_name(path, id.as_str())
}


/// Removing a setting from a section that is not there changes nothing, and no section is lost or
/// made but for the one that a value is set in.
pub proof fn sections_are_made_to_set_a_value(
    before: Map<Seq<char>, toml::Value>,
    after: Map<Seq<char>, toml::Value>,
    name: Seq<char>,
    key: Seq<char>,
    value: Option<toml::Value>,
    other: Seq<char>,
)
    requires
        is_set(before, after, name, key, value),
    ensures
        value is None && section(before, name) is None ==> after == before,
        value is Some ==> section(after, name) is Some,
        other != name ==> section(after, other) == section(before, other),
        other != name ==> after.dom().contains(other) == before.dom().contains(other),
{
    assert(after.remove(name).dom().contains(other) == before.remove(name).dom().contains(other));
    if other != name && after.dom().contains(other) {
        assert(after.remove(name)[other] == before.remove(name)[other]);
    }
}

/// A temporary file is hidden beside the file, and tells its name, an id and what it is.
pub proof fn temporary_files_are_hidden(path: Seq<char>, id: Seq<char>)
    ensures
        file_name(path) matches Some(name) ==> temp_name(path, id) == "."@ + name + "."@ + id
            + ".tmp"@,
        file_name(path) is None ==> temp_name(path, id) == ".file."@ + id + ".tmp"@,
{
    reveal_strlit(".");
    reveal_strlit("file");
    reveal_strlit(".file.");
    assert("."@ + "file"@ + "."@ == ".file."@);
    match file_name(path) {
        Some(name) => {
            assert("."@ + name + "."@ + (id + ".tmp"@) == "."@ + name + "."@ + id + ".tmp"@);
        },
        None => {
            assert("."@ + "file"@ + "."@ + (id + ".tmp"@) == ".file."@ + id + ".tmp"@);
        },
    }
}

} // verus!
