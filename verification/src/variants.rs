//! How diffs and values are shown in Godot's editor.

use crate::content::{FileContent, TypeOrInstance};
use crate::diff::{BinaryResourceDiff, Diff, Differ, VariantValue};
use crate::fs_traversal::ChangeType;
use crate::text::{
    begins_with, contains_text, has_text, joined3, replace_char, with_replaced,
};
use vstd::prelude::*;
use vstd::string::*;

verus! {

/// The text of the first group in the first match of a pattern in a text; nothing where the pattern
/// is none, does not match, or has no such group in the match.
pub uninterp spec fn first_group(pattern: Seq<char>, text: Seq<char>) -> Option<Seq<char>>;

/// How the matches of a pattern, which do not overlap, cut a text from the left: the parts that they
/// leave over, and the matches between them; no parts where the pattern is none.
pub uninterp spec fn cut_by(pattern: Seq<char>, text: Seq<char>) -> (Seq<Seq<char>>, Seq<Seq<char>>);

/// `regex::Regex::captures`: the text of the first group in the first match.
#[verifier::external_body]
fn find_group(pattern: &str, text: &str) -> (r: Option<String>)
    ensures
        (match r {
            Some(w) => Some(w@),
            None => None,
        }) == first_group(pattern@, text@),
{
    let re = regex::Regex::new(pattern).ok()?;
    re.captures(text)?.get(1).map(|m| m.as_str().to_string())
}

/// The pattern of a typed array or dictionary.
pub const CONTAINER_PATTERN: &'static str = r#"(Dictionary|Array)\[[^]]+\]\((.*)\)"#;

/// The pattern of a reference to a resource.
pub const RESOURCE_PATTERN: &'static str = r#"((?:Sub|Ext)?Resource\([^)]*\))"#;

/// A reference to a resource in quotes, with the quotes inside it escaped.
pub open spec fn in_quotes(text: Seq<char>) -> Seq<char> {
    seq!['"'] + replace_char(text, '"', seq!['\\', '"']) + seq!['"']
}

/// A reference to a resource in quotes, with the quotes inside it escaped.
pub fn quoted_reference(text: &str) -> (r: String)
    ensures
        r@ == in_quotes(text@),
{
    proof {
        reveal_strlit("\"");
        reveal_strlit("\\\"");
        assert("\""@ == seq!['"']);
        assert("\\\""@ == seq!['\\', '"']);
    }
    let inner = with_replaced(text, '"', "\\\"");
    joined3("\"", inner.as_str(), "\"")
}

/// A typed array or dictionary that mentions a resource.
pub open spec fn is_resource_container(text: Seq<char>) -> bool {
    ("Array["@.is_prefix_of(text) || "Dictionary["@.is_prefix_of(text)) && contains_text(
        text,
        "Resource("@,
    )
}

/// The parts of a text with each match between them put in quotes.
pub open spec fn quoted_between(parts: Seq<Seq<char>>, matches: Seq<Seq<char>>) -> Seq<char>
    decreases parts.len(),
{
    if parts.len() == 0 {
        Seq::empty()
    } else if parts.len() > matches.len() {
        quoted_between(parts.drop_last(), matches) + parts.last()
    } else {
        quoted_between(parts.drop_last(), matches) + parts.last() + in_quotes(
            matches[parts.len() - 1],
        )
    }
}

/// `regex::Regex::replace_all`: the text with each match of a pattern put in quotes, as
/// `quoted_reference` does it.
#[verifier::external_body]
fn quote_matches(pattern: &str, text: &str) -> (r: String)
    ensures
        r@ == quoted_between(cut_by(pattern@, text@).0, cut_by(pattern@, text@).1),
{
    match regex::Regex::new(pattern) {
        Ok(re) => re.replace_all(text, |m: &regex::Captures| quoted_reference(&m[0])).to_string(),
        Err(_) => String::new(),
    }
}

/// The text with each reference to a resource put in quotes.
pub open spec fn with_quoted_resources(text: Seq<char>) -> Seq<char> {
    quoted_between(cut_by(RESOURCE_PATTERN@, text).0, cut_by(RESOURCE_PATTERN@, text).1)
}

/// The text of a value in a form that Godot reads without loading resources. Of a typed array or
/// dictionary that mentions a resource only the word before its bracket is left, which is shorter
/// than the whole.
pub open spec fn safe_text(text: Seq<char>) -> Seq<char>
    decreases text.len(),
{
    if is_resource_container(text) {
        let word = match first_group(CONTAINER_PATTERN@, text) {
            Some(word) => word,
            None => Seq::empty(),
        };
        if word.len() < text.len() {
            safe_text(word)
        } else {
            with_quoted_resources(word)
        }
    } else {
        with_quoted_resources(text)
    }
}

/// The text of a value in a form that Godot reads without loading resources.
pub fn str_to_var_safe(text: &str) -> (r: String)
    ensures
        r@ == safe_text(text@),
    decreases text@.len(),
{
    if (begins_with(text, "Array[") || begins_with(text, "Dictionary[")) && has_text(
        text,
        "Resource(",
    ) {
        let word = match find_group(CONTAINER_PATTERN, text) {
            Some(word) => word,
            None => String::new(),
        };
        if word.as_str().unicode_len() < text.unicode_len() {
            return str_to_var_safe(word.as_str());
        }
        return quote_matches(RESOURCE_PATTERN, word.as_str());
    }
    quote_matches(RESOURCE_PATTERN, text)
}

/// How a value is shown.
#[derive(Debug)]
pub enum Shown {
    /// The value that Godot reads from this text.
    Parsed(String),
    /// This text.
    Plain(String),
    /// A resource that is loaded when it is shown: the path to load, and the resource's own path.
    Lazy(String, String),
}

/// The class and property whose default a value stands for.
pub fn wanted_default(value: &VariantValue) -> (r: Option<(&String, &String)>)
    ensures
        match *value {
            VariantValue::DefaultValue(Some(TypeOrInstance::Type(class)), property) => r == Some(
                (&class, &property),
            ),
            _ => r is None,
        },
{
    match value {
        VariantValue::DefaultValue(Some(TypeOrInstance::Type(class)), property) => Some(
            (class, property),
        ),
        _ => None,
    }
}

/// The value is shown so; `default_text` is the default that the class has, empty where there is
/// none.
pub open spec fn is_shown(value: VariantValue, default_text: Seq<char>, shown: Shown) -> bool {
    match value {
        VariantValue::Variant(s) => (shown matches Shown::Parsed(t) && t@ == safe_text(s@)),
        VariantValue::DefaultValue(Some(TypeOrInstance::Type(_)), _) => if default_text.len() == 0 {
            (shown matches Shown::Plain(t) && t@ == "<default_value>"@)
        } else {
            (shown matches Shown::Parsed(t) && t@ == safe_text(default_text))
        },
        VariantValue::DefaultValue(_, _) => (shown matches Shown::Plain(t) && t@
            == "<default_value>"@),
        VariantValue::LazyLoadData(original, load) => (shown matches Shown::Lazy(l, o) && l@
            == load@ && o@ == original@),
        VariantValue::Script(path) => (shown matches Shown::Plain(t) && t@ == "<Script: "@ + path@
            + ">"@),
    }
}

/// How a value is shown, with the default that its class has, where one is wanted.
pub fn shown_value(value: &VariantValue, default_text: &str) -> (r: Shown)
    ensures
        is_shown(*value, default_text@, r),
{
    match value {
        VariantValue::Variant(s) => Shown::Parsed(str_to_var_safe(s.as_str())),
        VariantValue::DefaultValue(Some(TypeOrInstance::Type(_)), _) => {
            if default_text.unicode_len() == 0 {
                Shown::Plain("<default_value>".to_owned())
            } else {
                Shown::Parsed(str_to_var_safe(default_text))
            }
        },
        VariantValue::DefaultValue(_, _) => Shown::Plain("<default_value>".to_owned()),
        VariantValue::LazyLoadData(original, load) => Shown::Lazy(load.clone(), original.clone()),
        VariantValue::Script(path) => Shown::Plain(joined3("<Script: ", path.as_str(), ">")),
    }
}

/// The word for a change.
pub open spec fn change_word(change: ChangeType) -> Seq<char> {
    match change {
        ChangeType::Created => "added"@,
        ChangeType::Modified => "modified"@,
        ChangeType::Deleted => "removed"@,
    }
}

/// The word for a change.
pub fn change_label(change: ChangeType) -> (r: String)
    ensures
        r@ == change_word(change),
{
    match change {
        ChangeType::Created => "added".to_owned(),
        ChangeType::Modified => "modified".to_owned(),
        ChangeType::Deleted => "removed".to_owned(),
    }
}

/// The path of the file that a diff is of.
pub open spec fn path_of(diff: Diff) -> String {
    match diff {
        Diff::Scene(d) => d.path,
        Diff::TextResourceDiff(d) => d.path,
        Diff::BinaryResource(d) => d.path,
        Diff::Text(d) => d.path,
    }
}

/// The path of the file that a diff is of, under which the project diff shows it.
pub fn diff_path(diff: &Diff) -> (r: &String)
    ensures
        *r == path_of(*diff),
{
    match diff {
        Diff::Scene(d) => &d.path,
        Diff::TextResourceDiff(d) => &d.path,
        Diff::BinaryResource(d) => &d.path,
        Diff::Text(d) => &d.path,
    }
}

/// What came of asking Godot to load a resource in the background.
#[derive(Debug)]
pub enum LoadRequest {
    /// The resource's path at that point in history could not be written.
    BadPath,
    /// The load was started, for this path.
    Started(String),
    /// Godot gave this error.
    Refused(String),
}

impl Differ {
    /// The path that is being loaded, or why it is not.
    pub fn start_load_ext_resource(request: LoadRequest) -> (r: Result<String, String>)
        ensures
            match request {
                LoadRequest::BadPath => r matches Err(e) && e@ == "Invalid history ref path"@,
                LoadRequest::Started(path) => r == Ok::<String, String>(path),
                LoadRequest::Refused(error) => r matches Err(e) && e@
                    == "load_threaded_request failed ("@ + error@ + ")"@,
            },
    {
        match request {
            LoadRequest::BadPath => Err("Invalid history ref path".to_owned()),
            LoadRequest::Started(path) => Ok(path),
            LoadRequest::Refused(error) => Err(
                joined3("load_threaded_request failed (", error.as_str(), ")"),
            ),
        }
    }
}

/// The value is the resource at a path: one that loads lazily, or a text that says why it does
/// not load.
pub open spec fn is_resource_value(
    path: Seq<char>,
    present: bool,
    load: Result<String, String>,
    value: Option<VariantValue>,
) -> bool {
    if !present {
        value is None
    } else {
        match load {
            Ok(load_path) => (value matches Some(VariantValue::LazyLoadData(p, l)) && p@ == path
                && l@ == load_path@),
            Err(e) => (value matches Some(VariantValue::Variant(t)) && t@ == "\"<ExtResource "@
                + path + " load failed ("@ + (e@ + ")>\""@)),
        }
    }
}

impl Differ {
    /// The resource at a path, from what came of loading it; none where there is no such file.
    pub fn get_resource(
        path: &str,
        content: Option<&FileContent>,
        load: Result<String, String>,
    ) -> (r: Option<VariantValue>)
        ensures
            is_resource_value(path@, content is Some, load, r),
    {
        if content.is_none() {
            return None;
        }
        match load {
            Ok(load_path) => Some(VariantValue::LazyLoadData(path.to_owned(), load_path)),
            Err(e) => {
                let head = joined3("\"<ExtResource ", path, " load failed (");
                let tail = crate::text::joined(e.as_str(), ")>\"");
                Some(VariantValue::Variant(crate::text::joined(head.as_str(), tail.as_str())))
            },
        }
    }

    /// The diff of a resource file, from its contents before and after and what came of loading it.
    pub fn get_binary_resource_diff(
        path: &str,
        change_type: ChangeType,
        old_content: Option<&FileContent>,
        new_content: Option<&FileContent>,
        old_load: Result<String, String>,
        new_load: Result<String, String>,
    ) -> (r: BinaryResourceDiff)
        ensures
            r.path@ == path@,
            r.change_type == change_type,
            is_resource_value(path@, old_content is Some, old_load, r.old_resource),
            is_resource_value(path@, new_content is Some, new_load, r.new_resource),
    {
        BinaryResourceDiff::new(
            path.to_owned(),
            change_type,
            Self::get_resource(path, old_content, old_load),
            Self::get_resource(path, new_content, new_load),
        )
    }
}

/// A reference in quotes is what stands between the first and the last character, both of which are
/// quotes, and there every quote of the reference is escaped.
pub proof fn references_are_put_in_quotes(text: Seq<char>)
    ensures
        in_quotes(text).len() >= 2,
        in_quotes(text)[0] == '"',
        in_quotes(text).last() == '"',
        in_quotes(text).subrange(1, in_quotes(text).len() - 1) == replace_char(
            text,
            '"',
            seq!['\\', '"'],
        ),
{
    let inner = replace_char(text, '"', seq!['\\', '"']);
    assert(in_quotes(text).subrange(1, in_quotes(text).len() - 1) =~= inner);
}

/// Between the matches the text stays as it is, and each match is put in quotes where it stands.
pub proof fn matches_are_quoted_in_place(
    part: Seq<char>,
    first: Seq<char>,
    parts: Seq<Seq<char>>,
    matches: Seq<Seq<char>>,
)
    requires
        parts.len() == matches.len() + 1,
    ensures
        quoted_between(seq![part], Seq::empty()) == part,
        quoted_between(seq![part] + parts, seq![first] + matches) == part + in_quotes(first)
            + quoted_between(parts, matches),
{
    reveal_with_fuel(quoted_between, 2);
    assert(seq![part].drop_last() == Seq::<Seq<char>>::empty());
    assert(Seq::<char>::empty() + part == part);
    lemma_quoted(part, first, parts, matches, parts.len() as int);
    assert(parts.take(parts.len() as int) == parts);
}

proof fn lemma_quoted(
    part: Seq<char>,
    first: Seq<char>,
    parts: Seq<Seq<char>>,
    matches: Seq<Seq<char>>,
    n: int,
)
    requires
        parts.len() == matches.len() + 1,
        0 <= n <= parts.len(),
    ensures
        quoted_between(seq![part] + parts.take(n), seq![first] + matches) == part + in_quotes(first)
            + quoted_between(parts.take(n), matches),
    decreases n,
{
    let ms = seq![first] + matches;
    let ps = seq![part] + parts.take(n);
    if n > 0 {
        lemma_quoted(part, first, parts, matches, n - 1);
        assert(ps.drop_last() == seq![part] + parts.take(n - 1));
        assert(parts.take(n).drop_last() == parts.take(n - 1));
        assert(ps.last() == parts[n - 1]);
        let head = part + in_quotes(first);
        let before = quoted_between(parts.take(n - 1), matches);
        if n - 1 < matches.len() {
            assert(ms[n] == matches[n - 1]);
            assert(head + (before + parts[n - 1] + in_quotes(matches[n - 1])) == head + before
                + parts[n - 1] + in_quotes(matches[n - 1]));
        } else {
            assert(head + (before + parts[n - 1]) == head + before + parts[n - 1]);
        }
    } else {
        assert(ps == seq![part]);
        assert(ps.drop_last() == Seq::<Seq<char>>::empty());
        assert(ms[0] == first);
        reveal_with_fuel(quoted_between, 2);
        assert(Seq::<char>::empty() + part + in_quotes(first) == part + in_quotes(first)
            + Seq::<char>::empty());
    }
}

/// A value is read with its references quoted, unless it is a typed array or dictionary that mentions
/// a resource, of which nothing but the word before the bracket is read.
pub proof fn only_typed_containers_of_resources_are_cut(text: Seq<char>)
    ensures
        !("Array["@.is_prefix_of(text)) && !("Dictionary["@.is_prefix_of(text)) ==> safe_text(text)
            == with_quoted_resources(text),
        !contains_text(text, "Resource("@) ==> safe_text(text) == with_quoted_resources(text),
        ("Array["@.is_prefix_of(text) || "Dictionary["@.is_prefix_of(text)) && contains_text(
            text,
            "Resource("@,
        ) && first_group(CONTAINER_PATTERN@, text) is Some && first_group(
            CONTAINER_PATTERN@,
            text,
        )->0.len() < text.len() ==> safe_text(text) == safe_text(
            first_group(CONTAINER_PATTERN@, text)->0,
        ),
{
}

/// How values are shown: a value as what Godot reads of its text, a default as the default of its
/// class or, where that is not known, as a mark, a resource as one that is loaded when it is shown,
/// and a script by its path.
pub proof fn values_are_shown(value: VariantValue, default_text: Seq<char>, shown: Shown)
    requires
        is_shown(value, default_text, shown),
    ensures
        value matches VariantValue::Variant(s) ==> (shown matches Shown::Parsed(t) && t@
            == safe_text(s@)),
        value matches VariantValue::LazyLoadData(original, load) ==> (shown matches Shown::Lazy(
            l,
            o,
        ) && l@ == load@ && o@ == original@),
        value matches VariantValue::Script(path) ==> (shown matches Shown::Plain(t) && t@
            == "<Script: "@ + path@ + ">"@),
        value matches VariantValue::DefaultValue(class, _) ==> {
            let known = (class matches Some(TypeOrInstance::Type(_))) && default_text.len() > 0;
            &&& known ==> (shown matches Shown::Parsed(t) && t@ == safe_text(default_text))
            &&& !known ==> (shown matches Shown::Plain(t) && t@ == "<default_value>"@)
        },
{
}

/// The word for a change tells the changes apart.
pub proof fn changes_have_their_words(change: ChangeType)
    ensures
        change_word(change) == "added"@ <==> change == ChangeType::Created,
        change_word(change) == "modified"@ <==> change == ChangeType::Modified,
        change_word(change) == "removed"@ <==> change == ChangeType::Deleted,
{
    reveal_strlit("added");
    reveal_strlit("modified");
    reveal_strlit("removed");
    assert("added"@.len() == 5);
    assert("modified"@.len() == 8);
    assert("removed"@.len() == 7);
}

/// A resource is there exactly where its file is. It loads lazily from the path that the load was
/// started for and keeps its own path; where no load was started the value says so.
pub proof fn resources_are_loaded_lazily(
    path: Seq<char>,
    present: bool,
    load: Result<String, String>,
    value: Option<VariantValue>,
)
    requires
        is_resource_value(path, present, load, value),
    ensures
        value is Some <==> present,
        present && load is Ok ==> (value matches Some(VariantValue::LazyLoadData(own, from)) && own@
            == path && from@ == load->Ok_0@),
        present && load is Err ==> (value matches Some(VariantValue::Variant(t)) && t@
            == "\"<ExtResource "@ + path + " load failed ("@ + (load->Err_0@ + ")>\""@)),
{
}

/// A diff is of the file that its parts name.
pub proof fn a_diff_names_its_file(diff: Diff)
    ensures
        match diff {
            Diff::Scene(d) => path_of(diff) == d.path,
            Diff::TextResourceDiff(d) => path_of(diff) == d.path,
            Diff::BinaryResource(d) => path_of(diff) == d.path,
            Diff::Text(d) => path_of(diff) == d.path,
        },
{
}

} // verus!
