//! Reading values out of Automerge documents.

use crate::history::{hash_views, ChangeHash};
use automerge::{ChangeHash as HeadHash, ObjId, ObjType, ReadDoc, ScalarValue, Value, ValueRef};
use vstd::prelude::*;

verus! {

/// `automerge::Automerge`, a document with its history.
#[verifier::external_type_specification]
#[verifier::external_body]
pub struct ExAutomerge(automerge::Automerge);

/// A value in a document.
#[derive(Debug)]
pub enum DocValue {
    /// An object with keys.
    Keyed,
    /// A text object.
    Text,
    /// Any other object.
    OtherObject,
    Str(String),
    Bytes(Vec<u8>),
    /// Any other scalar.
    OtherScalar,
}

/// What a value in a document is.
pub enum Held {
    Keyed,
    Text,
    OtherObject,
    Str(Seq<char>),
    Bytes(Seq<u8>),
    OtherScalar,
}

impl View for DocValue {
    type V = Held;

    open spec fn view(&self) -> Held {
        match *self {
            DocValue::Keyed => Held::Keyed,
            DocValue::Text => Held::Text,
            DocValue::OtherObject => Held::OtherObject,
            DocValue::Str(s) => Held::Str(s@),
            DocValue::Bytes(b) => Held::Bytes(b@),
            DocValue::OtherScalar => Held::OtherScalar,
        }
    }
}

/// The id of an object in a document: the root's, or one that a document gave.
#[derive(Debug)]
pub struct ObjectId(Vec<u8>);

impl View for ObjectId {
    type V = Seq<u8>;

    closed spec fn view(&self) -> Seq<u8> {
        self.0@
    }
}

impl ObjectId {
    /// The id of the root object.
    pub fn root() -> (r: ObjectId)
        ensures
            r@ == root_id(),
    {
        let bytes: Vec<u8> = vec![0u8];
        assert(bytes@ == root_id());
        ObjectId(bytes)
    }
}

/// Reading the object failed: there is no such object, or it has no keys.
#[derive(Debug, Clone, Copy, PartialEq, Eq)]
pub struct NoSuchObject;

/// The values that a document holds under a key of an object, at the given heads: all values in
/// conflict, the one that wins last, each with the id of the object that it is. Nothing where the
/// object cannot be read by keys.
pub uninterp spec fn held(doc: automerge::Automerge) -> Map<
    (Seq<u8>, Seq<char>, Seq<Seq<u8>>),
    Option<Seq<(Held, Seq<u8>)>>,
>;

/// The value that a document holds now under a key of its root.
pub uninterp spec fn held_now(doc: automerge::Automerge) -> Map<Seq<char>, Option<Held>>;

/// The keys of an object in a document, at the given heads.
pub uninterp spec fn held_keys(doc: automerge::Automerge) -> Map<
    (Seq<u8>, Seq<Seq<u8>>),
    Seq<Seq<char>>,
>;

/// The entries of an object in a document, at the given heads: each key, whether its value is an
/// object, and that object's id.
pub uninterp spec fn held_entries(doc: automerge::Automerge) -> Map<
    (Seq<u8>, Seq<Seq<u8>>),
    Seq<(Seq<char>, bool, Seq<u8>)>,
>;

/// The text that a text object in a document spells, at the given heads.
pub uninterp spec fn held_text(doc: automerge::Automerge) -> Map<
    (Seq<u8>, Seq<Seq<u8>>),
    Option<Seq<char>>,
>;

/// The heads at which a document stands now.
pub uninterp spec fn current_heads(doc: automerge::Automerge) -> Seq<Seq<u8>>;

/// What can be read in a document: its heads, and what it holds.
pub struct DocContents {
    pub heads: Seq<Seq<u8>>,
    pub held: Map<(Seq<u8>, Seq<char>, Seq<Seq<u8>>), Option<Seq<(Held, Seq<u8>)>>>,
    pub now: Map<Seq<char>, Option<Held>>,
    pub keys: Map<(Seq<u8>, Seq<Seq<u8>>), Seq<Seq<char>>>,
    pub entries: Map<(Seq<u8>, Seq<Seq<u8>>), Seq<(Seq<char>, bool, Seq<u8>)>>,
    pub text: Map<(Seq<u8>, Seq<Seq<u8>>), Option<Seq<char>>>,
}

/// What can be read in a document.
pub open spec fn contents_of(doc: automerge::Automerge) -> DocContents {
    DocContents {
        heads: current_heads(doc),
        held: held(doc),
        now: held_now(doc),
        keys: held_keys(doc),
        entries: held_entries(doc),
        text: held_text(doc),
    }
}

/// `automerge::ReadDoc::get_heads` of a document: the heads at which it stands now.
#[verifier::external_body]
pub(crate) fn get_heads(doc: &automerge::Automerge) -> (r: Vec<ChangeHash>)
    ensures
        hash_views(r@) == current_heads(*doc),
{
    doc.get_heads().into_iter().map(|h| ChangeHash { bytes: h.0 }).collect()
}

/// The id of a document's root object.
pub open spec fn root_id() -> Seq<u8> {
    seq![0u8]
}

/// The heads at which a document stands now.
pub fn heads_of(doc: &automerge::Automerge) -> (r: Vec<ChangeHash>)
    ensures
        hash_views(r@) == current_heads(*doc),
{
    get_heads(doc)
}

/// `automerge::ReadDoc::get_at`: the value under a key of an object at the given heads, the one
/// that wins where there is a conflict, with the id of the object that it is. An error where the
/// object id names no object with keys. An id is the root's or one that a document gave: its counter
/// is one that a document can have.
#[verifier::external_body]
pub(crate) fn get_at(
    doc: &automerge::Automerge,
    obj: &ObjectId,
    key: &str,
    heads: &Vec<ChangeHash>,
) -> (r: Result<Option<(DocValue, ObjectId)>, NoSuchObject>)
    ensures
        match r {
            Ok(Some(v)) => held(*doc)[(obj@, key@, hash_views(heads@))] matches Some(all)
                && all.len() > 0 && all.last() == (v.0@, v.1@),
            Ok(None) => held(*doc)[(obj@, key@, hash_views(heads@))] == Some(
                Seq::<(Held, Seq<u8>)>::empty(),
            ),
            Err(_) => held(*doc)[(obj@, key@, hash_views(heads@))] is None,
        },
{
    let at: Vec<_> = heads.iter().map(|h| HeadHash(h.bytes)).collect();
    let id = ObjId::try_from(&*obj.0).map_err(|_| NoSuchObject)?;
    let got = doc.get_at(id, key, &at).map_err(|_| NoSuchObject)?;
    Ok(got.map(|(value, id)| (match value {
        Value::Object(ObjType::Map) => DocValue::Keyed,
        Value::Object(ObjType::Text) => DocValue::Text,
        Value::Object(_) => DocValue::OtherObject,
        Value::Scalar(s) => match s.into_owned() {
            ScalarValue::Str(t) => DocValue::Str(t.to_string()),
            ScalarValue::Bytes(b) => DocValue::Bytes(b),
            _ => DocValue::OtherScalar,
        },
    }, ObjectId(id.to_bytes()))))
}

/// `automerge::ReadDoc::get_all_at`: all values in conflict under a key of an object at the given
/// heads. An error where the object id names no object with keys. Only byte values are told
/// apart: the others are not used.
#[verifier::external_body]
pub(crate) fn get_all_bytes_at(
    doc: &automerge::Automerge,
    obj: &ObjectId,
    key: &str,
    heads: &Vec<ChangeHash>,
) -> (r: Result<Vec<Option<Vec<u8>>>, NoSuchObject>)
    ensures
        match r {
            Ok(found) => held(*doc)[(obj@, key@, hash_views(heads@))] matches Some(all)
                && found.len() == all.len() && forall|i: int|
                0 <= i < all.len() ==> (match (#[trigger] found@[i]) {
                    Some(b) => all[i].0 == Held::Bytes(b@),
                    None => !(all[i].0 is Bytes),
                }),
            Err(_) => held(*doc)[(obj@, key@, hash_views(heads@))] is None,
        },
{
    let at: Vec<_> = heads.iter().map(|h| HeadHash(h.bytes)).collect();
    let id = ObjId::try_from(&*obj.0).map_err(|_| NoSuchObject)?;
    let got = doc.get_all_at(id, key, &at).map_err(|_| NoSuchObject)?;
    Ok(got.into_iter().map(|(value, _)| value.into_bytes().ok()).collect())
}

/// `automerge::ReadDoc::get` at the root: the value that the document holds now under a key.
#[verifier::external_body]
pub(crate) fn get_now(doc: &automerge::Automerge, key: &str) -> (r: Option<DocValue>)
    ensures
        (match r {
            Some(v) => Some(v@),
            None => None,
        }) == held_now(*doc)[key@],
{
    let got = doc.get(automerge::ROOT, key).ok().flatten();
    got.map(|(value, _)| match value {
        Value::Object(ObjType::Map) => DocValue::Keyed,
        Value::Object(ObjType::Text) => DocValue::Text,
        Value::Object(_) => DocValue::OtherObject,
        Value::Scalar(s) => match s.into_owned() {
            ScalarValue::Str(t) => DocValue::Str(t.to_string()),
            ScalarValue::Bytes(b) => DocValue::Bytes(b),
            _ => DocValue::OtherScalar,
        },
    })
}

/// `automerge::ReadDoc::keys_at`: the keys of an object at the given heads.
#[verifier::external_body]
pub(crate) fn keys_at(
    doc: &automerge::Automerge,
    obj: &ObjectId,
    heads: &Vec<ChangeHash>,
) -> (r: Vec<String>)
    ensures
        r@.map_values(|s: String| s@) == held_keys(*doc)[(obj@, hash_views(heads@))],
{
    let at: Vec<_> = heads.iter().map(|h| HeadHash(h.bytes)).collect();
    match ObjId::try_from(&*obj.0) {
        Ok(id) => doc.keys_at(id, &at).collect(),
        Err(_) => Vec::new(),
    }
}

/// `automerge::ReadDoc::map_range_at` over all keys: the entries of an object at the given heads.
#[verifier::external_body]
pub(crate) fn entries_at(
    doc: &automerge::Automerge,
    obj: &ObjectId,
    heads: &Vec<ChangeHash>,
) -> (r: Vec<(String, bool, ObjectId)>)
    ensures
        r@.map_values(|e: (String, bool, ObjectId)| (e.0@, e.1, e.2@)) == held_entries(*doc)[(
            obj@,
            hash_views(heads@),
        )],
{
    let at: Vec<_> = heads.iter().map(|h| HeadHash(h.bytes)).collect();
    let Ok(id) = ObjId::try_from(&*obj.0) else { return Vec::new() };
    doc.map_range_at(id, .., &at).map(|item| {
        let object = matches!(item.value, ValueRef::Object(_));
        let id = ObjectId(item.id().to_bytes());
        (item.key.into_owned(), object, id)
    }).collect()
}

/// `automerge::ReadDoc::text_at`: the text that a text object spells at the given heads.
#[verifier::external_body]
pub(crate) fn text_at(
    doc: &automerge::Automerge,
    obj: &ObjectId,
    heads: &Vec<ChangeHash>,
) -> (r: Option<String>)
    ensures
        (match r {
            Some(t) => Some(t@),
            None => None,
        }) == held_text(*doc)[(obj@, hash_views(heads@))],
{
    let at: Vec<_> = heads.iter().map(|h| HeadHash(h.bytes)).collect();
    let id = ObjId::try_from(&*obj.0).ok()?;
    doc.text_at(id, &at).ok()
}

/// The value that wins under a key of an object.
pub open spec fn winner(
    doc: automerge::Automerge,
    obj: Seq<u8>,
    key: Seq<char>,
    heads: Seq<Seq<u8>>,
) -> Option<(Held, Seq<u8>)> {
    match held(doc)[(obj, key, heads)] {
        Some(all) => if all.len() > 0 {
            Some(all.last())
        } else {
            None
        },
        None => None,
    }
}

/// The id of the object under a key of an object.
pub open spec fn object_under(
    doc: automerge::Automerge,
    obj: Seq<u8>,
    key: Seq<char>,
    heads: Seq<Seq<u8>>,
) -> Option<Seq<u8>> {
    match winner(doc, obj, key, heads) {
        Some((Held::Keyed, id)) => Some(id),
        Some((Held::Text, id)) => Some(id),
        Some((Held::OtherObject, id)) => Some(id),
        _ => None,
    }
}

/// The string under a key of an object.
pub open spec fn string_under(
    doc: automerge::Automerge,
    obj: Seq<u8>,
    key: Seq<char>,
    heads: Seq<Seq<u8>>,
) -> Option<Seq<char>> {
    match winner(doc, obj, key, heads) {
        Some((Held::Str(s), _)) => Some(s),
        _ => None,
    }
}

/// The id of the object under a key of an object, where the value there is an object.
pub fn get_obj_id_at(
    doc: &automerge::Automerge,
    obj: &ObjectId,
    key: &str,
    heads: &Vec<ChangeHash>,
) -> (r: Option<ObjectId>)
    ensures
        (match r {
            Some(id) => Some(id@),
            None => None,
        }) == object_under(*doc, obj@, key@, hash_views(heads@)),
{
    match get_at(doc, obj, key, heads) {
        Ok(Some((DocValue::Keyed, id))) => Some(id),
        Ok(Some((DocValue::Text, id))) => Some(id),
        Ok(Some((DocValue::OtherObject, id))) => Some(id),
        _ => None,
    }
}

/// The string under a key of an object, where the value there is a string.
pub fn get_string_at(
    doc: &automerge::Automerge,
    obj: &ObjectId,
    key: &str,
    heads: &Vec<ChangeHash>,
) -> (r: Option<String>)
    ensures
        (match r {
            Some(s) => Some(s@),
            None => None,
        }) == string_under(*doc, obj@, key@, hash_views(heads@)),
{
    match get_at(doc, obj, key, heads) {
        Ok(Some((DocValue::Str(s), _))) => Some(s),
        _ => None,
    }
}

/// Of the values in conflict under a key the last one counts, alone: there is an object where that
/// one is an object, of whatever kind, and a string where that one is a string.
pub proof fn the_last_value_counts(
    doc: automerge::Automerge,
    obj: Seq<u8>,
    key: Seq<char>,
    heads: Seq<Seq<u8>>,
    others: Seq<(Held, Seq<u8>)>,
    last: (Held, Seq<u8>),
)
    requires
        held(doc)[(obj, key, heads)] == Some(others.push(last)),
    ensures
        winner(doc, obj, key, heads) == Some(last),
        object_under(doc, obj, key, heads) == (match last.0 {
            Held::Keyed => Some(last.1),
            Held::Text => Some(last.1),
            Held::OtherObject => Some(last.1),
            Held::Str(_) => None,
            Held::Bytes(_) => None,
            Held::OtherScalar => None,
        }),
        string_under(doc, obj, key, heads) == (match last.0 {
            Held::Str(text) => Some(text),
            _ => None,
        }),
{
}

/// Nothing is found under a key that holds no value, or of an object that cannot be read.
pub proof fn no_value_is_not_found(
    doc: automerge::Automerge,
    obj: Seq<u8>,
    key: Seq<char>,
    heads: Seq<Seq<u8>>,
)
    requires
        held(doc)[(obj, key, heads)] is None || held(doc)[(obj, key, heads)]->0.len() == 0,
    ensures
        winner(doc, obj, key, heads) is None,
        object_under(doc, obj, key, heads) is None,
        string_under(doc, obj, key, heads) is None,
{
}

} // verus!
