//! Points in a project's history: change hashes, document ids, heads and references to both.

use crate::escape::{hex_digit, is_hex};
use crate::text::joined3;
use std::str::FromStr;
use vstd::multiset::*;
use vstd::prelude::*;
use vstd::seq_lib::*;

verus! {

/// The hex digit for a number below sixteen, in lower case.
pub open spec fn lower_hex(d: int) -> char {
    if d < 10 {
        ('0' as int + d) as char
    } else {
        ('a' as int + d - 10) as char
    }
}

/// The text of a change hash: two hex digits for each byte.
pub open spec fn hash_text(bytes: Seq<u8>) -> Seq<char> {
    Seq::new(
        2 * bytes.len(),
        |i: int|
            lower_hex(
                if i % 2 == 0 {
                    bytes[i / 2] as int / 16
                } else {
                    bytes[i / 2] as int % 16
                },
            ),
    )
}

/// The text writes out a change hash: sixty-four hex digits.
pub open spec fn is_hash_text(text: Seq<char>) -> bool {
    text.len() == 64 && forall|i: int| 0 <= i < text.len() ==> is_hex(#[trigger] text[i])
}

/// The bytes that the text of a change hash writes out.
pub open spec fn text_hash(text: Seq<char>) -> Seq<u8> {
    Seq::new(32, |i: int| (16 * hex_digit(text[2 * i]) + hex_digit(text[2 * i + 1])) as u8)
}

/// `automerge::ChangeHash::from_str`: the thirty-two bytes that sixty-four hex digits write out,
/// in either case, and nothing for any other text.
#[verifier::external_body]
fn parse_hash(text: &str) -> (r: Option<[u8; 32]>)
    ensures
        r is Some <==> is_hash_text(text@),
        r matches Some(b) ==> b@ == text_hash(text@),
{
    automerge::ChangeHash::from_str(text).ok().map(|h| h.0)
}

/// `automerge::ChangeHash::to_string`: two hex digits in lower case for each byte.
#[verifier::external_body]
fn write_hash(bytes: &[u8; 32]) -> (r: String)
    ensures
        r@ == hash_text(bytes@),
{
    automerge::ChangeHash(*bytes).to_string()
}

/// The document id that a text writes out, as its sixteen bytes.
pub uninterp spec fn document_id(text: Seq<char>) -> Option<Seq<u8>>;

/// The text of a document id.
pub uninterp spec fn document_id_text(bytes: Seq<u8>) -> Seq<char>;

/// `samod::DocumentId::from_str`: reads the base-58 form with its checksum, or else the older
/// form of a UUID.
#[verifier::external_body]
fn parse_document_id(text: &str) -> (r: Option<[u8; 16]>)
    ensures
        (match r {
            Some(b) => Some(b@),
            None => None,
        }) == document_id(text@),
{
    samod::DocumentId::from_str(text).ok().and_then(|id| id.as_bytes().try_into().ok())
}

/// `samod::DocumentId::to_string`: the base-58 form with its checksum, which reads back as the
/// same id.
#[verifier::external_body]
fn write_document_id(bytes: &[u8; 16]) -> (r: String)
    ensures
        r@ == document_id_text(bytes@),
        document_id(r@) == Some(bytes@),
{
    samod::DocumentId::try_from(bytes.to_vec()).map(|id| id.to_string()).unwrap_or_default()
}

/// The hash of a change in a document's history.
#[derive(Clone, Copy, Debug, PartialEq, Eq)]
pub struct ChangeHash {
    pub bytes: [u8; 32],
}

impl View for ChangeHash {
    type V = Seq<u8>;

    open spec fn view(&self) -> Seq<u8> {
        self.bytes@
    }
}

impl ChangeHash {
    /// Whether two hashes are the same.
    pub fn same(&self, other: &ChangeHash) -> (r: bool)
        ensures
            r == (self@ == other@),
            r == (*self == *other),
    {
        let mut i: usize = 0;
        while i < 32
            invariant
                i <= 32,
                forall|j: int| 0 <= j < i ==> self.bytes@[j] == other.bytes@[j],
            decreases 32 - i,
        {
            if self.bytes[i] != other.bytes[i] {
                assert(self.bytes@[i as int] != other.bytes@[i as int]);
                return false;
            }
            i = i + 1;
        }
        assert(self.bytes@ == other.bytes@);
        assert(self.bytes =~= other.bytes);
        true
    }

    /// The hash that a text writes out.
    pub fn from_text(text: &str) -> (r: Option<ChangeHash>)
        ensures
            r is Some <==> is_hash_text(text@),
            r matches Some(h) ==> h@ == text_hash(text@),
    {
        match parse_hash(text) {
            Some(bytes) => Some(ChangeHash { bytes }),
            None => None,
        }
    }

    /// The text of the hash.
    pub fn to_text(&self) -> (r: String)
        ensures
            r@ == hash_text(self@),
    {
        write_hash(&self.bytes)
    }
}

/// The text of a change hash reads back as the hash.
pub proof fn hash_text_reads_back(hash: ChangeHash)
    ensures
        is_hash_text(hash_text(hash@)),
        text_hash(hash_text(hash@)) == hash@,
{
    let b = hash@;
    let t = hash_text(b);
    assert forall|i: int| 0 <= i < t.len() implies is_hex(#[trigger] t[i]) by {
        assert(0 <= b[i / 2] as int / 16 < 16);
        assert(0 <= b[i / 2] as int % 16 < 16);
    }
    assert forall|i: int| 0 <= i < 32 implies text_hash(t)[i] == b[i] by {
        assert((2 * i) % 2 == 0 && (2 * i) / 2 == i);
        assert((2 * i + 1) % 2 == 1 && (2 * i + 1) / 2 == i);
        let n = b[i] as int;
        assert(0 <= n / 16 < 16 && 0 <= n % 16 < 16);
        assert(hex_digit(lower_hex(n / 16)) == n / 16);
        assert(hex_digit(lower_hex(n % 16)) == n % 16);
        assert(t[2 * i] == lower_hex(n / 16));
        assert(t[2 * i + 1] == lower_hex(n % 16));
    }
    assert(text_hash(t) == b);
}

/// The id of a document.
#[derive(Clone, Copy, Debug, PartialEq, Eq)]
pub struct DocumentId {
    pub bytes: [u8; 16],
}

impl View for DocumentId {
    type V = Seq<u8>;

    open spec fn view(&self) -> Seq<u8> {
        self.bytes@
    }
}

impl DocumentId {
    /// The id that a text writes out.
    pub fn from_text(text: &str) -> (r: Option<DocumentId>)
        ensures
            (match r {
                Some(id) => Some(id@),
                None => None,
            }) == document_id(text@),
    {
        match parse_document_id(text) {
            Some(bytes) => Some(DocumentId { bytes }),
            None => None,
        }
    }

    /// The text of the id, which reads back as the id.
    pub fn to_text(&self) -> (r: String)
        ensures
            r@ == document_id_text(self@),
            document_id(r@) == Some(self@),
    {
        write_document_id(&self.bytes)
    }

    /// Whether two ids are the same.
    pub fn same(&self, other: &DocumentId) -> (r: bool)
        ensures
            r == (self@ == other@),
            r == (*self == *other),
    {
        let mut i: usize = 0;
        while i < 16
            invariant
                i <= 16,
                forall|j: int| 0 <= j < i ==> self.bytes@[j] == other.bytes@[j],
            decreases 16 - i,
        {
            if self.bytes[i] != other.bytes[i] {
                assert(self.bytes@[i as int] != other.bytes@[i as int]);
                return false;
            }
            i = i + 1;
        }
        assert(self.bytes@ == other.bytes@);
        assert(self.bytes =~= other.bytes);
        true
    }
}

/// The bytes of each hash.
pub open spec fn hash_views(hashes: Seq<ChangeHash>) -> Seq<Seq<u8>> {
    hashes.map_values(|h: ChangeHash| h@)
}

/// The changes at which a document's history ends, in no particular order.
#[derive(Debug)]
pub struct Heads {
    hashes: Vec<ChangeHash>,
}

impl View for Heads {
    type V = Seq<ChangeHash>;

    closed spec fn view(&self) -> Seq<ChangeHash> {
        self.hashes@
    }
}

impl Clone for Heads {
    fn clone(&self) -> (r: Heads)
        ensures
            r@ == self@,
    {
        let hashes = self.hashes.clone();
        assert(hashes@ == self.hashes@);
        Heads { hashes }
    }
}

impl Default for Heads {
    fn default() -> (r: Heads)
        ensures
            r@ == Seq::<ChangeHash>::empty(),
    {
        Heads { hashes: Vec::new() }
    }
}

/// Hashes as a developer reads them, one after the other.
pub open spec fn hashes_shown(hashes: Seq<ChangeHash>) -> Seq<char>
    decreases hashes.len(),
{
    if hashes.len() == 0 {
        ""@
    } else {
        let shown = "ChangeHash(\""@ + hash_text(hashes.last()@) + "\")"@;
        if hashes.len() == 1 {
            shown
        } else {
            hashes_shown(hashes.drop_last()) + ", "@ + shown
        }
    }
}

impl Heads {
    /// The heads as a developer reads them.
    pub fn shown(&self) -> (r: String)
        ensures
            r@ == "Heads(["@ + hashes_shown(self@) + "])"@,
    {
        let mut list = "".to_owned();
        let mut i: usize = 0;
        assert(self@.take(0) == Seq::<ChangeHash>::empty());
        while i < self.hashes.len()
            invariant
                i <= self.hashes.len(),
                list@ == hashes_shown(self@.take(i as int)),
            decreases self.hashes.len() - i,
        {
            assert(self@.take(i + 1).drop_last() == self@.take(i as int));
            assert(self@.take(i + 1).last() == self.hashes@[i as int]);
            let text = self.hashes[i].to_text();
            let hash = joined3("ChangeHash(\"", text.as_str(), "\")");
            if i == 0 {
                list = hash;
            } else {
                list = joined3(list.as_str(), ", ", hash.as_str());
            }
            i = i + 1;
        }
        assert(self@.take(self@.len() as int) == self@);
        joined3("Heads([", list.as_str(), "])")
    }
}

/// The heads hold the same changes, each as often, in whatever order.
pub open spec fn same_heads(a: Seq<ChangeHash>, b: Seq<ChangeHash>) -> bool {
    a.to_multiset() == b.to_multiset()
}

impl Heads {
    pub fn from_vec(hashes: Vec<ChangeHash>) -> (r: Heads)
        ensures
            r@ == hashes@,
    {
        Heads { hashes }
    }

    pub fn into_vec(self) -> (r: Vec<ChangeHash>)
        ensures
            r@ == self@,
    {
        self.hashes
    }

    /// The hashes, in the order in which they are held.
    pub fn iter(&self) -> (r: &Vec<ChangeHash>)
        ensures
            r@ == self@,
    {
        &self.hashes
    }

    /// The hashes, for change.
    pub fn iter_mut(&mut self) -> (r: &mut Vec<ChangeHash>)
        ensures
            r@ == old(self)@,
            final(self)@ == final(r)@,
    {
        &mut self.hashes
    }

    pub fn len(&self) -> (n: usize)
        ensures
            n == self@.len(),
    {
        self.hashes.len()
    }

    /// Whether both hold the same changes, in whatever order.
    pub fn same(&self, other: &Heads) -> (r: bool)
        ensures
            r == same_heads(self@, other@),
    {
        let mut rest: Vec<ChangeHash> = Vec::new();
        let mut k: usize = 0;
        while k < other.hashes.len()
            invariant
                k <= other.hashes.len(),
                rest@ == other@.take(k as int),
                other@ == other.hashes@,
            decreases other.hashes.len() - k,
        {
            rest.push(other.hashes[k]);
            k = k + 1;
        }
        assert(rest@ == other@);
        let mut i: usize = 0;
        proof {
            broadcast use group_to_multiset_ensures;

            assert(self@.take(0).to_multiset() == Multiset::<ChangeHash>::empty());
            assert(other@.to_multiset() == Multiset::<ChangeHash>::empty().add(
                rest@.to_multiset(),
            ));
        }
        while i < self.hashes.len()
            invariant
                i <= self.hashes.len(),
                self@ == self.hashes@,
                other@.to_multiset() == self@.take(i as int).to_multiset().add(
                    rest@.to_multiset(),
                ),
            decreases self.hashes.len() - i,
        {
            let h = self.hashes[i];
            let ghost before = rest@;
            let mut j: usize = 0;
            let mut found = false;
            while j < rest.len() && !found
                invariant
                    j <= rest.len(),
                    rest@ == before,
                    forall|m: int| 0 <= m < j ==> rest@[m] != h,
                    found ==> j < rest.len() && rest@[j as int] == h,
                decreases rest.len() - j, (if found { 0int } else { 1 }),
            {
                if rest[j].same(&h) {
                    found = true;
                } else {
                    j = j + 1;
                }
            }
            proof {
                broadcast use group_to_multiset_ensures;

                assert(self@.take(i + 1) == self@.take(i as int).push(h));
                assert(self@.take(i + 1).to_multiset() == self@.take(i as int).to_multiset().insert(
                    h,
                ));
            }
            if !found {
                proof {
                    broadcast use group_to_multiset_ensures;

                    assert(!rest@.contains(h));
                    assert(rest@.to_multiset().count(h) == 0);
                    let head = self@.take(i + 1);
                    let tail = self@.skip(i + 1);
                    assert(self@ == head + tail);
                    lemma_multiset_commutative(head, tail);
                    assert(self@.to_multiset().count(h) >= head.to_multiset().count(h));
                    assert(head.to_multiset().count(h) == 1 + other@.to_multiset().count(h));
                }
                return false;
            }
            let _ = rest.remove(j);
            proof {
                broadcast use group_to_multiset_ensures;

                assert(rest@ == before.remove(j as int));
                assert(before.to_multiset().count(h) > 0) by {
                    assert(before.contains(h));
                }
                assert(rest@.to_multiset() == before.to_multiset().remove(h));
                assert(other@.to_multiset() =~= self@.take(i + 1).to_multiset().add(
                    rest@.to_multiset(),
                ));
            }
            i = i + 1;
        }
        proof {
            broadcast use group_to_multiset_ensures;

            assert(self@.take(self@.len() as int) == self@);
            if rest@.len() == 0 {
                assert(rest@ == Seq::<ChangeHash>::empty());
                assert(other@.to_multiset() =~= self@.to_multiset());
            } else {
                assert(other@.to_multiset().len() == self@.to_multiset().len() + rest@.len());
            }
        }
        rest.len() == 0
    }

    /// The heads that texts write out, or the first text that writes out none.
    pub fn hydrate(texts: &Vec<String>) -> (r: Result<Heads, String>)
        ensures
            r is Ok <==> forall|i: int| 0 <= i < texts.len() ==> is_hash_text((#[trigger] texts@[i])@),
            r matches Ok(h) ==> hash_views(h@) == texts@.map_values(|t: String| text_hash(t@)),
            r matches Err(t) ==> exists|i: int|
                0 <= i < texts.len() && t == #[trigger] texts@[i] && !is_hash_text(t@) && forall|j: int|
                    0 <= j < i ==> is_hash_text((#[trigger] texts@[j])@),
    {
        let mut hashes: Vec<ChangeHash> = Vec::new();
        let mut i: usize = 0;
        while i < texts.len()
            invariant
                i <= texts.len(),
                hashes.len() == i,
                forall|j: int| 0 <= j < i ==> is_hash_text((#[trigger] texts@[j])@),
                forall|j: int| 0 <= j < i ==> (#[trigger] hashes@[j])@ == text_hash(texts@[j]@),
            decreases texts.len() - i,
        {
            match ChangeHash::from_text(texts[i].as_str()) {
                Some(h) => {
                    hashes.push(h);
                },
                None => {
                    return Err(texts[i].clone());
                },
            }
            i = i + 1;
        }
        assert(hash_views(hashes@) == texts@.map_values(|t: String| text_hash(t@)));
        Ok(Heads { hashes })
    }

    /// The texts of the heads.
    pub fn reconcile(&self) -> (r: Vec<String>)
        ensures
            r@.map_values(|t: String| t@) == self@.map_values(|h: ChangeHash| hash_text(h@)),
    {
        let mut texts: Vec<String> = Vec::new();
        let mut i: usize = 0;
        while i < self.hashes.len()
            invariant
                i <= self.hashes.len(),
                texts.len() == i,
                self@ == self.hashes@,
                forall|j: int| 0 <= j < i ==> (#[trigger] texts@[j])@ == hash_text(self@[j]@),
            decreases self.hashes.len() - i,
        {
            texts.push(self.hashes[i].to_text());
            i = i + 1;
        }
        assert(texts@.map_values(|t: String| t@) == self@.map_values(
            |h: ChangeHash| hash_text(h@),
        ));
        texts
    }
}

/// Which order heads are held in makes no difference: sameness of heads is an equivalence, and
/// holds between heads and every rearrangement of them.
pub proof fn heads_have_no_order(a: Seq<ChangeHash>, b: Seq<ChangeHash>, c: Seq<ChangeHash>)
    ensures
        same_heads(a, a),
        same_heads(a, b) ==> same_heads(b, a),
        same_heads(a, b) && same_heads(b, c) ==> same_heads(a, c),
        same_heads(a + b, b + a),
{
    lemma_multiset_commutative(a, b);
    lemma_multiset_commutative(b, a);
    assert((a + b).to_multiset() =~= (b + a).to_multiset());
}

/// Heads that were written as texts are read back from them.
pub proof fn reconciled_heads_hydrate(heads: Seq<ChangeHash>)
    ensures
        forall|i: int| 0 <= i < heads.len() ==> is_hash_text(hash_text((#[trigger] heads[i])@)),
        heads.map_values(|h: ChangeHash| text_hash(hash_text(h@))) == hash_views(heads),
{
    assert forall|i: int| 0 <= i < heads.len() implies is_hash_text(
        hash_text((#[trigger] heads[i])@),
    ) && text_hash(hash_text(heads[i]@)) == heads[i]@ by {
        hash_text_reads_back(heads[i]);
    }
    assert(heads.map_values(|h: ChangeHash| text_hash(hash_text(h@))) == hash_views(heads));
}

/// A point in the history of a branch.
#[derive(Debug)]
pub struct HistoryRef {
    pub branch: DocumentId,
    pub heads: Heads,
}

impl Clone for HistoryRef {
    fn clone(&self) -> (r: HistoryRef)
        ensures
            r.branch == self.branch,
            r.heads@ == self.heads@,
    {
        HistoryRef { branch: self.branch, heads: self.heads.clone() }
    }
}

impl HistoryRef {
    /// The same branch at the same heads.
    pub open spec fn is_same(self, other: HistoryRef) -> bool {
        self.branch@ == other.branch@ && same_heads(self.heads@, other.heads@)
    }

    /// The reference names at least one change.
    pub open spec fn valid(self) -> bool {
        self.heads@.len() > 0
    }

    pub fn same(&self, other: &HistoryRef) -> (r: bool)
        ensures
            r == self.is_same(*other),
    {
        self.branch.same(&other.branch) && self.heads.same(&other.heads)
    }

    pub fn is_valid(&self) -> (r: bool)
        ensures
            r == self.valid(),
    {
        self.heads.len() > 0
    }
}


/// Heads are the same only where they hold as many changes, and each of them as often: one more
/// of the same change on both sides makes no difference.
pub proof fn same_heads_hold_the_same_changes(
    a: Seq<ChangeHash>,
    b: Seq<ChangeHash>,
    hash: ChangeHash,
)
    ensures
        same_heads(a, b) ==> a.len() == b.len(),
        same_heads(a, b) ==> (a.contains(hash) <==> b.contains(hash)),
        same_heads(a.push(hash), b.push(hash)) <==> same_heads(a, b),
{
    broadcast use group_to_multiset_ensures;

    assert(a.to_multiset().len() == a.len() && b.to_multiset().len() == b.len());
    assert(a.contains(hash) <==> a.to_multiset().count(hash) > 0);
    assert(b.contains(hash) <==> b.to_multiset().count(hash) > 0);
    assert(a.push(hash).to_multiset() == a.to_multiset().insert(hash));
    assert(b.push(hash).to_multiset() == b.to_multiset().insert(hash));
    if same_heads(a.push(hash), b.push(hash)) {
        assert(a.to_multiset() =~= a.to_multiset().insert(hash).remove(hash));
        assert(b.to_multiset() =~= b.to_multiset().insert(hash).remove(hash));
    }
}

/// A point in history is told by its branch and by its heads, in whatever order: a point of
/// another branch, or with other heads, is another one.
pub proof fn points_are_told_by_branch_and_heads(a: HistoryRef, b: HistoryRef)
    ensures
        a.branch@ != b.branch@ ==> !a.is_same(b),
        a.heads@.to_multiset() != b.heads@.to_multiset() ==> !a.is_same(b),
        a.branch == b.branch && same_heads(a.heads@, b.heads@) ==> a.is_same(b),
        a.is_same(b) ==> b.is_same(a) && (a.valid() <==> b.valid()),
{
    broadcast use group_to_multiset_ensures;

    assert(a.heads@.to_multiset().len() == a.heads@.len());
    assert(b.heads@.to_multiset().len() == b.heads@.len());
}

/// A point without heads is none, and one with a head is.
pub proof fn points_have_heads(point: HistoryRef, hash: ChangeHash)
    ensures
        point.heads@ == Seq::<ChangeHash>::empty() ==> !point.valid(),
        point.heads@.contains(hash) ==> point.valid(),
{
}

/// Heads are shown one after the other, in the order in which they are held.
pub proof fn heads_are_shown_in_order(hashes: Seq<ChangeHash>, hash: ChangeHash)
    ensures
        hashes_shown(seq![hash]) == "ChangeHash(\""@ + hash_text(hash@) + "\")"@,
        hashes.len() > 0 ==> hashes_shown(hashes.push(hash)) == hashes_shown(hashes) + ", "@
            + hashes_shown(seq![hash]),
{
    assert(hashes.push(hash).drop_last() == hashes);
    reveal_with_fuel(hashes_shown, 2);
}

/// Each byte of a hash is written as two digits, the higher half first.
pub proof fn bytes_are_written_as_two_digits(bytes: Seq<u8>, i: int)
    requires
        0 <= i < bytes.len(),
    ensures
        hash_text(bytes).len() == 2 * bytes.len(),
        bytes[i] == 16 * hex_digit(hash_text(bytes)[2 * i]) + hex_digit(hash_text(bytes)[2 * i + 1]),
        hash_text(bytes)[2 * i] < 'A' || 'Z' < hash_text(bytes)[2 * i],
        hash_text(bytes)[2 * i + 1] < 'A' || 'Z' < hash_text(bytes)[2 * i + 1],
{
    let n = bytes[i] as int;
    assert((2 * i) % 2 == 0 && (2 * i) / 2 == i);
    assert((2 * i + 1) % 2 == 1 && (2 * i + 1) / 2 == i);
    assert(n == 16 * (n / 16) + n % 16);
}

} // verus!
