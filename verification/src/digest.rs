//! BLAKE3 hashes of file contents.

use crate::history::{hash_text, lower_hex};
use vstd::prelude::*;
use vstd::slice::*;

verus! {

/// The BLAKE3 hash of a sequence of bytes.
pub uninterp spec fn blake3_hash(bytes: Seq<u8>) -> Seq<u8>;

/// `blake3::Hasher`, which takes the bytes to hash piece by piece.
#[verifier::external_type_specification]
#[verifier::external_body]
pub struct ExHasher(blake3::Hasher);

/// The bytes that a hasher was given so far.
pub uninterp spec fn absorbed(hasher: blake3::Hasher) -> Seq<u8>;

/// The hasher computes plain hashes: it was made without a key and for no other use.
pub uninterp spec fn is_plain(hasher: blake3::Hasher) -> bool;

/// `blake3::hash`: the BLAKE3 hash of the bytes.
#[verifier::external_body]
fn hash_bytes(bytes: &[u8]) -> (r: [u8; 32])
    ensures
        r@ == blake3_hash(bytes@),
{
    *blake3::hash(bytes).as_bytes()
}

/// `blake3::Hasher::new`: a hasher that was given nothing.
#[verifier::external_body]
fn new_hasher() -> (r: blake3::Hasher)
    ensures
        absorbed(r) == Seq::<u8>::empty(),
        is_plain(r),
{
    blake3::Hasher::new()
}

/// `blake3::Hasher::update`: the bytes go behind those that the hasher was given before.
#[verifier::external_body]
fn absorb(hasher: &mut blake3::Hasher, bytes: &[u8])
    ensures
        absorbed(*final(hasher)) == absorbed(*old(hasher)) + bytes@,
        is_plain(*final(hasher)) == is_plain(*old(hasher)),
{
    hasher.update(bytes);
}

/// `blake3::Hasher::finalize`: the hash of all that the hasher was given.
#[verifier::external_body]
fn finalize(hasher: &blake3::Hasher) -> (r: [u8; 32])
    requires
        is_plain(*hasher),
    ensures
        r@ == blake3_hash(absorbed(*hasher)),
{
    *hasher.finalize().as_bytes()
}

/// A BLAKE3 hash.
#[derive(Clone, Copy, Debug, PartialEq, Eq)]
pub struct FileHash {
    pub bytes: [u8; 32],
}

impl View for FileHash {
    type V = Seq<u8>;

    open spec fn view(&self) -> Seq<u8> {
        self.bytes@
    }
}

impl FileHash {
    /// The hash of the given bytes.
    pub fn of(bytes: &[u8]) -> (r: FileHash)
        ensures
            r@ == blake3_hash(bytes@),
    {
        FileHash { bytes: hash_bytes(bytes) }
    }

    /// The hash that the bytes write out, where there are thirty-two of them.
    pub fn from_slice(bytes: &Vec<u8>) -> (r: Option<FileHash>)
        ensures
            r is Some <==> bytes.len() == 32,
            r matches Some(h) ==> h@ == bytes@,
    {
        if bytes.len() != 32 {
            return None;
        }
        let mut out: [u8; 32] = [0;32];
        let mut i: usize = 0;
        while i < 32
            invariant
                i <= 32,
                bytes.len() == 32,
                forall|j: int| 0 <= j < i ==> out@[j] == bytes@[j],
            decreases 32 - i,
        {
            out[i] = bytes[i];
            i = i + 1;
        }
        assert(out@ == bytes@);
        Some(FileHash { bytes: out })
    }

    /// The text of the hash: two hex digits in lower case for each byte.
    pub fn to_text(&self) -> (r: String)
        ensures
            r@ == hash_text(self@),
    {
        let mut text = String::new();
        let mut i: usize = 0;
        while i < 32
            invariant
                i <= 32,
                text@.len() == 2 * i,
                forall|j: int| 0 <= j < 2 * i ==> #[trigger] text@[j] == hash_text(self@)[j],
            decreases 32 - i,
        {
            let byte = self.bytes[i];
            let ghost before = text@;
            assert((2 * i) % 2 == 0 && (2 * i) / 2 == i as int);
            assert((2 * i + 1) % 2 == 1 && (2 * i + 1) / 2 == i as int);
            assert(hash_text(self@)[2 * i] == lower_hex(byte as int / 16));
            assert(hash_text(self@)[2 * i + 1] == lower_hex(byte as int % 16));
            text.push(hex_char(byte / 16));
            text.push(hex_char(byte % 16));
            assert forall|j: int| 0 <= j < 2 * (i + 1) implies #[trigger] text@[j] == hash_text(
                self@,
            )[j] by {
                if j < 2 * i {
                    assert(text@[j] == before[j]);
                }
            }
            i = i + 1;
        }
        assert(text@ == hash_text(self@));
        text
    }

    /// Whether two hashes are the same.
    pub fn same(&self, other: &FileHash) -> (r: bool)
        ensures
            r == (self@ == other@),
            r == (*self == *other),
    {
        let mut i: usize = 0;
        while i < 32
            invariant
                i <= 32,
                forall|j: int| 0 <= j < i ==> self.bytes@[j] == other.bytes@[j],
            decreases 32 - i,
        {
            if self.bytes[i] != other.bytes[i] {
                assert(self.bytes@[i as int] != other.bytes@[i as int]);
                return false;
            }
            i = i + 1;
        }
        assert(self.bytes@ == other.bytes@);
        assert(self.bytes =~= other.bytes);
        true
    }
}

fn hex_char(d: u8) -> (c: char)
    requires
        d < 16,
    ensures
        c == lower_hex(d as int),
{
    if d < 10 {
        (48 + d) as char
    } else {
        (87 + d) as char
    }
}

/// The pieces put one after the other.
pub open spec fn joined_pieces(pieces: Seq<Seq<u8>>) -> Seq<u8>
    decreases pieces.len(),
{
    if pieces.len() == 0 {
        Seq::empty()
    } else {
        joined_pieces(pieces.drop_last()) + pieces.last()
    }
}

/// Hashes the contents of a file as it is read, piece by piece.
pub struct FileHasher {
    hasher: blake3::Hasher,
}

impl View for FileHasher {
    type V = Seq<u8>;

    closed spec fn view(&self) -> Seq<u8> {
        absorbed(self.hasher)
    }
}

impl FileHasher {
    #[verifier::type_invariant]
    spec fn inv(&self) -> bool {
        is_plain(self.hasher)
    }

    pub fn new() -> (r: FileHasher)
        ensures
            r@ == Seq::<u8>::empty(),
    {
        FileHasher { hasher: new_hasher() }
    }

    /// Takes the next piece.
    pub fn update(&mut self, piece: &[u8])
        ensures
            final(self)@ == old(self)@ + piece@,
    {
        proof {
            use_type_invariant(&*self);
        }
        let mut hasher = new_hasher();
        std::mem::swap(&mut hasher, &mut self.hasher);
        absorb(&mut hasher, piece);
        self.hasher = hasher;
    }

    /// The hash of all pieces so far.
    pub fn finish(&self) -> (r: FileHash)
        ensures
            r@ == blake3_hash(self@),
    {
        proof {
            use_type_invariant(self);
        }
        FileHash { bytes: finalize(&self.hasher) }
    }
}

/// The hash of a file that was read in pieces: the hash of its whole contents, however the pieces
/// were cut.
pub fn compute_hash(pieces: &Vec<Vec<u8>>) -> (r: FileHash)
    ensures
        r@ == blake3_hash(joined_pieces(pieces@.map_values(|p: Vec<u8>| p@))),
{
    let mut hasher = FileHasher::new();
    let ghost all = pieces@.map_values(|p: Vec<u8>| p@);
    let mut i: usize = 0;
    assert(all.take(0) == Seq::<Seq<u8>>::empty());
    while i < pieces.len()
        invariant
            i <= pieces.len(),
            all == pieces@.map_values(|p: Vec<u8>| p@),
            hasher@ == joined_pieces(all.take(i as int)),
        decreases pieces.len() - i,
    {
        hasher.update(pieces[i].as_slice());
        assert(all.take(i + 1).drop_last() == all.take(i as int));
        assert(all.take(i + 1).last() == pieces@[i as int]@);
        i = i + 1;
    }
    assert(all.take(all.len() as int) == all);
    hasher.finish()
}


/// Where a file is cut into pieces makes no difference to its hash.
pub proof fn the_cut_makes_no_difference(a: Seq<Seq<u8>>, b: Seq<Seq<u8>>, piece: Seq<u8>)
    ensures
        joined_pieces(Seq::empty()) == Seq::<u8>::empty(),
        joined_pieces(seq![piece]) == piece,
        joined_pieces(a + b) == joined_pieces(a) + joined_pieces(b),
        joined_pieces(seq![joined_pieces(a)]) == joined_pieces(a),
    decreases b.len(),
{
    reveal_with_fuel(joined_pieces, 2);
    assert(seq![piece].drop_last() == Seq::<Seq<u8>>::empty());
    assert(seq![joined_pieces(a)].drop_last() == Seq::<Seq<u8>>::empty());
    if b.len() > 0 {
        the_cut_makes_no_difference(a, b.drop_last(), piece);
        assert((a + b).drop_last() == a + b.drop_last());
        assert(joined_pieces(a) + (joined_pieces(b.drop_last()) + b.last()) == joined_pieces(a)
            + joined_pieces(b.drop_last()) + b.last());
    } else {
        assert(a + b == a);
        assert(joined_pieces(a) + Seq::<u8>::empty() == joined_pieces(a));
    }
}

} // verus!
