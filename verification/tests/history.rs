use backstitch::digest::{compute_hash, FileHash, FileHasher};
use backstitch::history::{ChangeHash, DocumentId, Heads, HistoryRef};

fn hash(first: u8) -> ChangeHash {
    let mut bytes = [0u8; 32];
    bytes[0] = first;
    ChangeHash { bytes }
}

fn id(first: u8) -> DocumentId {
    let mut bytes = [7u8; 16];
    bytes[0] = first;
    DocumentId { bytes }
}

#[test]
fn change_hashes_are_written_in_hex() {
    let text = hash(0xab).to_text();
    assert_eq!(text.len(), 64);
    assert!(text.starts_with("ab00"));
    assert!(ChangeHash::from_text(&text).unwrap().same(&hash(0xab)));
    assert!(ChangeHash::from_text(&text.to_uppercase()).unwrap().same(&hash(0xab)));
    assert_eq!(text, automerge::ChangeHash(hash(0xab).bytes).to_string());
}

#[test]
fn texts_that_are_no_hashes_are_refused() {
    assert!(ChangeHash::from_text("").is_none());
    assert!(ChangeHash::from_text("ab").is_none());
    let mut text = hash(1).to_text();
    text.replace_range(0..1, "g");
    assert!(ChangeHash::from_text(&text).is_none());
}

#[test]
fn document_ids_read_back() {
    let text = id(1).to_text();
    assert_ne!(text, "");
    assert!(DocumentId::from_text(&text).unwrap().same(&id(1)));
    assert!(!DocumentId::from_text(&text).unwrap().same(&id(2)));
    let uuid = "aa3ecb4c-1ee5-4a67-be9e-6ecf1a5c3f2b";
    let parsed = DocumentId::from_text(uuid).unwrap();
    assert_eq!(parsed.bytes[0], 0xaa);
    assert!(DocumentId::from_text("not a doc id").is_none());
}

#[test]
fn the_order_of_heads_makes_no_difference() {
    let a = Heads::from_vec(vec![hash(1), hash(2)]);
    let b = Heads::from_vec(vec![hash(2), hash(1)]);
    let c = Heads::from_vec(vec![hash(1)]);
    assert!(a.same(&b));
    assert!(a.same(&a.clone()));
    assert!(!a.same(&c));
    assert_eq!(a.len(), 2);
    assert_eq!(Heads::default().len(), 0);
    assert_eq!(b.into_vec().len(), 2);
}

#[test]
fn heads_are_written_as_texts_and_read_back() {
    let heads = Heads::from_vec(vec![hash(1), hash(2)]);
    let texts = heads.reconcile();
    assert_eq!(texts.len(), 2);
    assert!(texts[0].starts_with("01"));
    assert!(Heads::hydrate(&texts).unwrap().same(&heads));
    let mut broken = texts.clone();
    broken.push("nonsense".to_string());
    assert!(Heads::hydrate(&broken).is_err());
}

#[test]
fn heads_can_be_changed_in_place() {
    let mut heads = Heads::from_vec(vec![hash(1)]);
    heads.iter_mut().push(hash(3));
    assert_eq!(heads.iter().len(), 2);
    assert!(heads.iter()[1].same(&hash(3)));
}

#[test]
fn references_are_valid_with_heads_only() {
    let none = HistoryRef { branch: id(1), heads: Heads::default() };
    let some = HistoryRef { branch: id(1), heads: Heads::from_vec(vec![hash(1)]) };
    let other = HistoryRef { branch: id(2), heads: Heads::from_vec(vec![hash(1)]) };
    assert!(!none.is_valid());
    assert!(some.is_valid());
    assert!(some.same(&some.clone()));
    assert!(!some.same(&other));
    assert!(!some.same(&none));
}

#[test]
fn file_hashes_are_blake3() {
    let hash = FileHash::of(b"hello world");
    assert_eq!(&hash.bytes, blake3::hash(b"hello world").as_bytes());
    assert_eq!(hash.to_text(), blake3::hash(b"hello world").to_hex().to_string());
    assert!(FileHash::from_slice(&hash.bytes.to_vec()).unwrap().same(&hash));
    assert!(FileHash::from_slice(&vec![1, 2, 3]).is_none());
    assert!(!hash.same(&FileHash::of(b"")));
}

#[test]
fn hashing_in_pieces_makes_no_difference() {
    let mut hasher = FileHasher::new();
    hasher.update(b"hello ");
    hasher.update(b"world");
    assert!(hasher.finish().same(&FileHash::of(b"hello world")));
    let pieces = vec![b"hel".to_vec(), Vec::new(), b"lo world".to_vec()];
    assert!(compute_hash(&pieces).same(&FileHash::of(b"hello world")));
}
