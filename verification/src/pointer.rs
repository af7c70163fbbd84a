//! Paths into a contract's storage, and the bytes they are made of.

use vstd::prelude::*;
use vstd::bytes::{lemma_auto_spec_u128_to_from_le_bytes, spec_u128_to_le_bytes, u128_to_le_bytes};
use vstd::string::{StrSliceExecFns, StringSliceAdditionalSpecFns};
use vstd::utf8::{is_ascii_chars, is_ascii_chars_encode_utf8};

verus! {

/// The bytes of a path segment written as text: its UTF-8 encoding.
pub open spec fn keyword(text: &str) -> Seq<u8> {
    text.spec_bytes()
}

/// The bytes that select the entry of an indexed table: the index as 16
/// little-endian bytes.
pub open spec fn index_segment(index: u128) -> Seq<u8> {
    spec_u128_to_le_bytes(index)
}

/// A position in the contract's storage: the byte string under which a value
/// is kept. Paths are built from a text keyword and extended segment by
/// segment.
#[derive(Debug, PartialEq, Eq)]
pub struct StoragePointer {
    path: Vec<u8>,
}

impl Clone for StoragePointer {
    fn clone(&self) -> (copy: StoragePointer)
        ensures
            copy@ == self@,
    {
        StoragePointer { path: self.unwrap() }
    }
}

impl View for StoragePointer {
    type V = Seq<u8>;

    closed spec fn view(&self) -> Seq<u8> {
        self.path@
    }
}

impl StoragePointer {
    /// The pointer whose path is the given bytes.
    pub fn wrap(path: &Vec<u8>) -> (ptr: StoragePointer)
        ensures
            ptr@ == path@,
    {
        StoragePointer { path: copy_bytes(path.as_slice()) }
    }

    /// The pointer whose path is the given text.
    pub fn from_keyword(text: &str) -> (ptr: StoragePointer)
        ensures
            ptr@ == keyword(text),
    {
        StoragePointer { path: text.as_bytes_vec() }
    }

    /// The pointer one text segment below this one.
    pub fn keyword(&self, text: &str) -> (ptr: StoragePointer)
        ensures
            ptr@ == self@ + keyword(text),
    {
        let mut path = self.unwrap();
        let mut tail = text.as_bytes_vec();
        path.append(&mut tail);
        StoragePointer { path }
    }

    /// The pointer one raw segment below this one.
    pub fn select(&self, segment: &Vec<u8>) -> (ptr: StoragePointer)
        ensures
            ptr@ == self@ + segment@,
    {
        let mut path = self.unwrap();
        let mut tail = copy_bytes(segment.as_slice());
        path.append(&mut tail);
        StoragePointer { path }
    }

    /// The pointer to entry `index` of the table at this pointer.
    pub fn select_value(&self, index: u128) -> (ptr: StoragePointer)
        ensures
            ptr@ == self@ + index_segment(index),
    {
        let mut path = self.unwrap();
        let mut tail = u128_to_le_bytes(index);
        path.append(&mut tail);
        StoragePointer { path }
    }

    /// The path of this pointer.
    pub fn unwrap(&self) -> (path: Vec<u8>)
        ensures
            path@ == self@,
    {
        copy_bytes(self.path.as_slice())
    }
}

/// A fresh vector holding the same bytes as `bytes`.
pub fn copy_bytes(bytes: &[u8]) -> (copy: Vec<u8>)
    ensures
        copy@ == bytes@,
{
    let mut copy: Vec<u8> = Vec::new();
    let mut i: usize = 0;
    while i < bytes.len()
        invariant
            i <= bytes.len(),
            copy@ == bytes@.take(i as int),
        decreases bytes.len() - i,
    {
        copy.push(bytes[i]);
        i += 1;
    }
    copy
}

/// Whether two byte strings hold the same bytes.
pub fn same_bytes(a: &[u8], b: &[u8]) -> (same: bool)
    ensures
        same == (a@ == b@),
{
    if a.len() != b.len() {
        return false;
    }
    let mut i: usize = 0;
    while i < a.len()
        invariant
            i <= a.len(),
            a.len() == b.len(),
            a@.take(i as int) == b@.take(i as int),
        decreases a.len() - i,
    {
        if a[i] != b[i] {
            return false;
        }
        assert(a@.take(i + 1) == a@.take(i as int).push(a@[i as int]));
        assert(b@.take(i + 1) == b@.take(i as int).push(b@[i as int]));
        i += 1;
    }
    assert(a@ == a@.take(a.len() as int));
    assert(b@ == b@.take(b.len() as int));
    true
}

/// A keyword written in ASCII is stored byte for character.
pub proof fn lemma_ascii_keyword(text: &str)
    requires
        is_ascii_chars(text@),
    ensures
        keyword(text).len() == text@.len(),
        forall|i: int| 0 <= i < text@.len() ==> #[trigger] keyword(text)[i] == text@[i] as u8,
{
    is_ascii_chars_encode_utf8(text@);
}

/// Entries of one table lie at different paths: the index can be read back
/// from the path.
pub proof fn lemma_select_value_injective(prefix: Seq<u8>, i: u128, j: u128)
    ensures
        (prefix + index_segment(i)).len() == prefix.len() + 16,
        prefix + index_segment(i) == prefix + index_segment(j) ==> i == j,
{
    lemma_auto_spec_u128_to_from_le_bytes();
    let a = prefix + index_segment(i);
    let b = prefix + index_segment(j);
    if a == b {
        assert(a.subrange(prefix.len() as int, a.len() as int) == index_segment(i));
        assert(b.subrange(prefix.len() as int, b.len() as int) == index_segment(j));
    }
}

} // verus!
