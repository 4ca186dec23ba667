//! Object ids and the modes of tree entries.

use vstd::prelude::*;
use vstd::slice::slice_to_vec;

use crate::bytes::bytes_equal;

verus! {

/// The kind of hash that names objects.
#[derive(Clone, Copy, Debug, Eq, PartialEq, Structural)]
pub enum HashKind {
    Sha1,
    Sha256,
}

impl Default for HashKind {
    fn default() -> (kind: Self)
        ensures
            kind == HashKind::Sha1,
    {
        HashKind::Sha1
    }
}

/// The name of an object: the bytes of its hash.
#[derive(Clone, Debug, Eq, PartialEq)]
pub struct ObjectId {
    /// The bytes of the hash.
    pub bytes: Vec<u8>,
}

impl View for ObjectId {
    type V = Seq<u8>;

    open spec fn view(&self) -> Seq<u8> {
        self.bytes@
    }
}

/// What an optional id stands for.
pub open spec fn view_id(id: Option<ObjectId>) -> Option<Seq<u8>> {
    match id {
        Some(id) => Some(id@),
        None => None,
    }
}

/// What a list of ids stands for.
pub open spec fn view_ids(ids: Seq<ObjectId>) -> Seq<Seq<u8>> {
    ids.map_values(|id: ObjectId| id@)
}

/// The lower-case hexadecimal digit for a number below sixteen.
pub open spec fn hex_digit(value: int) -> u8 {
    if value < 10 {
        (48 + value) as u8
    } else {
        (87 + value) as u8
    }
}

/// The hexadecimal form of `bytes`, two digits for each byte, the high one first.
pub open spec fn hex_of(bytes: Seq<u8>) -> Seq<u8> {
    Seq::new(
        2 * bytes.len(),
        |i: int|
            hex_digit(
                if i % 2 == 0 {
                    bytes[i / 2] as int / 16
                } else {
                    bytes[i / 2] as int % 16
                },
            ),
    )
}

/// Whether two ids have the same hexadecimal form up to the given number of digits.
pub open spec fn same_start(left: Seq<u8>, right: Seq<u8>, digits: usize) -> bool {
    hex_of(left).take(digits as int) == hex_of(right).take(digits as int)
}

/// What an object is.
#[derive(Clone, Copy, Debug, Eq, PartialEq, Structural)]
pub enum ObjectKind {
    Tree,
    Blob,
    Commit,
    Tag,
}

fn digit(value: u8) -> (byte: u8)
    requires
        value < 16,
    ensures
        byte == hex_digit(value as int),
{
    if value < 10 {
        48 + value
    } else {
        87 + value
    }
}

impl ObjectId {
    /// The id with the given bytes.
    pub fn new(bytes: &[u8]) -> (id: ObjectId)
        ensures
            id@ == bytes@,
    {
        ObjectId { bytes: slice_to_vec(bytes) }
    }

    /// Another copy of this id.
    pub fn copy(&self) -> (id: ObjectId)
        ensures
            id@ == self@,
    {
        ObjectId::new(self.bytes.as_slice())
    }

    /// Whether both are the name of the same object.
    pub fn same(&self, other: &ObjectId) -> (same: bool)
        ensures
            same == (self@ == other@),
    {
        bytes_equal(self.bytes.as_slice(), other.bytes.as_slice())
    }

    /// The hexadecimal form of this id.
    pub fn to_hex(&self) -> (hex: Vec<u8>)
        ensures
            hex@ == hex_of(self@),
    {
        let mut hex: Vec<u8> = Vec::new();
        let mut i: usize = 0;
        while i < self.bytes.len()
            invariant
                i <= self.bytes.len(),
                hex@.len() == 2 * i,
                forall|k: int| 0 <= k < 2 * i ==> hex@[k] == hex_of(self@)[k],
            decreases self.bytes.len() - i,
        {
            let byte: u8 = self.bytes[i];
            hex.push(digit(byte / 16));
            hex.push(digit(byte % 16));
            assert((2 * i) / 2 == i && (2 * i + 1) / 2 == i && (2 * i) % 2 == 0 && (2 * i + 1) % 2
                == 1);
            assert(hex_of(self@)[2 * i as int] == hex_digit(byte as int / 16));
            assert(hex_of(self@)[2 * i + 1] == hex_digit(byte as int % 16));
            i += 1;
        }
        assert(hex@ =~= hex_of(self@));
        hex
    }
}

/// Whether two optional ids are both absent or name the same object.
pub fn same_id(left: &Option<ObjectId>, right: &Option<ObjectId>) -> (same: bool)
    ensures
        same == (view_id(*left) == view_id(*right)),
{
    match (left, right) {
        (Some(left), Some(right)) => left.same(right),
        (None, None) => true,
        _ => false,
    }
}

proof fn lemma_hex_digits(bytes: Seq<u8>, i: int)
    requires
        0 <= i < bytes.len(),
    ensures
        hex_of(bytes)[2 * i] == hex_digit(bytes[i] as int / 16),
        hex_of(bytes)[2 * i + 1] == hex_digit(bytes[i] as int % 16),
{
    assert((2 * i) / 2 == i && (2 * i + 1) / 2 == i && (2 * i) % 2 == 0 && (2 * i + 1) % 2 == 1);
}

proof fn lemma_hex_digit_faithful(left: int, right: int)
    requires
        0 <= left < 16,
        0 <= right < 16,
        hex_digit(left) == hex_digit(right),
    ensures
        left == right,
{
}

/// Different ids have different hexadecimal forms.
pub proof fn law_hex_is_faithful(left: Seq<u8>, right: Seq<u8>)
    requires
        hex_of(left) == hex_of(right),
    ensures
        left == right,
{
    assert(hex_of(left).len() == 2 * left.len());
    assert(hex_of(right).len() == 2 * right.len());
    assert forall|i: int| 0 <= i < left.len() implies left[i] == right[i] by {
        lemma_hex_digits(left, i);
        lemma_hex_digits(right, i);
        lemma_hex_digit_faithful(left[i] as int / 16, right[i] as int / 16);
        lemma_hex_digit_faithful(left[i] as int % 16, right[i] as int % 16);
    }
    assert(left =~= right);
}

/// What a tree entry is.
#[derive(Clone, Copy, Debug, Eq, PartialEq, Structural)]
pub enum EntryKind {
    /// A directory.
    Tree,
    /// A file that is not executable.
    Blob,
    /// A file that is executable.
    BlobExecutable,
    /// A symbolic link.
    Link,
    /// A commit of a submodule.
    Commit,
}

/// The mode of a tree entry, as a number like that of a file system, where a tree may also be marked as
/// one whose mode is written with a zero in front.
#[derive(Clone, Copy, Debug, Eq, PartialEq, Structural)]
pub struct EntryMode {
    /// The number itself.
    pub value: u16,
}

impl EntryMode {
    /// The part of the mode that tells what the entry is, without the mark of a tree.
    pub open spec fn format_bits(self) -> u16 {
        if self.value & 0o170000 == 0o140000 {
            0o040000
        } else {
            self.value & 0o170000
        }
    }

    /// Whether the owner may execute the entry.
    pub open spec fn executable_bit(self) -> bool {
        self.value & 0o100 == 0o100
    }

    /// What an entry of this mode is; anything unknown counts as a submodule.
    pub open spec fn kind_spec(self) -> EntryKind {
        if self.format_bits() == 0o100000 {
            if self.executable_bit() {
                EntryKind::BlobExecutable
            } else {
                EntryKind::Blob
            }
        } else if self.format_bits() == 0o120000 {
            EntryKind::Link
        } else if self.format_bits() == 0o040000 {
            EntryKind::Tree
        } else {
            EntryKind::Commit
        }
    }

    /// The ordinary mode of entries of the given kind.
    pub fn of(kind: EntryKind) -> (mode: EntryMode)
        ensures
            mode.value == (match kind {
                EntryKind::Tree => 0o040000u16,
                EntryKind::Blob => 0o100644u16,
                EntryKind::BlobExecutable => 0o100755u16,
                EntryKind::Link => 0o120000u16,
                EntryKind::Commit => 0o160000u16,
            }),
            mode.kind_spec() == kind,
    {
        let value: u16 = match kind {
            EntryKind::Tree => 0o040000,
            EntryKind::Blob => 0o100644,
            EntryKind::BlobExecutable => 0o100755,
            EntryKind::Link => 0o120000,
            EntryKind::Commit => 0o160000,
        };
        assert(0o040000u16 & 0o170000 == 0o040000 && 0o100644u16 & 0o170000 == 0o100000
            && 0o100755u16 & 0o170000 == 0o100000 && 0o120000u16 & 0o170000 == 0o120000
            && 0o160000u16 & 0o170000 == 0o160000 && 0o100644u16 & 0o100 == 0 && 0o100755u16 & 0o100
            == 0o100) by (bit_vector);
        EntryMode { value }
    }

    /// What an entry of this mode is.
    pub fn kind(self) -> (kind: EntryKind)
        ensures
            kind == self.kind_spec(),
    {
        let format: u16 = self.value & 0o170000;
        if format == 0o100000 {
            if self.value & 0o100 == 0o100 {
                EntryKind::BlobExecutable
            } else {
                EntryKind::Blob
            }
        } else if format == 0o120000 {
            EntryKind::Link
        } else if format == 0o040000 || format == 0o140000 {
            EntryKind::Tree
        } else {
            EntryKind::Commit
        }
    }

    /// Whether an entry of this mode is a tree.
    pub fn is_tree(self) -> (tree: bool)
        ensures
            tree == (self.kind_spec() == EntryKind::Tree),
    {
        let format: u16 = self.value & 0o170000;
        format == 0o040000 || format == 0o140000
    }

    /// Whether an entry of this mode is a file of any kind.
    pub fn is_blob(self) -> (blob: bool)
        ensures
            blob == (self.kind_spec() == EntryKind::Blob || self.kind_spec()
                == EntryKind::BlobExecutable),
    {
        self.value & 0o170000 == 0o100000
    }
}

} // verus!
