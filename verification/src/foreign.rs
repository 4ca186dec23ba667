//! The calls that this library makes into other crates, and what it relies on of each.
//!
//! Nothing here is proved. Each function makes one call, and its contract says only what the
//! called function is known to do.

use bstr::ByteSlice;
use vstd::prelude::*;
use vstd::string::StringSliceAdditionalSpecFns;

use crate::oid::hex_of;
use crate::oid::same_start;
use crate::oid::HashKind;
use crate::oid::ObjectKind;

verus! {

/// What `bstr`'s `trim` leaves of a byte string.
pub uninterp spec fn trimmed(text: Seq<u8>) -> Seq<u8>;

/// Whether a byte is a visible ASCII character.
pub open spec fn is_visible(byte: u8) -> bool {
    33 <= byte <= 126
}

/// Whether `part` stands in `whole` without a gap.
pub open spec fn is_part_of(part: Seq<u8>, whole: Seq<u8>) -> bool {
    exists|start: int, end: int|
        0 <= start <= end <= whole.len() && part == #[trigger] whole.subrange(start, end)
}

/// `bstr::ByteSlice::trim`: `text` without the Unicode white space around it.
///
/// Believed: the result depends on the bytes alone, it is a contiguous part of `text`, and a text
/// that begins and ends with a visible ASCII character is left as it is. Which bytes count as
/// white space is left to the called function.
#[verifier::external_body]
pub(crate) fn trim(text: &[u8]) -> (rest: Vec<u8>)
    ensures
        rest@ == trimmed(text@),
        is_part_of(rest@, text@),
        text@.len() > 0 && is_visible(text@[0]) && is_visible(text@.last()) ==> rest@ == text@,
{
    text.trim().to_vec()
}

/// How `bstr` shows a byte string for debugging.
pub uninterp spec fn debug_text(text: Seq<u8>) -> Seq<char>;

/// The `Debug` form of `bstr::BStr`.
///
/// Believed: it depends on the bytes alone.
#[verifier::external_body]
pub(crate) fn show_debug(text: &[u8]) -> (shown: String)
    ensures
        shown@ == debug_text(text@),
{
    format!("{:?}", bstr::BStr::new(text))
}

/// What `gix_quote` makes of text in the quotation style of C, if it is well-formed.
pub uninterp spec fn unquoted(text: Seq<u8>) -> Option<Seq<u8>>;

/// `gix_quote::ansi_c::undo`, without the number of bytes that were read.
///
/// Believed: the result depends on the text alone, and text that does not begin with a double quote
/// is left as it is. Of an error only its text is kept, and nothing is said of that text.
#[verifier::external_body]
pub(crate) fn unquote(text: &[u8]) -> (plain: Result<Vec<u8>, String>)
    ensures
        match plain {
            Ok(plain) => unquoted(text@) == Some(plain@),
            Err(_) => unquoted(text@) is None,
        },
        text@.len() == 0 || text@[0] != 34 ==> (plain matches Ok(plain) && plain@ == text@),
{
    match gix_quote::ansi_c::undo(text.into()) {
        Ok((plain, _)) => Ok(plain.to_vec()),
        Err(err) => Err((*err).to_string()),
    }
}

/// `gix_path::try_from_bstr`, with the path as bytes again.
///
/// Believed: a path has the bytes that it was made of, and text that is well-formed UTF-8 is a path.
/// Whether other text is one depends on the machine, and nothing is said of it.
#[verifier::external_body]
pub(crate) fn path_from_bytes(text: &[u8]) -> (path: Option<Vec<u8>>)
    ensures
        path matches Some(path) ==> path@ == text@,
        vstd::utf8::valid_utf8(text@) ==> path is Some,
{
    gix_path::try_from_bstr(bstr::BStr::new(text))
        .ok()
        .map(|path| gix_path::into_bstr(path).to_vec())
}

/// What `String::from_utf8_lossy` makes of bytes.
pub uninterp spec fn lossy_text(text: Seq<u8>) -> Seq<char>;

/// `String::from_utf8_lossy`.
///
/// Believed: the result depends on the bytes alone, and well-formed UTF-8 is decoded as it is.
#[verifier::external_body]
pub(crate) fn show_lossy(text: &[u8]) -> (shown: String)
    ensures
        shown@ == lossy_text(text@),
        vstd::utf8::valid_utf8(text@) ==> shown@ == vstd::utf8::decode_utf8(text@),
{
    String::from_utf8_lossy(text).into_owned()
}

/// What `gix_object` finds in the bytes of a tree with ids of the given kind: the mode, the name and
/// the id of each entry, if the bytes are well-formed.
pub uninterp spec fn decoded_tree(data: Seq<u8>, kind: HashKind) -> Option<
    Seq<(u16, Seq<u8>, Seq<u8>)>,
>;

/// What a list of entries says.
pub open spec fn view_entries(list: Seq<(u16, Vec<u8>, Vec<u8>)>) -> Seq<
    (u16, Seq<u8>, Seq<u8>),
> {
    list.map_values(|entry: (u16, Vec<u8>, Vec<u8>)| (entry.0, entry.1@, entry.2@))
}

/// `gix_object::TreeRef::from_bytes`.
///
/// Believed: the entries, and whether the bytes are well-formed, depend on the bytes and the kind of
/// hash alone; without bytes there are no entries.
#[verifier::external_body]
pub(crate) fn decode_tree(data: &[u8], kind: HashKind) -> (entries: Option<
    Vec<(u16, Vec<u8>, Vec<u8>)>,
>)
    ensures
        match entries {
            Some(entries) => decoded_tree(data@, kind) == Some(view_entries(entries@)),
            None => decoded_tree(data@, kind) is None,
        },
        data@.len() == 0 ==> (entries matches Some(entries) && entries@.len() == 0),
{
    let kind = match kind {
        HashKind::Sha1 => gix_hash::Kind::Sha1,
        HashKind::Sha256 => gix_hash::Kind::Sha256,
    };
    let tree = gix_object::TreeRef::from_bytes(data, kind).ok()?;
    Some(
        tree.entries
            .iter()
            .map(|entry| (entry.mode.value(), entry.filename.to_vec(), entry.oid.as_bytes().to_vec()))
            .collect(),
    )
}

/// A pattern without the marks at its beginning: an exclamation mark, or a backslash that takes the
/// meaning from an exclamation mark or a hash.
pub open spec fn unmarked(pattern: Seq<u8>) -> Seq<u8> {
    if pattern.len() > 0 && pattern[0] == 33 {
        pattern.skip(1)
    } else if pattern.len() > 1 && pattern[0] == 92 && (pattern[1] == 33 || pattern[1] == 35) {
        pattern.skip(1)
    } else {
        pattern
    }
}

/// Whether a byte is ASCII white space: a tab, a line feed, a form feed, a carriage return or a
/// space.
pub open spec fn is_ascii_space(byte: u8) -> bool {
    byte == 9 || byte == 10 || byte == 12 || byte == 13 || byte == 32
}

/// Whether a byte ends the literal part of a pattern: an asterisk, a question mark, an opening
/// bracket or a backslash.
pub open spec fn is_wildcard(byte: u8) -> bool {
    byte == 42 || byte == 63 || byte == 91 || byte == 92
}

/// `gix_glob::parse`, of which only is kept whether there is a wildcard position.
///
/// Believed: there is no pattern in text of nothing but white space, apart from its marks, and
/// otherwise there is a wildcard position if any of the bytes after the marks is a wildcard.
#[verifier::external_body]
pub(crate) fn pattern_has_wildcard(pattern: &[u8]) -> (wildcard: Option<bool>)
    ensures
        wildcard is None <==> forall|i: int|
            0 <= i < unmarked(pattern@).len() ==> is_ascii_space(#[trigger] unmarked(pattern@)[i]),
        wildcard matches Some(wildcard) ==> (wildcard <==> exists|i: int|
            0 <= i < unmarked(pattern@).len() && is_wildcard(#[trigger] unmarked(pattern@)[i])),
{
    gix_glob::parse(pattern).map(|parsed| parsed.first_wildcard_pos.is_some())
}

/// Whether `gix_glob` finds that text matches a pattern.
pub uninterp spec fn pattern_matches(pattern: Seq<u8>, text: Seq<u8>) -> bool;

/// `gix_glob::Pattern::matches` without special modes, for the pattern that `gix_glob::parse` makes.
///
/// Believed: the result depends on the pattern and the text alone.
#[verifier::external_body]
pub(crate) fn matches_pattern(pattern: &[u8], text: &[u8]) -> (found: bool)
    ensures
        found == pattern_matches(pattern@, text@),
{
    gix_glob::parse(pattern)
        .is_some_and(|parsed| parsed.matches(text.into(), gix_glob::wildmatch::Mode::empty()))
}

/// Whether `gix_ref` takes a name for a fully qualified reference name.
pub uninterp spec fn is_full_name(name: Seq<u8>) -> bool;

/// `gix_ref::FullName::try_from`, of which only is kept whether it succeeds, as it leaves the name as
/// it is.
///
/// Believed: the result depends on the name alone, the empty name is none, and the name of the
/// standard notes reference is one.
#[verifier::external_body]
pub(crate) fn check_full_name(name: &[u8]) -> (valid: bool)
    ensures
        valid == is_full_name(name@),
        name@.len() == 0 ==> !valid,
        name@ == "refs/notes/commits".spec_bytes() ==> valid,
{
    gix_ref::FullName::try_from(bstr::BStr::new(name)).is_ok()
}

/// The id of the tree without entries.
pub open spec fn empty_tree_id(kind: HashKind) -> Seq<u8> {
    match kind {
        HashKind::Sha1 => seq![
            0x4bu8, 0x82, 0x5d, 0xc6, 0x42, 0xcb, 0x6e, 0xb9, 0xa0, 0x60, 0xe5, 0x4b, 0xf8, 0xd6,
            0x92, 0x88, 0xfb, 0xee, 0x49, 0x04,
        ],
        HashKind::Sha256 => seq![
            0x6eu8, 0xf1, 0x9b, 0x41, 0x22, 0x5c, 0x53, 0x69, 0xf1, 0xc1, 0x04, 0xd4, 0x5d, 0x8d,
            0x85, 0xef, 0xa9, 0xb0, 0x57, 0xb5, 0x3b, 0x14, 0xb4, 0xb9, 0xb9, 0x39, 0xdd, 0x74,
            0xde, 0xcc, 0x53, 0x21,
        ],
    }
}

/// `gix_hash::ObjectId::empty_tree`.
///
/// Believed: it is the well-known id of a tree without entries.
#[verifier::external_body]
pub(crate) fn empty_tree(kind: HashKind) -> (id: Vec<u8>)
    ensures
        id@ == empty_tree_id(kind),
{
    let kind = match kind {
        HashKind::Sha1 => gix_hash::Kind::Sha1,
        HashKind::Sha256 => gix_hash::Kind::Sha256,
    };
    gix_hash::ObjectId::empty_tree(kind).as_bytes().to_vec()
}

/// The SHA-1 hash that `gix_object` computes of an object, if its contents aren't made for a collision.
pub uninterp spec fn object_hash(kind: ObjectKind, data: Seq<u8>) -> Option<Seq<u8>>;

/// `gix_object::compute_hash` for SHA-1.
///
/// Believed: the hash, and whether there is one, depends on the kind of the object and its contents
/// alone, and it has twenty bytes.
#[verifier::external_body]
pub(crate) fn compute_hash(kind: ObjectKind, data: &[u8]) -> (hash: Option<Vec<u8>>)
    ensures
        match hash {
            Some(hash) => object_hash(kind, data@) == Some(hash@) && hash@.len() == 20,
            None => object_hash(kind, data@) is None,
        },
{
    let kind = match kind {
        ObjectKind::Tree => gix_object::Kind::Tree,
        ObjectKind::Blob => gix_object::Kind::Blob,
        ObjectKind::Commit => gix_object::Kind::Commit,
        ObjectKind::Tag => gix_object::Kind::Tag,
    };
    gix_object::compute_hash(gix_hash::Kind::Sha1, kind, data).ok().map(|id| id.as_bytes().to_vec())
}

/// `gix_hash::Prefix::cmp_oid`, of which only is kept whether it finds no difference, for the prefix
/// that `gix_hash::Prefix::new` makes of the first digits of an id of SHA-1.
///
/// Believed: there is no difference exactly if both ids have the same first hexadecimal digits.
#[verifier::external_body]
pub(crate) fn shares_prefix(id: &[u8], hex_len: usize, candidate: &[u8]) -> (shares: bool)
    requires
        id@.len() == 20,
        candidate@.len() == 20,
        4 <= hex_len <= 40,
    ensures
        shares == same_start(id@, candidate@, hex_len),
{
    gix_hash::Prefix::new(gix_hash::oid::from_bytes_unchecked(id), hex_len)
        .is_ok_and(|prefix| prefix.cmp_oid(gix_hash::oid::from_bytes_unchecked(candidate)).is_eq())
}

/// Whether a character is a hexadecimal digit of either case.
pub open spec fn is_hex_char(letter: char) -> bool {
    '0' <= letter <= '9' || 'a' <= letter <= 'f' || 'A' <= letter <= 'F'
}

/// Whether text can be the beginning of the hexadecimal form of an id of SHA-1.
pub open spec fn is_hex_prefix(text: Seq<char>) -> bool {
    4 <= text.len() <= 40 && forall|i: int| 0 <= i < text.len() ==> is_hex_char(#[trigger] text[i])
}

/// Hexadecimal digits in lower case, as bytes.
pub open spec fn lower_digits(text: Seq<char>) -> Seq<u8> {
    text.map_values(
        |letter: char|
            if 'A' <= letter <= 'F' {
                (letter as u8 + 32) as u8
            } else {
                letter as u8
            },
    )
}

/// `gix_hash::Prefix::from_hex`, with the prefix as the bytes and the number of digits that it holds.
///
/// Believed: of text of at most forty characters there is a prefix exactly if it is at least four
/// hexadecimal digits; then its twenty bytes begin with these digits, and all others are zero. Nothing
/// is said of longer text, as ids of other hashes are longer.
#[verifier::external_body]
pub(crate) fn parse_prefix(text: &str) -> (prefix: Option<(Vec<u8>, usize)>)
    ensures
        text@.len() <= 40 ==> (match prefix {
            Some((bytes, hex_len)) => {
                &&& is_hex_prefix(text@)
                &&& bytes@.len() == 20
                &&& hex_len == text@.len()
                &&& hex_of(bytes@).take(hex_len as int) == lower_digits(text@)
                &&& forall|i: int| hex_len <= i < 40 ==> #[trigger] hex_of(bytes@)[i] == 48
            },
            None => !is_hex_prefix(text@),
        }),
{
    gix_hash::Prefix::from_hex(text)
        .ok()
        .map(|prefix| (prefix.as_oid().as_bytes().to_vec(), prefix.hex_len()))
}

/// What `gix_date` makes of a point in time in a format, if the time and its offset can be shown.
pub uninterp spec fn formatted_time(seconds: i64, offset: i32, format: Seq<char>) -> Option<
    Seq<char>,
>;

/// `gix_date::Time::format` with a custom format.
///
/// Believed: the text, and whether there is one, depends on the seconds, the offset and the format
/// alone. Of an error only its text is kept, and nothing is said of that text.
#[verifier::external_body]
pub(crate) fn format_time(seconds: i64, offset: i32, format: &'static str) -> (text: Result<
    String,
    String,
>)
    ensures
        match text {
            Ok(text) => formatted_time(seconds, offset, format@) == Some(text@),
            Err(_) => formatted_time(seconds, offset, format@) is None,
        },
{
    gix_date::Time { seconds, offset }
        .format(gix_date::time::CustomFormat::new(format))
        .map_err(|err| err.to_string())
}

} // verus!
