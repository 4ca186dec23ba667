//! Byte strings: literals, prefixes, lines, fields and lists, over `Seq<u8>`.

use vstd::prelude::*;
use vstd::slice::slice_subrange;
use vstd::slice::slice_to_vec;
use vstd::string::*;

verus! {

/// The byte that ends a line.
pub const NEWLINE: u8 = 10;

/// The byte that may precede the end of a line.
pub const CARRIAGE_RETURN: u8 = 13;

/// The byte that separates fields.
pub const SPACE: u8 = 32;

/// The bytes of a literal, as contracts write them.
pub open spec fn ascii(text: &str) -> Seq<u8> {
    text.spec_bytes()
}

/// The contents of a list of byte strings.
pub open spec fn views(list: Seq<Vec<u8>>) -> Seq<Seq<u8>> {
    list.map_values(|item: Vec<u8>| item@)
}

/// The contents of an optional byte string.
pub open spec fn view_option(item: Option<Vec<u8>>) -> Option<Seq<u8>> {
    match item {
        Some(bytes) => Some(bytes@),
        None => None,
    }
}

/// The byte strings in `list` that are not empty, in their order.
pub open spec fn non_empty(list: Seq<Seq<u8>>) -> Seq<Seq<u8>> {
    list.filter(|item: Seq<u8>| item.len() > 0)
}

/// The position of the first `byte` in `text`, or the length of `text` if there is none.
pub open spec fn first_index(text: Seq<u8>, byte: u8) -> int
    decreases text.len(),
{
    if text.len() == 0 || text[0] == byte {
        0
    } else {
        1 + first_index(text.skip(1), byte)
    }
}

/// `text` without a carriage return at its end.
pub open spec fn without_carriage_return(text: Seq<u8>) -> Seq<u8> {
    if text.len() > 0 && text.last() == CARRIAGE_RETURN {
        text.drop_last()
    } else {
        text
    }
}

/// The lines of `text`: each ends at a newline, which is dropped together with a carriage return
/// before it; what follows the last newline is a line of its own unless it is empty.
pub open spec fn lines_of(text: Seq<u8>) -> Seq<Seq<u8>>
    decreases text.len(),
    via lines_of_decreases
{
    if text.len() == 0 {
        Seq::empty()
    } else {
        let end = first_index(text, NEWLINE);
        if end < text.len() {
            seq![without_carriage_return(text.take(end))] + lines_of(text.skip(end + 1))
        } else {
            seq![text]
        }
    }
}

#[via_fn]
proof fn lines_of_decreases(text: Seq<u8>) {
    lemma_first_index(text, NEWLINE);
}

/// The fields of `text`, separated by single occurrences of `byte`; there is always at least one.
pub open spec fn fields_of(text: Seq<u8>, byte: u8) -> Seq<Seq<u8>>
    decreases text.len(),
    via fields_of_decreases
{
    let end = first_index(text, byte);
    if end < text.len() {
        seq![text.take(end)] + fields_of(text.skip(end + 1), byte)
    } else {
        seq![text]
    }
}

#[via_fn]
proof fn fields_of_decreases(text: Seq<u8>, byte: u8) {
    lemma_first_index(text, byte);
}

/// The fields of two texts with the byte between them are those of the one, and then those of the
/// other.
pub proof fn lemma_fields_join(left: Seq<u8>, right: Seq<u8>, byte: u8)
    ensures
        fields_of(left.push(byte) + right, byte) == fields_of(left, byte) + fields_of(right, byte),
    decreases left.len(),
{
    let whole = left.push(byte) + right;
    let end = first_index(left, byte);
    lemma_first_index(left, byte);
    assert forall|i: int| 0 <= i < end implies whole[i] != byte by {
        assert(whole[i] == left[i]);
    }
    if end < left.len() {
        assert(whole[end] == left[end]);
    }
    lemma_first_index_unique(whole, byte, end);
    assert(whole.take(end) =~= left.take(end));
    if end < left.len() {
        assert(whole.skip(end + 1) =~= left.skip(end + 1).push(byte) + right);
        lemma_fields_join(left.skip(end + 1), right, byte);
        assert(fields_of(whole, byte) =~= fields_of(left, byte) + fields_of(right, byte));
    } else {
        assert(left.take(end) =~= left);
        assert(whole.skip(end + 1) =~= right);
    }
}

/// The first index holds the byte, and nothing before it does.
pub proof fn lemma_first_index(text: Seq<u8>, byte: u8)
    ensures
        0 <= first_index(text, byte) <= text.len(),
        first_index(text, byte) < text.len() ==> text[first_index(text, byte)] == byte,
        forall|i: int| 0 <= i < first_index(text, byte) ==> text[i] != byte,
    decreases text.len(),
{
    if text.len() > 0 && text[0] != byte {
        lemma_first_index(text.skip(1), byte);
        assert forall|i: int| 0 <= i < first_index(text, byte) implies text[i] != byte by {
            if i > 0 {
                assert(text.skip(1)[i - 1] == text[i]);
            }
        }
    }
}

/// A position that holds the byte with nothing before it that does is the first index.
pub proof fn lemma_first_index_unique(text: Seq<u8>, byte: u8, index: int)
    requires
        0 <= index <= text.len(),
        index < text.len() ==> text[index] == byte,
        forall|i: int| 0 <= i < index ==> text[i] != byte,
    ensures
        first_index(text, byte) == index,
{
    lemma_first_index(text, byte);
}

/// The lower-case form of an ASCII letter; any other byte stays as it is.
pub open spec fn lower(byte: u8) -> u8 {
    if 65 <= byte <= 90 {
        (byte + 32) as u8
    } else {
        byte
    }
}

/// Whether two byte strings are equal when ASCII letters are compared without their case.
pub open spec fn equal_ignoring_case(left: Seq<u8>, right: Seq<u8>) -> bool {
    left.map_values(|byte: u8| lower(byte)) == right.map_values(|byte: u8| lower(byte))
}

/// Whether `needle` stands in `text` at `index`.
pub open spec fn occurs_at(text: Seq<u8>, needle: Seq<u8>, index: int) -> bool {
    &&& 0 <= index
    &&& index + needle.len() <= text.len()
    &&& text.subrange(index, index + needle.len()) == needle
}

/// What follows the last occurrence of `needle` in the first `limit` positions of `text`.
pub open spec fn after_last(text: Seq<u8>, needle: Seq<u8>, limit: nat) -> Option<Seq<u8>>
    decreases limit,
{
    if limit == 0 {
        None
    } else if occurs_at(text, needle, limit - 1) {
        Some(text.skip(limit - 1 + needle.len()))
    } else {
        after_last(text, needle, (limit - 1) as nat)
    }
}

/// Whether `left` sorts before `right`, byte by byte, a prefix first.
pub open spec fn sorts_before(left: Seq<u8>, right: Seq<u8>) -> bool
    decreases left.len(),
{
    if right.len() == 0 {
        false
    } else if left.len() == 0 {
        true
    } else if left[0] != right[0] {
        left[0] < right[0]
    } else {
        sorts_before(left.skip(1), right.skip(1))
    }
}

/// Whether two byte strings hold the same bytes.
pub fn bytes_equal(left: &[u8], right: &[u8]) -> (equal: bool)
    ensures
        equal == (left@ == right@),
{
    if left.len() != right.len() {
        return false;
    }
    let mut i: usize = 0;
    while i < left.len()
        invariant
            i <= left.len(),
            left@.len() == right@.len(),
            forall|k: int| 0 <= k < i ==> left@[k] == right@[k],
        decreases left.len() - i,
    {
        if left[i] != right[i] {
            assert(left@[i as int] != right@[i as int]);
            return false;
        }
        i += 1;
    }
    assert(left@ =~= right@);
    true
}

/// Whether `text` begins with `prefix`.
pub fn starts_with(text: &[u8], prefix: &[u8]) -> (found: bool)
    ensures
        found == prefix@.is_prefix_of(text@),
{
    if text.len() < prefix.len() {
        return false;
    }
    bytes_equal(slice_subrange(text, 0, prefix.len()), prefix)
}

/// What follows `prefix` in `text`, if `text` begins with it.
pub fn strip_prefix<'a>(text: &'a [u8], prefix: &[u8]) -> (rest: Option<&'a [u8]>)
    ensures
        match rest {
            Some(rest) => prefix@.is_prefix_of(text@) && rest@ == text@.skip(prefix@.len() as int),
            None => !prefix@.is_prefix_of(text@),
        },
{
    if starts_with(text, prefix) {
        Some(slice_subrange(text, prefix.len(), text.len()))
    } else {
        None
    }
}

/// The lower-case form of one byte.
fn lower_byte(byte: u8) -> (lowered: u8)
    ensures
        lowered == lower(byte),
{
    if 65 <= byte && byte <= 90 {
        byte + 32
    } else {
        byte
    }
}

/// Whether two byte strings are equal when ASCII letters are compared without their case.
pub fn eq_ignore_ascii_case(left: &[u8], right: &[u8]) -> (equal: bool)
    ensures
        equal == equal_ignoring_case(left@, right@),
{
    let ghost l = left@.map_values(|byte: u8| lower(byte));
    let ghost r = right@.map_values(|byte: u8| lower(byte));
    if left.len() != right.len() {
        assert(l.len() != r.len());
        return false;
    }
    let mut i: usize = 0;
    while i < left.len()
        invariant
            i <= left.len(),
            left@.len() == right@.len(),
            l == left@.map_values(|byte: u8| lower(byte)),
            r == right@.map_values(|byte: u8| lower(byte)),
            forall|k: int| 0 <= k < i ==> l[k] == r[k],
        decreases left.len() - i,
    {
        if lower_byte(left[i]) != lower_byte(right[i]) {
            assert(l[i as int] != r[i as int]);
            return false;
        }
        i += 1;
    }
    assert(l =~= r);
    true
}

/// The position of the first `byte` in `text`, or the length of `text` if there is none.
pub fn find_byte(text: &[u8], byte: u8) -> (index: usize)
    ensures
        index == first_index(text@, byte),
        index <= text@.len(),
{
    let mut i: usize = 0;
    while i < text.len()
        invariant
            i <= text.len(),
            forall|k: int| 0 <= k < i ==> text@[k] != byte,
        decreases text.len() - i,
    {
        if text[i] == byte {
            proof {
                lemma_first_index_unique(text@, byte, i as int);
            }
            return i;
        }
        i += 1;
    }
    proof {
        lemma_first_index_unique(text@, byte, i as int);
    }
    i
}

/// The lines of `text`, without their terminators.
pub fn lines(text: &[u8]) -> (list: Vec<Vec<u8>>)
    ensures
        views(list@) == lines_of(text@),
{
    let mut list: Vec<Vec<u8>> = Vec::new();
    let mut start: usize = 0;
    proof {
        assert(text@.skip(0) =~= text@);
        assert(views(list@) + lines_of(text@.skip(0)) =~= lines_of(text@));
    }
    while start < text.len()
        invariant
            start <= text.len(),
            views(list@) + lines_of(text@.skip(start as int)) == lines_of(text@),
        decreases text.len() - start,
    {
        let rest = slice_subrange(text, start, text.len());
        let ghost before = list@;
        proof {
            assert(rest@ =~= text@.skip(start as int));
            lemma_first_index(rest@, NEWLINE);
        }
        let end: usize = find_byte(rest, NEWLINE);
        if end < rest.len() {
            let mut stop: usize = end;
            if end > 0 && rest[end - 1] == CARRIAGE_RETURN {
                stop = end - 1;
            }
            let line = slice_to_vec(slice_subrange(rest, 0, stop));
            proof {
                assert(line@ =~= without_carriage_return(rest@.take(end as int)));
                assert(rest@.skip(end + 1) =~= text@.skip(start + end + 1));
            }
            list.push(line);
            start = start + end + 1;
            proof {
                assert(views(list@) =~= views(before).push(line@));
                assert(views(list@) + lines_of(text@.skip(start as int)) =~= views(before)
                    + lines_of(rest@));
            }
        } else {
            let line = slice_to_vec(rest);
            list.push(line);
            start = text.len();
            proof {
                assert(views(list@) =~= views(before).push(rest@));
                assert(lines_of(text@.skip(start as int)) =~= Seq::empty());
                assert(views(list@) + lines_of(text@.skip(start as int)) =~= views(before)
                    + lines_of(rest@));
            }
        }
    }
    assert(lines_of(text@.skip(start as int)) =~= Seq::empty());
    assert(views(list@) =~= lines_of(text@));
    list
}

/// The fields of `text`, separated by `byte`.
pub fn split(text: &[u8], byte: u8) -> (list: Vec<Vec<u8>>)
    ensures
        views(list@) == fields_of(text@, byte),
        list@.len() >= 1,
{
    let mut list: Vec<Vec<u8>> = Vec::new();
    let mut start: usize = 0;
    proof {
        assert(text@.skip(0) =~= text@);
        assert(views(list@) + fields_of(text@.skip(0), byte) =~= fields_of(text@, byte));
    }
    loop
        invariant
            start <= text.len(),
            views(list@) + fields_of(text@.skip(start as int), byte) == fields_of(text@, byte),
        decreases text.len() - start,
    {
        let rest = slice_subrange(text, start, text.len());
        let ghost before = list@;
        proof {
            assert(rest@ =~= text@.skip(start as int));
            lemma_first_index(rest@, byte);
        }
        let end: usize = find_byte(rest, byte);
        let field = slice_to_vec(slice_subrange(rest, 0, end));
        assert(field@ =~= rest@.take(end as int));
        let last = end == rest.len();
        list.push(field);
        assert(views(list@) =~= views(before).push(field@));
        if last {
            assert(field@ =~= rest@);
            assert(views(list@) =~= views(before) + fields_of(rest@, byte));
            return list;
        }
        start = start + end + 1;
        proof {
            assert(rest@.skip(end + 1) =~= text@.skip(start as int));
            assert(views(list@) + fields_of(text@.skip(start as int), byte) =~= views(before)
                + fields_of(rest@, byte));
        }
    }
}

/// What follows the last occurrence of `needle` in `text`.
pub fn rsplit_once(text: &[u8], needle: &[u8]) -> (tail: Option<Vec<u8>>)
    ensures
        view_option(tail) == after_last(text@, needle@, (text@.len() + 1) as nat),
{
    if needle.len() > text.len() {
        proof {
            lemma_after_last_none(text@, needle@, (text@.len() + 1) as nat);
        }
        return None;
    }
    let top: usize = text.len() - needle.len();
    let mut found: Option<Vec<u8>> = None;
    let mut i: usize = 0;
    loop
        invariant
            top + needle.len() == text.len(),
            i <= top,
            view_option(found) == after_last(text@, needle@, i as nat),
        decreases top - i,
    {
        if bytes_equal(slice_subrange(text, i, i + needle.len()), needle) {
            assert(occurs_at(text@, needle@, i as int));
            let tail = slice_to_vec(slice_subrange(text, i + needle.len(), text.len()));
            assert(tail@ =~= text@.skip(i + needle@.len()));
            found = Some(tail);
        } else {
            assert(!occurs_at(text@, needle@, i as int));
        }
        if i == top {
            proof {
                lemma_after_last_tail(text@, needle@, (top + 1) as nat, (text@.len() + 1) as nat);
            }
            return found;
        }
        i += 1;
    }
}

proof fn lemma_after_last_none(text: Seq<u8>, needle: Seq<u8>, limit: nat)
    requires
        needle.len() > text.len(),
    ensures
        after_last(text, needle, limit) is None,
    decreases limit,
{
    if limit > 0 {
        lemma_after_last_none(text, needle, (limit - 1) as nat);
    }
}

proof fn lemma_after_last_tail(text: Seq<u8>, needle: Seq<u8>, low: nat, limit: nat)
    requires
        low <= limit,
        low + needle.len() >= text.len() + 1,
    ensures
        after_last(text, needle, limit) == after_last(text, needle, low),
    decreases limit,
{
    if low < limit {
        lemma_after_last_tail(text, needle, low, (limit - 1) as nat);
    }
}

/// The order of byte strings is total: nothing sorts before itself, of two different ones exactly one
/// sorts before the other, and what sorts before a byte string sorts before all after it.
pub proof fn lemma_sorts_before_is_an_order(a: Seq<u8>, b: Seq<u8>, c: Seq<u8>)
    ensures
        !sorts_before(a, a),
        sorts_before(a, b) ==> !sorts_before(b, a),
        a != b ==> sorts_before(a, b) || sorts_before(b, a),
        sorts_before(a, b) && sorts_before(b, c) ==> sorts_before(a, c),
    decreases a.len(),
{
    if a.len() > 0 {
        let (x, y, z) = (a.skip(1), b.skip(1), c.skip(1));
        lemma_sorts_before_is_an_order(x, y, z);
        if b.len() > 0 && a[0] == b[0] && x == y {
            assert(a =~= b) by {
                assert forall|i: int| 0 <= i < a.len() implies a[i] == b[i] by {
                    if i > 0 {
                        assert(x[i - 1] == a[i] && y[i - 1] == b[i]);
                    }
                }
                assert(x.len() == a.len() - 1 && y.len() == b.len() - 1);
            }
        }
    } else if b.len() == 0 {
        assert(a =~= b);
    }
}

/// The bytes of a literal.
pub fn literal(text: &str) -> (bytes: Vec<u8>)
    ensures
        bytes@ == ascii(text),
{
    slice_to_vec(text.as_bytes())
}

/// Appends `tail` to `text`.
pub fn append(text: &mut Vec<u8>, tail: &[u8])
    ensures
        final(text)@ == old(text)@ + tail@,
{
    let ghost before = text@;
    text.extend_from_slice(tail);
    assert(text@ =~= before + tail@);
}

/// A copy of an optional byte string.
pub fn copy_option(item: &Option<Vec<u8>>) -> (copy: Option<Vec<u8>>)
    ensures
        view_option(copy) == view_option(*item),
{
    match item {
        Some(bytes) => Some(slice_to_vec(bytes.as_slice())),
        None => None,
    }
}

/// A copy of a list of byte strings.
pub fn copy_list(list: &Vec<Vec<u8>>) -> (copy: Vec<Vec<u8>>)
    ensures
        views(copy@) == views(list@),
{
    let mut copy: Vec<Vec<u8>> = Vec::new();
    let mut i: usize = 0;
    while i < list.len()
        invariant
            i <= list.len(),
            copy@.len() == i,
            forall|k: int| 0 <= k < i ==> copy@[k]@ == list@[k]@,
        decreases list.len() - i,
    {
        copy.push(slice_to_vec(list[i].as_slice()));
        i += 1;
    }
    assert(views(copy@) =~= views(list@));
    copy
}

/// The byte strings in `list` that are not empty, in their order.
pub fn without_empty(list: Vec<Vec<u8>>) -> (rest: Vec<Vec<u8>>)
    ensures
        views(rest@) == non_empty(views(list@)),
{
    let ghost keep = |item: Seq<u8>| item.len() > 0;
    let ghost all = views(list@);
    let mut rest: Vec<Vec<u8>> = Vec::new();
    let mut i: usize = 0;
    proof {
        reveal(Seq::filter);
        assert(views(rest@) =~= all.take(0).filter(keep));
    }
    while i < list.len()
        invariant
            i <= list.len(),
            all == views(list@),
            keep == (|item: Seq<u8>| item.len() > 0),
            views(rest@) == all.take(i as int).filter(keep),
        decreases list.len() - i,
    {
        let ghost before = rest@;
        proof {
            reveal(Seq::filter);
            assert(all.take(i + 1).drop_last() =~= all.take(i as int));
            assert(all.take(i + 1).last() == list@[i as int]@);
        }
        if list[i].len() > 0 {
            let item = slice_to_vec(list[i].as_slice());
            rest.push(item);
            assert(views(rest@) =~= views(before).push(item@));
        }
        i += 1;
    }
    assert(all.take(i as int) =~= all);
    rest
}

/// Whether `list` holds `item`.
pub fn contains(list: &Vec<Vec<u8>>, item: &[u8]) -> (found: bool)
    ensures
        found == views(list@).contains(item@),
{
    let mut i: usize = 0;
    while i < list.len()
        invariant
            i <= list.len(),
            forall|k: int| 0 <= k < i ==> views(list@)[k] != item@,
        decreases list.len() - i,
    {
        if bytes_equal(list[i].as_slice(), item) {
            assert(views(list@)[i as int] == item@);
            return true;
        }
        i += 1;
    }
    false
}

/// Whether `left` sorts before `right`, byte by byte, a prefix first.
pub fn less_than(left: &[u8], right: &[u8]) -> (less: bool)
    ensures
        less == sorts_before(left@, right@),
{
    let mut i: usize = 0;
    proof {
        assert(left@.skip(0) =~= left@);
        assert(right@.skip(0) =~= right@);
    }
    while i < left.len() && i < right.len()
        invariant
            i <= left.len(),
            i <= right.len(),
            sorts_before(left@, right@) == sorts_before(
                left@.skip(i as int),
                right@.skip(i as int),
            ),
        decreases left.len() - i,
    {
        if left[i] != right[i] {
            return left[i] < right[i];
        }
        proof {
            assert(left@.skip(i as int).skip(1) =~= left@.skip(i + 1));
            assert(right@.skip(i as int).skip(1) =~= right@.skip(i + 1));
        }
        i += 1;
    }
    left.len() < right.len()
}

} // verus!
