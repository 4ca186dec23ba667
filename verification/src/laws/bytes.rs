//! Laws on byte strings, object ids, modes and numbers.

use vstd::prelude::*;

use crate::bytes::after_last;
use crate::bytes::equal_ignoring_case;
use crate::bytes::fields_of;
use crate::bytes::first_index;
use crate::bytes::lemma_fields_join;
use crate::bytes::lemma_first_index;
use crate::bytes::lemma_first_index_unique;
use crate::bytes::lines_of;
use crate::bytes::non_empty;
use crate::bytes::occurs_at;
use crate::bytes::sorts_before;
use crate::delta::decimal;
use crate::oid::hex_of;
use crate::oid::EntryKind;
use crate::oid::EntryMode;

verus! {

/// Text without the separator is one field, and each separator ends one.
pub proof fn law_fields_end_at_separators(left: Seq<u8>, right: Seq<u8>, byte: u8)
    requires
        !left.contains(byte),
    ensures
        fields_of(left, byte) == seq![left],
        fields_of(left.push(byte) + right, byte) == seq![left] + fields_of(right, byte),
{
    lemma_first_index(left, byte);
    if first_index(left, byte) < left.len() {
        assert(left.contains(left[first_index(left, byte)]));
    }
    lemma_fields_join(left, right, byte);
}

/// Text without a line feed is one line unless it is empty, and each line feed ends one, together with
/// a carriage return before it.
pub proof fn law_lines_end_at_line_feeds(left: Seq<u8>, right: Seq<u8>)
    requires
        !left.contains(10),
    ensures
        lines_of(Seq::<u8>::empty()) == Seq::<Seq<u8>>::empty(),
        left.len() > 0 ==> lines_of(left) == seq![left],
        left.len() > 0 && left.last() == 13 ==> lines_of(left.push(10) + right) == seq![
            left.drop_last(),
        ] + lines_of(right),
        left.len() == 0 || left.last() != 13 ==> lines_of(left.push(10) + right) == seq![left]
            + lines_of(right),
{
    let whole = left.push(10) + right;
    lemma_first_index(left, 10);
    if first_index(left, 10) < left.len() {
        assert(left.contains(left[first_index(left, 10)]));
    }
    assert forall|i: int| 0 <= i < left.len() implies whole[i] != 10 by {
        assert(left.contains(left[i]));
        assert(whole[i] == left[i]);
    }
    assert(whole[left.len() as int] == 10);
    lemma_first_index_unique(whole, 10, left.len() as int);
    assert(whole.take(left.len() as int) =~= left);
    assert(whole.skip(left.len() as int + 1) =~= right);
}

/// Byte strings are equal without regard to case if they are as long and differ only where one has a
/// capital ASCII letter and the other the small one.
pub proof fn law_case_is_ignored_for_letters_only(left: Seq<u8>, right: Seq<u8>)
    ensures
        equal_ignoring_case(left, right) <==> left.len() == right.len() && forall|i: int|
            0 <= i < left.len() ==> {
                ||| #[trigger] left[i] == right[i]
                ||| 65 <= left[i] <= 90 && right[i] == left[i] + 32
                ||| 65 <= right[i] <= 90 && left[i] == right[i] + 32
            },
{
    let l = left.map_values(|byte: u8| crate::bytes::lower(byte));
    let r = right.map_values(|byte: u8| crate::bytes::lower(byte));
    if equal_ignoring_case(left, right) {
        assert(l.len() == r.len());
        assert forall|i: int| 0 <= i < left.len() implies ({
            ||| #[trigger] left[i] == right[i]
            ||| 65 <= left[i] <= 90 && right[i] == left[i] + 32
            ||| 65 <= right[i] <= 90 && left[i] == right[i] + 32
        }) by {
            assert(l[i] == r[i]);
        }
    }
    if left.len() == right.len() && forall|i: int|
        0 <= i < left.len() ==> {
            ||| #[trigger] left[i] == right[i]
            ||| 65 <= left[i] <= 90 && right[i] == left[i] + 32
            ||| 65 <= right[i] <= 90 && left[i] == right[i] + 32
        } {
        assert forall|i: int| 0 <= i < left.len() implies l[i] == r[i] by {
            assert(left[i] == left[i]);
        }
        assert(l =~= r);
    }
}

/// Whether the bytes of `needle` stand in `text` from `place` on.
pub open spec fn stands_at(text: Seq<u8>, needle: Seq<u8>, place: int) -> bool {
    &&& 0 <= place
    &&& place + needle.len() <= text.len()
    &&& forall|i: int| 0 <= i < needle.len() ==> text[place + i] == #[trigger] needle[i]
}

/// Whether `text` is something, `needle` and `rest` in turn, and `needle` stands nowhere behind that.
pub open spec fn is_last_split(text: Seq<u8>, needle: Seq<u8>, start: int, rest: Seq<u8>) -> bool {
    &&& stands_at(text, needle, start)
    &&& rest == text.skip(start + needle.len())
    &&& forall|later: int| start < later ==> !#[trigger] stands_at(text, needle, later)
}

proof fn lemma_occurrences(text: Seq<u8>, needle: Seq<u8>, place: int)
    ensures
        occurs_at(text, needle, place) == stands_at(text, needle, place),
{
    if occurs_at(text, needle, place) {
        let part = text.subrange(place, place + needle.len());
        assert forall|i: int| 0 <= i < needle.len() implies text[place + i] == #[trigger] needle[i] by {
            assert(part[i] == text[place + i]);
        }
    }
    if stands_at(text, needle, place) {
        assert(text.subrange(place, place + needle.len()) =~= needle);
    }
}

/// Whether `found` is what follows the last occurrence of `needle` in `text`, or nothing if there is no
/// such occurrence.
pub open spec fn follows_the_last(text: Seq<u8>, needle: Seq<u8>, found: Option<Seq<u8>>) -> bool {
    match found {
        Some(rest) => is_last_split(text, needle, text.len() - needle.len() - rest.len(), rest),
        None => forall|place: int| !#[trigger] stands_at(text, needle, place),
    }
}

proof fn lemma_after_last(text: Seq<u8>, needle: Seq<u8>, limit: nat)
    requires
        forall|later: int| limit <= later ==> !#[trigger] stands_at(text, needle, later),
    ensures
        follows_the_last(text, needle, after_last(text, needle, limit)),
    decreases limit,
{
    if limit > 0 {
        lemma_occurrences(text, needle, limit - 1);
        if occurs_at(text, needle, limit - 1) {
            let rest = text.skip(limit - 1 + needle.len());
            assert(text.len() - needle.len() - rest.len() == limit - 1);
            assert(follows_the_last(text, needle, Some(rest)));
        } else {
            lemma_after_last(text, needle, (limit - 1) as nat);
        }
    } else {
        assert(follows_the_last(text, needle, None));
    }
}

/// What follows the last occurrence of a text is found if it occurs at all.
pub proof fn law_what_follows_the_last_is_found(text: Seq<u8>, needle: Seq<u8>)
    ensures
        follows_the_last(text, needle, after_last(text, needle, (text.len() + 1) as nat)),
{
    lemma_after_last(text, needle, (text.len() + 1) as nat);
}

/// The first difference decides the order, and what ends first comes first.
pub proof fn law_the_first_difference_decides(left: Seq<u8>, right: Seq<u8>, same: int)
    requires
        0 <= same <= left.len(),
        same <= right.len(),
        forall|i: int| 0 <= i < same ==> left[i] == right[i],
        same == left.len() || same == right.len() || left[same] != right[same],
    ensures
        same == right.len() ==> !sorts_before(left, right),
        same == left.len() && same < right.len() ==> sorts_before(left, right),
        same < left.len() && same < right.len() ==> sorts_before(left, right) == (left[same]
            < right[same]),
    decreases same,
{
    if same > 0 {
        assert(left[0] == right[0]);
        law_the_first_difference_decides(left.skip(1), right.skip(1), same - 1);
    }
}

/// Empty byte strings are left out, and all others stay in their order.
pub proof fn law_only_empty_ones_are_left_out(list: Seq<Seq<u8>>, item: Seq<u8>)
    ensures
        non_empty(Seq::<Seq<u8>>::empty()) == Seq::<Seq<u8>>::empty(),
        item.len() == 0 ==> non_empty(list.push(item)) == non_empty(list),
        item.len() > 0 ==> non_empty(list.push(item)) == non_empty(list).push(item),
{
    reveal(Seq::filter);
    assert(list.push(item).drop_last() =~= list);
}

/// Each byte is shown as two digits, that of its sixteens first; digits from ten on are the letters from
/// `a` on.
pub proof fn law_bytes_are_shown_by_two_digits(bytes: Seq<u8>, i: int)
    requires
        0 <= i < bytes.len(),
    ensures
        hex_of(bytes).len() == 2 * bytes.len(),
        bytes[i] / 16 < 10 ==> hex_of(bytes)[2 * i] == 0x30 + bytes[i] / 16,
        bytes[i] / 16 >= 10 ==> hex_of(bytes)[2 * i] == 0x61 + bytes[i] / 16 - 10,
        bytes[i] % 16 < 10 ==> hex_of(bytes)[2 * i + 1] == 0x30 + bytes[i] % 16,
        bytes[i] % 16 >= 10 ==> hex_of(bytes)[2 * i + 1] == 0x61 + bytes[i] % 16 - 10,
{
    assert((2 * i) / 2 == i && (2 * i + 1) / 2 == i && (2 * i) % 2 == 0 && (2 * i + 1) % 2 == 1);
}

/// The upper four bits of a mode tell what an entry is, and a file is executable if its owner may execute
/// it.
pub proof fn law_modes_tell_kinds(mode: EntryMode)
    ensures
        mode.kind_spec() == EntryKind::Tree <==> mode.value / 0x1000 == 4 || mode.value / 0x1000 == 12,
        mode.kind_spec() == EntryKind::Link <==> mode.value / 0x1000 == 10,
        mode.kind_spec() == EntryKind::Blob <==> mode.value / 0x1000 == 8 && mode.value / 0x40 % 2
            == 0,
        mode.kind_spec() == EntryKind::BlobExecutable <==> mode.value / 0x1000 == 8 && mode.value
            / 0x40 % 2 == 1,
{
    let value = mode.value;
    assert(value & 0o170000 == (value / 0x1000) * 0x1000) by (bit_vector);
    assert((value & 0o100 == 0o100) == (value / 0x40 % 2 == 1)) by (bit_vector);
    assert(value / 0x1000 < 16) by (bit_vector);
}

/// The number that decimal digits stand for.
pub open spec fn number_of(digits: Seq<char>) -> int
    decreases digits.len(),
{
    if digits.len() == 0 {
        0
    } else {
        10 * number_of(digits.drop_last()) + (digits.last() as int - '0' as int)
    }
}

/// Numbers are shown by decimal digits that stand for them, without a zero in front.
pub proof fn law_decimals_stand_for_their_number(number: u64)
    ensures
        number_of(decimal(number)) == number,
        decimal(number).len() > 0,
        forall|i: int| 0 <= i < decimal(number).len() ==> '0' <= #[trigger] decimal(number)[i] <= '9',
        number > 0 ==> decimal(number)[0] != '0',
    decreases number,
{
    if number < 10 {
        assert(decimal(number).drop_last() =~= Seq::empty());
        assert(decimal(number).len() == 1);
        reveal_with_fuel(number_of, 2);
    } else {
        law_decimals_stand_for_their_number(number / 10);
        assert(decimal(number).drop_last() =~= decimal(number / 10));
    }
}

} // verus!
