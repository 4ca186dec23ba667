//! Laws on the machine that exercises an object store.

use vstd::prelude::*;

use crate::foreign::object_hash;
use crate::laws::bytes::law_bytes_are_shown_by_two_digits;
use crate::machine::all_begin;
use crate::machine::asks_handle;
use crate::machine::component_numbered;
use crate::machine::find_error_kind;
use crate::machine::find_outcome;
use crate::machine::has_two;
use crate::machine::hash_outcome;
use crate::machine::header_outcome;
use crate::machine::instruction_at;
use crate::machine::is_just;
use crate::machine::opcode_of;
use crate::machine::operand_of;
use crate::machine::pack_numbered;
use crate::machine::plain_prefix_outcome;
use crate::machine::prefix_error_kind;
use crate::machine::prefix_outcome;
use crate::machine::program_length;
use crate::machine::Component;
use crate::machine::FindError;
use crate::machine::Found;
use crate::machine::HeaderFound;
use crate::machine::Opcode;
use crate::machine::Outcome;
use crate::machine::Pack;
use crate::machine::PrefixError;
use crate::machine::PrefixReply;
use crate::machine::PrefixResult;
use crate::machine::PrefixView;
use crate::machine::Query;
use crate::machine::QueryError;
use crate::machine::Violation;
use crate::oid::hex_of;
use crate::oid::view_ids;
use crate::oid::ObjectId;
use crate::oid::ObjectKind;

verus! {

/// The letters and signs of the instructions.
pub proof fn law_letters_stand_for_instructions()
    ensures
        opcode_of('O' as u8) == Opcode::Open,
        opcode_of('C' as u8) == Opcode::Clone,
        opcode_of('D' as u8) == Opcode::Drop,
        opcode_of('N' as u8) == Opcode::Never,
        opcode_of('R' as u8) == Opcode::SetRefresh,
        opcode_of('T' as u8) == Opcode::AdvanceClock,
        opcode_of('!' as u8) == Opcode::MarkStale,
        opcode_of('S' as u8) == Opcode::Stable,
        opcode_of('F' as u8) == Opcode::Find,
        opcode_of('G' as u8) == Opcode::Locate,
        opcode_of('E' as u8) == Opcode::Exists,
        opcode_of('?' as u8) == Opcode::Missing,
        opcode_of('H' as u8) == Opcode::Header,
        opcode_of('I' as u8) == Opcode::IterateStore,
        opcode_of('P' as u8) == Opcode::Prefix,
        opcode_of('#' as u8) == Opcode::CountStore,
        opcode_of('W' as u8) == Opcode::WriteLoose,
        opcode_of('Q' as u8) == Opcode::QueryLoose,
        opcode_of('r' as u8) == Opcode::RemoveLoose,
        opcode_of('+' as u8) == Opcode::Publish,
        opcode_of('-' as u8) == Opcode::Remove,
        opcode_of('X' as u8) == Opcode::Corrupt,
        opcode_of('M' as u8) == Opcode::WriteMultiIndex,
        opcode_of('m' as u8) == Opcode::RemoveMultiIndex,
        opcode_of('L' as u8) == Opcode::Alternate,
        opcode_of('K' as u8) == Opcode::Checkpoint,
{
}

/// Whether a byte is the letter or the sign of an instruction.
pub open spec fn is_letter(byte: u8) -> bool {
    seq![
        'O' as u8, 'C' as u8, 'D' as u8, 'N' as u8, 'R' as u8, 'T' as u8, '!' as u8, 'S' as u8, 'F' as u8,
        'G' as u8, 'E' as u8, '?' as u8, 'H' as u8, 'I' as u8, 'P' as u8, '#' as u8, 'W' as u8, 'Q' as u8,
        'r' as u8, '+' as u8, '-' as u8, 'X' as u8, 'M' as u8, 'm' as u8, 'L' as u8, 'K' as u8,
    ].contains(byte)
}

/// All instructions that a byte without a letter can stand for, by its remainder.
pub open spec fn numbered_instructions() -> Seq<Opcode> {
    seq![
        Opcode::Open,
        Opcode::Clone,
        Opcode::Drop,
        Opcode::Never,
        Opcode::Stable,
        Opcode::Find,
        Opcode::Missing,
        Opcode::Header,
        Opcode::IterateStore,
        Opcode::Prefix,
        Opcode::CountStore,
        Opcode::WriteLoose,
        Opcode::QueryLoose,
        Opcode::RemoveLoose,
        Opcode::Publish,
        Opcode::Remove,
        Opcode::Corrupt,
        Opcode::WriteMultiIndex,
        Opcode::RemoveMultiIndex,
        Opcode::Alternate,
        Opcode::Checkpoint,
        Opcode::Exists,
        Opcode::Locate,
    ]
}

/// Any other byte stands for one of twenty-three instructions, by its remainder.
pub proof fn law_other_bytes_stand_for_instructions(byte: u8)
    requires
        !is_letter(byte),
    ensures
        opcode_of(byte) == numbered_instructions()[byte as int % 23],
{
    let letters = seq![
        'O' as u8, 'C' as u8, 'D' as u8, 'N' as u8, 'R' as u8, 'T' as u8, '!' as u8, 'S' as u8, 'F' as u8,
        'G' as u8, 'E' as u8, '?' as u8, 'H' as u8, 'I' as u8, 'P' as u8, '#' as u8, 'W' as u8, 'Q' as u8,
        'r' as u8, '+' as u8, '-' as u8, 'X' as u8, 'M' as u8, 'm' as u8, 'L' as u8, 'K' as u8,
    ];
    assert(letters[0] == 79 && letters[1] == 67 && letters[2] == 68 && letters[3] == 78 && letters[4]
        == 82 && letters[5] == 84 && letters[6] == 33 && letters[7] == 83 && letters[8] == 70
        && letters[9] == 71 && letters[10] == 69 && letters[11] == 63 && letters[12] == 72
        && letters[13] == 73 && letters[14] == 80 && letters[15] == 35 && letters[16] == 87
        && letters[17] == 81 && letters[18] == 114 && letters[19] == 43 && letters[20] == 45
        && letters[21] == 88 && letters[22] == 77 && letters[23] == 109 && letters[24] == 76
        && letters[25] == 75);
}

/// Digits stand for themselves as operands, and any other byte for its number.
pub proof fn law_operands(byte: u8)
    ensures
        '0' as u8 <= byte <= '9' as u8 ==> operand_of(byte) == byte - '0' as u8,
        byte < '0' as u8 || byte > '9' as u8 ==> operand_of(byte) == byte,
{
}

/// An instruction is made of four bytes: what it does, and three operands. No more than 256 are executed, and what is
/// left over is not.
pub proof fn law_programs_are_made_of_four_bytes_each(data: Seq<u8>, place: int)
    ensures
        instruction_at(data, place).opcode == opcode_of(data[place]),
        instruction_at(data, place).a == operand_of(data[place + 1]),
        instruction_at(data, place).b == operand_of(data[place + 2]),
        instruction_at(data, place).c == operand_of(data[place + 3]),
        data.len() < 1024 ==> 4 * program_length(data.len() as int) <= data.len() < 4 * program_length(
            data.len() as int,
        ) + 4,
        data.len() >= 1024 ==> program_length(data.len() as int) == 256,
{
}

/// Which instructions ask a handle.
pub proof fn law_instructions_that_ask_handles(opcode: Opcode)
    ensures
        asks_handle(opcode) <==> opcode == Opcode::Find || opcode == Opcode::Locate || opcode
            == Opcode::Exists || opcode == Opcode::Missing || opcode == Opcode::Header || opcode
            == Opcode::Prefix || opcode == Opcode::WriteLoose || opcode == Opcode::QueryLoose || opcode
            == Opcode::Checkpoint,
{
}

/// The packs and components by their numbers.
pub proof fn law_packs_and_components_have_numbers()
    ensures
        pack_numbered(0) == Pack::A,
        pack_numbered(1) == Pack::B,
        pack_numbered(2) == Pack::C,
        component_numbered(0) == Component::Pack,
        component_numbered(1) == Component::Index,
        component_numbered(2) == Component::ReverseIndex,
        component_numbered(3) == Component::Bitmap,
        component_numbered(4) == Component::Promisor,
        component_numbered(5) == Component::Mtimes,
        component_numbered(6) == Component::Keep,
{
}

/// Lookups fail where indices are loaded, among loose objects, or among packed ones.
pub proof fn law_failed_lookups_have_kinds(err: FindError)
    ensures
        find_error_kind(err) == QueryError::Refresh <==> err == FindError::LoadIndex,
        find_error_kind(err) == QueryError::LooseObject <==> err == FindError::Loose,
        find_error_kind(err) != QueryError::LooseTraversal,
        prefix_error_kind(PrefixError::LooseWalkDir) == QueryError::LooseTraversal,
        prefix_error_kind(PrefixError::LoadIndex) == QueryError::Refresh,
{
}

/// An object is found if what is there has the hash that was asked for; any other object breaks a promise, and so does
/// one without a hash.
pub proof fn law_found_objects_have_their_hash(
    kind: ObjectKind,
    data: Vec<u8>,
    id: Seq<u8>,
    hash: Seq<u8>,
    err: FindError,
)
    ensures
        hash_outcome(Some(id), id) == Ok::<Outcome, Violation>(Outcome::Query(Query::Found)),
        hash != id ==> hash_outcome(Some(hash), id) == Err::<Outcome, Violation>(
            Violation::WrongObject,
        ),
        hash_outcome(None, id) == Err::<Outcome, Violation>(Violation::NoHash),
        object_hash(kind, data@) == Some(id) ==> find_outcome(Found::Object { kind, data }, id) == Ok::<
            Outcome,
            Violation,
        >(Outcome::Query(Query::Found)),
        object_hash(kind, data@) == Some(hash) && hash != id ==> find_outcome(
            Found::Object { kind, data },
            id,
        ) == Err::<Outcome, Violation>(Violation::WrongObject),
        find_outcome(Found::Nothing, id) == Ok::<Outcome, Violation>(Outcome::Query(Query::Missing)),
        find_outcome(Found::Failed(err), id) == Ok::<Outcome, Violation>(
            Outcome::Query(Query::Error(find_error_kind(err))),
        ),
{
}

/// A header and its object agree if both are there with the same kind and size, or neither is. A failed lookup is the
/// outcome, that of the header first, and that only one of the two is there may be excused.
pub proof fn law_headers_and_objects_agree(
    kind: ObjectKind,
    size: u64,
    object_kind: ObjectKind,
    data: Vec<u8>,
    header: HeaderFound,
    object: Found,
    err: FindError,
    excused: bool,
)
    ensures
        header_outcome(HeaderFound::Failed(err), object, excused) == Ok::<Outcome, Violation>(
            Outcome::Query(Query::Error(find_error_kind(err))),
        ),
        !(header is Failed) ==> header_outcome(header, Found::Failed(err), excused) == Ok::<
            Outcome,
            Violation,
        >(Outcome::Query(Query::Error(find_error_kind(err)))),
        header_outcome(HeaderFound::Nothing, Found::Nothing, excused) == Ok::<Outcome, Violation>(
            Outcome::Query(Query::Missing),
        ),
        kind == object_kind && size == data@.len() ==> header_outcome(
            HeaderFound::Header { kind, size },
            Found::Object { kind: object_kind, data },
            excused,
        ) == Ok::<Outcome, Violation>(Outcome::Query(Query::Found)),
        kind != object_kind || size != data@.len() ==> header_outcome(
            HeaderFound::Header { kind, size },
            Found::Object { kind: object_kind, data },
            excused,
        ) == Err::<Outcome, Violation>(Violation::HeaderDisagrees),
        header_outcome(HeaderFound::Header { kind, size }, Found::Nothing, true) == Ok::<
            Outcome,
            Violation,
        >(Outcome::Query(Query::Stale)),
        header_outcome(HeaderFound::Nothing, Found::Object { kind, data }, true) == Ok::<
            Outcome,
            Violation,
        >(Outcome::Query(Query::Stale)),
        header_outcome(HeaderFound::Header { kind, size }, Found::Nothing, false) == Err::<
            Outcome,
            Violation,
        >(Violation::HeaderDisagrees),
        header_outcome(HeaderFound::Nothing, Found::Object { kind, data }, false) == Err::<
            Outcome,
            Violation,
        >(Violation::HeaderDisagrees),
{
}

/// A name of twenty bytes begins with a prefix if as many of their digits as count are the same.
pub proof fn law_names_begin_with_prefixes(prefix: PrefixView, id: Seq<u8>)
    requires
        prefix.wf(),
    ensures
        prefix.id.len() == 20,
        4 <= prefix.hex_len <= 40,
        prefix.begins(prefix.id),
        id.len() != 20 ==> !prefix.begins(id),
        id.len() == 20 ==> (prefix.begins(id) <==> forall|i: int|
            0 <= i < prefix.hex_len ==> #[trigger] hex_of(id)[i] == hex_of(prefix.id)[i]),
{
    if id.len() == 20 {
        law_bytes_are_shown_by_two_digits(id, 0);
        law_bytes_are_shown_by_two_digits(prefix.id, 0);
        let left = hex_of(id).take(prefix.hex_len);
        let right = hex_of(prefix.id).take(prefix.hex_len);
        if prefix.begins(id) {
            assert forall|i: int| 0 <= i < prefix.hex_len implies #[trigger] hex_of(id)[i] == hex_of(
                prefix.id,
            )[i] by {
                assert(left[i] == right[i]);
            }
        }
        if forall|i: int| 0 <= i < prefix.hex_len ==> #[trigger] hex_of(id)[i] == hex_of(prefix.id)[i] {
            assert forall|i: int| 0 <= i < left.len() implies left[i] == right[i] by {
                assert(hex_of(id)[i] == hex_of(prefix.id)[i]);
            }
            assert(left =~= right);
        }
    }
}

/// All candidates must begin with the prefix.
pub proof fn law_wrong_candidates_break_a_promise(
    prefix: PrefixView,
    reply: PrefixReply,
    collect: bool,
    i: int,
)
    requires
        0 <= i < reply.candidates@.len(),
        !prefix.begins(reply.candidates@[i]@),
    ensures
        prefix_outcome(prefix, reply, collect) == Err::<Outcome, Violation>(Violation::WrongCandidate),
{
    assert(view_ids(reply.candidates@)[i] == reply.candidates@[i]@);
}

/// Where all candidates begin with the prefix, a unique result must, too, and must be the only candidate if they are
/// collected; an ambiguous one must have two different candidates then, and a missing one none in any case.
pub proof fn law_results_agree_with_candidates(
    prefix: PrefixView,
    candidates: Vec<ObjectId>,
    id: ObjectId,
    collect: bool,
    err: PrefixError,
)
    requires
        forall|i: int| 0 <= i < candidates@.len() ==> prefix.begins((#[trigger] candidates@[i])@),
    ensures
        ({
            let unique = prefix_outcome(
                prefix,
                PrefixReply { result: PrefixResult::Unique(id), candidates },
                collect,
            );
            let only = candidates@.len() > 0 && forall|i: int|
                0 <= i < candidates@.len() ==> (#[trigger] candidates@[i])@ == id@;
            &&& !prefix.begins(id@) ==> unique == Err::<Outcome, Violation>(Violation::WrongResult)
            &&& prefix.begins(id@) && collect && !only ==> unique == Err::<Outcome, Violation>(
                Violation::WrongCandidates,
            )
            &&& prefix.begins(id@) && (!collect || only) ==> unique == Ok::<Outcome, Violation>(
                Outcome::Query(Query::Found),
            )
        }),
        ({
            let ambiguous = prefix_outcome(
                prefix,
                PrefixReply { result: PrefixResult::Ambiguous, candidates },
                collect,
            );
            let two = exists|i: int, j: int|
                0 <= i < j < candidates@.len() && (#[trigger] candidates@[i])@ != (
                #[trigger] candidates@[j])@;
            &&& collect && !two ==> ambiguous == Err::<Outcome, Violation>(Violation::TooFewCandidates)
            &&& !collect || two ==> ambiguous == Ok::<Outcome, Violation>(
                Outcome::Query(Query::Ambiguous),
            )
        }),
        ({
            let nothing = prefix_outcome(
                prefix,
                PrefixReply { result: PrefixResult::Nothing, candidates },
                collect,
            );
            &&& candidates@.len() == 0 ==> nothing == Ok::<Outcome, Violation>(
                Outcome::Query(Query::Missing),
            )
            &&& candidates@.len() > 0 ==> nothing == Err::<Outcome, Violation>(
                Violation::UnexpectedCandidates,
            )
        }),
        prefix_outcome(
            prefix,
            PrefixReply { result: PrefixResult::Failed(err), candidates },
            collect,
        ) == Ok::<Outcome, Violation>(Outcome::Query(Query::Error(prefix_error_kind(err)))),
{
    let names = view_ids(candidates@);
    assert forall|i: int| 0 <= i < names.len() implies prefix.begins(#[trigger] names[i]) by {
        assert(names[i] == candidates@[i]@);
    }
    assert(all_begin(prefix, names));
    let only = candidates@.len() > 0 && forall|i: int|
        0 <= i < candidates@.len() ==> (#[trigger] candidates@[i])@ == id@;
    assert(is_just(names, id@) == only) by {
        if is_just(names, id@) {
            assert forall|i: int| 0 <= i < candidates@.len() implies (#[trigger] candidates@[i])@
                == id@ by {
                assert(names[i] == id@);
            }
        }
        if only {
            assert forall|i: int| 0 <= i < names.len() implies #[trigger] names[i] == id@ by {
                assert(candidates@[i]@ == id@);
            }
        }
    }
    let two = exists|i: int, j: int|
        0 <= i < j < candidates@.len() && (#[trigger] candidates@[i])@ != (#[trigger] candidates@[j])@;
    assert(has_two(names) == two) by {
        if has_two(names) {
            let i = choose|i: int| 0 <= i < names.len() && #[trigger] names[i] != names[0];
            assert(candidates@[0]@ == names[0] && candidates@[i]@ == names[i]);
        }
        if two {
            let (i, j) = choose|i: int, j: int|
                0 <= i < j < candidates@.len() && (#[trigger] candidates@[i])@ != (
                #[trigger] candidates@[j])@;
            assert(names[i] == candidates@[i]@ && names[j] == candidates@[j]@);
        }
    }
}

/// Where no candidates are collected, only what the lookup returned counts.
pub proof fn law_plain_lookups_of_prefixes(id: ObjectId, err: PrefixError)
    ensures
        plain_prefix_outcome(PrefixResult::Unique(id)) == Outcome::Query(Query::Found),
        plain_prefix_outcome(PrefixResult::Ambiguous) == Outcome::Query(Query::Ambiguous),
        plain_prefix_outcome(PrefixResult::Nothing) == Outcome::Query(Query::Missing),
        plain_prefix_outcome(PrefixResult::Failed(err)) == Outcome::Query(
            Query::Error(prefix_error_kind(err)),
        ),
{
}

} // verus!
