//! Laws on the object store.

use vstd::prelude::*;

use crate::laws::bytes::law_the_first_difference_decides;
use crate::store::all_indices;
use crate::store::all_packs;
use crate::store::are_loaded;
use crate::store::count;
use crate::store::id_before;
use crate::store::initial_slots;
use crate::store::is_stable_sort;
use crate::store::limit_of;
use crate::store::loaded_indices;
use crate::store::loaded_packs;
use crate::store::replacements_of;
use crate::store::sum;
use crate::store::IndexAndPacks;
use crate::store::LockedStep;
use crate::store::PackAnswer;
use crate::store::PackLookup;
use crate::store::PackOutcome;
use crate::store::PackRequest;
use crate::store::PackState;
use crate::store::Slot;
use crate::store::Slots;
use crate::store::Store;

verus! {

/// Whether files hold the pack that is asked for, of which the given is known: the pack of an index of
/// its own, or the one at its place in an index over several packs.
pub open spec fn holds_pack(
    files: Option<IndexAndPacks>,
    pack_index: Option<u32>,
    state: PackState,
) -> bool {
    ||| (files matches Some(IndexAndPacks::Index { pack, .. }) && pack_index is None && pack == state)
    ||| (files matches Some(IndexAndPacks::MultiIndex { packs, .. }) && pack_index is Some
        && pack_index.unwrap() < packs@.len() && packs@[pack_index.unwrap() as int] == state)
}

/// A request of the current generation, for a slot that was filled in that or any earlier one and holds
/// the expected index and the pack, is never stale: it gets the pack if that is loaded, and is to lock
/// the slot otherwise.
pub proof fn law_current_requests_are_answered(
    request: PackRequest,
    generation: u32,
    slot: Slot,
    index_matches: bool,
    state: PackState,
)
    requires
        generation == request.generation,
        slot.generation <= request.generation,
        index_matches,
        holds_pack(slot.files, request.pack_index, state),
    ensures
        state matches PackState::Loaded(number) ==> request.looked(generation, slot, index_matches)
            == PackLookup::Loaded(number),
        state == PackState::Unloaded || state == PackState::Missing ==> request.looked(
            generation,
            slot,
            index_matches,
        ) == PackLookup::Lock,
{
}

/// A request is stale if it is of another generation, if the slot was filled later, if the index is not
/// the expected one, or if the slot does not hold the pack.
pub proof fn law_other_requests_are_stale(
    request: PackRequest,
    generation: u32,
    slot: Slot,
    index_matches: bool,
)
    requires
        generation != request.generation || slot.generation > request.generation || !index_matches
            || forall|state: PackState| !#[trigger] holds_pack(slot.files, request.pack_index, state),
    ensures
        request.looked(generation, slot, index_matches) == PackLookup::Stale,
{
    match (slot.files, request.pack_index) {
        (Some(IndexAndPacks::Index { pack, .. }), None) => {
            assert(holds_pack(slot.files, request.pack_index, pack));
        },
        (Some(IndexAndPacks::MultiIndex { packs, .. }), Some(pack_index)) => {
            if pack_index < packs@.len() {
                assert(holds_pack(slot.files, request.pack_index, packs@[pack_index as int]));
            }
        },
        _ => {},
    }
}

/// Whether a slot stays the same does not matter to requests for another one, nor does anything else in
/// a store but its generation.
pub proof fn law_only_the_slot_and_the_generation_matter(
    request: PackRequest,
    one: Store,
    other: Store,
    index_matches: bool,
)
    requires
        request.slot < one.slots@.len(),
        request.slot < other.slots@.len(),
        one.generation == other.generation,
        one.slots@[request.slot as int] == other.slots@[request.slot as int],
    ensures
        request.looked(one.generation, one.slots@[request.slot as int], index_matches)
            == request.looked(other.generation, other.slots@[request.slot as int], index_matches),
{
}

/// Under the lock a request gets the pack if it is loaded by then, reads the file if nothing is known of
/// the pack, and gets nothing if it is missing.
pub proof fn law_locked_requests_for_held_packs(
    request: PackRequest,
    files: Option<IndexAndPacks>,
    state: PackState,
    outcome: PackOutcome,
)
    requires
        holds_pack(files, request.pack_index, state),
    ensures
        state matches PackState::Loaded(number) ==> request.locked(files, true)
            == LockedStep::Answer(PackAnswer::Pack(number)),
        state == PackState::Missing ==> request.locked(files, true) == LockedStep::Answer(
            PackAnswer::Nothing,
        ),
        state == PackState::Unloaded ==> request.locked(files, true) == LockedStep::ReadFile && (
        outcome matches PackOutcome::Loaded(number) ==> request.answer(files, true, outcome)
            == PackAnswer::Pack(number)) && (outcome == PackOutcome::Missing ==> request.answer(
            files,
            true,
            outcome,
        ) == PackAnswer::Nothing) && (outcome == PackOutcome::Failed ==> request.answer(
            files,
            true,
            outcome,
        ) == PackAnswer::Failure),
{
}

/// Under the lock a request gets nothing and reads nothing if the index is not the expected one, or if
/// the slot is empty or holds an index of another kind.
pub proof fn law_locked_requests_for_other_files(
    request: PackRequest,
    files: Option<IndexAndPacks>,
    index_matches: bool,
)
    requires
        !index_matches || files is None || (files matches Some(IndexAndPacks::Index { .. })
            && request.pack_index is Some) || (files matches Some(IndexAndPacks::MultiIndex { .. })
            && request.pack_index is None),
    ensures
        request.locked(files, index_matches) == LockedStep::Answer(PackAnswer::Nothing),
{
}

/// A limit is what a store starts with and never exceeds. Other stores may grow: from as many slots as
/// they are told to start with, or from the greater one of what the disk suggests and the minimum.
pub proof fn law_slots_at_the_start(limit: u16, initial: u16, minimum: usize, suggested: usize)
    ensures
        initial_slots(Slots::Limit(limit), suggested) == limit,
        limit_of(Slots::Limit(limit)) == Some(limit as usize),
        initial_slots(Slots::Growable { initial }, suggested) == initial,
        limit_of(Slots::Growable { initial }) is None,
        initial_slots(Slots::AsNeededByDiskState { minimum }, suggested) >= minimum,
        initial_slots(Slots::AsNeededByDiskState { minimum }, suggested) >= suggested,
        initial_slots(Slots::AsNeededByDiskState { minimum }, suggested) == minimum
            || initial_slots(Slots::AsNeededByDiskState { minimum }, suggested) == suggested,
        limit_of(Slots::AsNeededByDiskState { minimum }) is None,
{
}

proof fn lemma_count_push(list: Seq<bool>, item: bool, value: bool)
    ensures
        count(list.push(item), value) == count(list, value) + (if item == value {
            1int
        } else {
            0
        }),
{
    assert(list.push(item).drop_last() =~= list);
}

/// Sums and counts start at zero and grow by what is added.
pub proof fn law_sums_and_counts(list: Seq<int>, number: int, flags: Seq<bool>, flag: bool)
    ensures
        sum(Seq::empty()) == 0,
        sum(list.push(number)) == sum(list) + number,
        count(Seq::empty(), true) == 0,
        count(flags.push(true), true) == count(flags, true) + 1,
        count(flags.push(false), true) == count(flags, true),
{
    assert(list.push(number).drop_last() =~= list);
    lemma_count_push(flags, true, true);
    lemma_count_push(flags, false, true);
}

/// An index with its pack counts as one of each, loaded or not as they are.
pub proof fn law_counting_an_index(index_loaded: bool, pack: PackState)
    ensures
        ({
            let files = Some(IndexAndPacks::Index { index_loaded, pack });
            &&& all_indices(files) == 1
            &&& all_packs(files) == 1
            &&& index_loaded ==> loaded_indices(files) == 1
            &&& !index_loaded ==> loaded_indices(files) == 0
            &&& pack matches PackState::Loaded(_) ==> loaded_packs(files) == 1
            &&& pack == PackState::Unloaded || pack == PackState::Missing ==> loaded_packs(files) == 0
        }),
        all_indices(None) == 0,
        all_packs(None) == 0,
        loaded_indices(None) == 0,
        loaded_packs(None) == 0,
{
}

/// An index over several packs counts as one index and as all of its packs, of which those count as
/// loaded that are.
pub proof fn law_counting_a_multi_index(index_loaded: bool, packs: Vec<PackState>)
    ensures
        ({
            let files = Some(IndexAndPacks::MultiIndex { index_loaded, packs });
            &&& all_indices(files) == 1
            &&& all_packs(files) == packs@.len()
            &&& index_loaded ==> loaded_indices(files) == 1
            &&& !index_loaded ==> loaded_indices(files) == 0
            &&& loaded_packs(files) == packs@.filter(|pack: PackState| pack is Loaded).len()
        }),
{
    lemma_loaded_are_counted(packs@);
}

proof fn lemma_loaded_are_counted(packs: Seq<PackState>)
    ensures
        count(are_loaded(packs), true) == packs.filter(|pack: PackState| pack is Loaded).len(),
    decreases packs.len(),
{
    reveal(Seq::filter);
    if packs.len() > 0 {
        lemma_loaded_are_counted(packs.drop_last());
        assert(are_loaded(packs) =~= are_loaded(packs.drop_last()).push(packs.last() is Loaded));
        lemma_count_push(are_loaded(packs.drop_last()), packs.last() is Loaded, true);
    }
}

/// What is reachable is what the slots in use hold, slot by slot.
pub proof fn law_reachable_files_are_in_used_slots(store: Store, i: int)
    requires
        0 <= i < store.slot_indices@.len(),
    ensures
        store.reachable().len() == store.slot_indices@.len(),
        store.reachable()[i] == store.slots@[store.slot_indices@[i] as int].files,
{
}

/// Sorted replacements are those that were given, as often as they were, the shorter ids first and ids of
/// the same length by their first difference.
pub proof fn law_replacements_are_sorted(
    list: Seq<(Seq<u8>, Seq<u8>)>,
    sorted: Seq<(Seq<u8>, Seq<u8>)>,
    i: int,
    j: int,
    same: int,
)
    requires
        is_stable_sort(list, sorted),
        0 <= i < j < sorted.len(),
        0 <= same < sorted[i].0.len(),
        same < sorted[j].0.len(),
        forall|k: int| 0 <= k < same ==> sorted[i].0[k] == sorted[j].0[k],
        sorted[i].0[same] != sorted[j].0[same],
    ensures
        sorted.len() == list.len(),
        sorted[i].0.len() <= sorted[j].0.len(),
        sorted[i].0.len() == sorted[j].0.len() ==> sorted[i].0[same] < sorted[j].0[same],
{
    assert(!id_before(sorted[j].0, sorted[i].0));
    law_the_first_difference_decides(sorted[j].0, sorted[i].0, same);
}

/// What replaces an object, and in which order, is not changed by sorting: the pairs of that object in
/// their order.
pub proof fn law_sorting_keeps_replacements(
    list: Seq<(Seq<u8>, Seq<u8>)>,
    sorted: Seq<(Seq<u8>, Seq<u8>)>,
    id: Seq<u8>,
    pair: (Seq<u8>, Seq<u8>),
)
    ensures
        is_stable_sort(list, sorted) ==> replacements_of(sorted, id) == replacements_of(list, id),
        replacements_of(Seq::empty(), id).len() == 0,
        pair.0 == id ==> replacements_of(list.push(pair), id) == replacements_of(list, id).push(pair),
        pair.0 != id ==> replacements_of(list.push(pair), id) == replacements_of(list, id),
{
    reveal(Seq::filter);
    assert(list.push(pair).drop_last() =~= list);
}

} // verus!
