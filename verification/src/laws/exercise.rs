//! Laws on what the machine keeps track of, and on what it asks of a store.

use vstd::prelude::*;

use crate::machine::component_numbered;
use crate::machine::find_error_kind;
use crate::machine::find_outcome;
use crate::machine::header_outcome;
use crate::machine::pack_numbered;
use crate::machine::plain_prefix_outcome;
use crate::machine::prefix_error_kind;
use crate::machine::prefix_outcome;
use crate::machine::state::compare_outcome;
use crate::machine::state::compare_progress;
use crate::machine::state::compared_places;
use crate::machine::state::count_handles;
use crate::machine::state::is_compared;
use crate::machine::state::is_failed_refresh;
use crate::machine::state::is_watched;
use crate::machine::state::iterate_outcome;
use crate::machine::state::lookups_progress;
use crate::machine::state::watched_objects;
use crate::machine::state::Comparison;
use crate::machine::state::HandleView;
use crate::machine::state::Location;
use crate::machine::state::MachineView;
use crate::machine::state::Object;
use crate::machine::state::Prefix;
use crate::machine::state::Progress;
use crate::machine::state::Reply;
use crate::machine::state::Request;
use crate::machine::state::Step;
use crate::machine::Database;
use crate::machine::DisambiguateError;
use crate::machine::FindError;
use crate::machine::FixtureAction;
use crate::machine::Found;
use crate::machine::HeaderFound;
use crate::machine::Instruction;
use crate::machine::Opcode;
use crate::machine::Outcome;
use crate::machine::PackSet;
use crate::machine::PrefixReply;
use crate::machine::PrefixView;
use crate::machine::Query;
use crate::machine::QueryError;
use crate::machine::RefreshPolicy;
use crate::machine::Skip;
use crate::machine::Violation;
use crate::machine::WriteError;
use crate::machine::WriteFailure;
use crate::oid::ObjectId;
use crate::store::RefreshMode;
use crate::store::Slots;

verus! {

/// An instruction.
pub open spec fn instruction(opcode: Opcode, a: usize, b: usize, c: usize) -> Instruction {
    Instruction { opcode, a, b, c }
}

/// An outcome that keeps all promises.
pub open spec fn kept(outcome: Outcome) -> Result<Outcome, Violation> {
    Ok(outcome)
}

/// A broken promise.
pub open spec fn broken(violation: Violation) -> Result<Outcome, Violation> {
    Err(violation)
}

/// The machine with another handle at a place, and nothing else changed.
pub open spec fn replaced(machine: MachineView, place: int, handle: Option<HandleView>) -> MachineView {
    MachineView {
        handles: machine.handles.update(place, handle),
        loose_ids: machine.loose_ids,
        written_loose_ids: machine.written_loose_ids,
        now: machine.now,
        next_store_id: machine.next_store_id,
        packed_ids: machine.packed_ids,
        missing_id: machine.missing_id,
        ambiguous_prefix: machine.ambiguous_prefix,
    }
}

/// An instruction that is skipped for want of a handle.
pub open spec fn skips(machine: MachineView) -> (MachineView, Step) {
    (machine, Step::Done(Outcome::Skipped(Skip::NoHandle)))
}

/// Whether a number of slots is made to lie between a lowest one and sixteen.
pub open spec fn is_clamped(slots: usize, low: int, clamped: u16) -> bool {
    &&& low <= slots <= 16 ==> clamped == slots
    &&& slots < low ==> clamped == low
    &&& slots > 16 ==> clamped == 16
}

/// Opening gives the place a fresh handle of a store with the next number.
#[verifier::rlimit(50)]
pub proof fn law_opened_handles_are_fresh(
    machine: MachineView,
    a: usize,
    b: usize,
    c: usize,
    valid: bool,
)
    ensures
        machine.begun(instruction(Opcode::Open, a, b, c), valid).0 == (MachineView {
            next_store_id: if machine.next_store_id == u32::MAX {
                0
            } else {
                (machine.next_store_id + 1) as u32
            },
            ..replaced(
                machine,
                a as int % 4,
                Some(
                    HandleView {
                        store_id: machine.next_store_id,
                        stable: false,
                        refresh: RefreshPolicy::Strict,
                        observed: None,
                        stable_locations: Seq::empty(),
                    },
                ),
            )
        }),
{
}

/// A store is opened with a limit of one to sixteen slots, or with up to sixteen to start with, and with or without an
/// index over several packs.
#[verifier::rlimit(50)]
pub proof fn law_opened_stores_have_slots(
    machine: MachineView,
    a: usize,
    b: usize,
    c: usize,
    valid: bool,
    clamped: u16,
)
    ensures
        ({
            let step = machine.begun(instruction(Opcode::Open, a, b, c), valid).1;
            &&& c as int % 4 < 2 && is_clamped(b, 1, clamped) ==> step == Step::Ask(
                Request::Open {
                    slot: (a as int % 4) as usize,
                    slots: Slots::Limit(clamped),
                    use_multi_pack_index: c % 2 == 0,
                },
            )
            &&& c as int % 4 >= 2 && is_clamped(b, 0, clamped) ==> step == Step::Ask(
                Request::Open {
                    slot: (a as int % 4) as usize,
                    slots: Slots::Growable { initial: clamped },
                    use_multi_pack_index: c % 2 == 0,
                },
            )
        }),
{
    assert((c as int / 2 % 2 == 1) == (c as int % 4 >= 2));
}

/// A handle that is made of another one shares all with it but what that one has found. A dropped one is gone.
pub proof fn law_cloning_and_dropping(
    machine: MachineView,
    a: usize,
    b: usize,
    c: usize,
    valid: bool,
    handle: HandleView,
)
    ensures
        machine.handles[b as int % 4] is None ==> machine.begun(
            instruction(Opcode::Clone, a, b, c),
            valid,
        ) == skips(machine),
        machine.handles[b as int % 4] == Some(handle) ==> machine.begun(
            instruction(Opcode::Clone, a, b, c),
            valid,
        ) == (
            replaced(
                machine,
                a as int % 4,
                Some(
                    HandleView {
                        store_id: handle.store_id,
                        stable: handle.stable,
                        refresh: handle.refresh,
                        observed: None,
                        stable_locations: handle.stable_locations,
                    },
                ),
            ),
            Step::Ask(
                Request::Clone {
                    source: (b as int % 4) as usize,
                    destination: (a as int % 4) as usize,
                },
            ),
        ),
        machine.handles[a as int % 4] == Some(handle) ==> machine.begun(
            instruction(Opcode::Drop, a, b, c),
            valid,
        ) == (
            replaced(machine, a as int % 4, None),
            Step::Ask(Request::Drop { slot: (a as int % 4) as usize }),
        ),
        machine.handles[a as int % 4] is None ==> machine.begun(instruction(Opcode::Drop, a, b, c), valid).1
            == Step::Done(Outcome::Skipped(Skip::NoHandle)),
{
}

/// How a handle refreshes is what was selected, and it keeps all else; a window is in milliseconds. A handle that is
/// made stable stays as it is otherwise.
pub proof fn law_configuring(
    machine: MachineView,
    a: usize,
    b: usize,
    c: usize,
    valid: bool,
    handle: HandleView,
)
    requires
        c <= 255,
    ensures
        machine.handles[a as int % 4] is None ==> machine.begun(
            instruction(Opcode::Never, a, b, c),
            valid,
        ) == skips(machine) && machine.begun(instruction(Opcode::SetRefresh, a, b, c), valid) == skips(
            machine,
        ) && machine.begun(instruction(Opcode::Stable, a, b, c), valid) == skips(machine),
        machine.handles[a as int % 4] == Some(handle) ==> {
            let slot = (a as int % 4) as usize;
            let never = machine.begun(instruction(Opcode::Never, a, b, c), valid);
            let set = machine.begun(instruction(Opcode::SetRefresh, a, b, c), valid);
            let stable = machine.begun(instruction(Opcode::Stable, a, b, c), valid);
            &&& never == (
                replaced(
                    machine,
                    a as int % 4,
                    Some(HandleView { refresh: RefreshPolicy::Never, ..handle }),
                ),
                Step::Ask(Request::SetRefresh { slot, mode: RefreshMode::Never }),
            )
            &&& b % 3 == 0 ==> set == (
                replaced(
                    machine,
                    a as int % 4,
                    Some(HandleView { refresh: RefreshPolicy::Strict, ..handle }),
                ),
                Step::Ask(Request::SetRefresh { slot, mode: RefreshMode::AfterAllIndicesLoaded }),
            )
            &&& b % 3 == 1 ==> set == (
                replaced(
                    machine,
                    a as int % 4,
                    Some(HandleView { refresh: RefreshPolicy::AfterDuration(c as u64), ..handle }),
                ),
                Step::Ask(
                    Request::SetRefresh {
                        slot,
                        mode: RefreshMode::AfterDuration((c * 1_000_000) as u128),
                    },
                ),
            )
            &&& b % 3 == 2 ==> set == never
            &&& stable == (
                replaced(machine, a as int % 4, Some(HandleView { stable: true, ..handle })),
                Step::Ask(Request::PreventUnload { slot }),
            )
        },
{
}

/// The clock is set forward by its operands, in steps of one, sixteen and 256 milliseconds.
pub proof fn law_advancing_the_clock(machine: MachineView, a: usize, b: usize, c: usize, valid: bool)
    ensures
        machine.begun(instruction(Opcode::AdvanceClock, a, b, c), valid) == (
            MachineView { now: machine.now + a + 16 * b + 256 * c, ..machine },
            Step::Ask(Request::SetClock { now: (machine.now + a + 16 * b + 256 * c) as u64 }),
        ),
{
}

/// What is asked of a handle, if there is one; nothing that the machine keeps track of changes.
pub open spec fn asks(machine: MachineView, a: usize, request: Request) -> (MachineView, Step) {
    if machine.handles[a as int % 4] is Some {
        (machine, Step::Ask(request))
    } else {
        (machine, Step::Done(Outcome::Skipped(Skip::NoHandle)))
    }
}

/// The object in the packs with the number that an operand selects, counted from the first again.
pub open spec fn packed(machine: MachineView, b: usize) -> Object {
    Object::Packed((b as int % machine.packed_ids.len() as int) as usize)
}

/// What handles are asked.
pub proof fn law_asking_handles(machine: MachineView, a: usize, b: usize, c: usize, valid: bool)
    ensures
        ({
            let slot = (a as int % 4) as usize;
            let object = packed(machine, b);
            &&& machine.begun(instruction(Opcode::MarkStale, a, b, c), valid) == asks(
                machine,
                a,
                Request::MarkStale { slot },
            )
            &&& machine.begun(instruction(Opcode::Find, a, b, c), valid) == asks(
                machine,
                a,
                Request::Find { slot, object },
            )
            &&& machine.begun(instruction(Opcode::Exists, a, b, c), valid) == asks(
                machine,
                a,
                Request::Exists { slot, object },
            )
            &&& machine.begun(instruction(Opcode::Missing, a, b, c), valid) == asks(
                machine,
                a,
                Request::Find { slot, object: Object::Missing },
            )
            &&& machine.begun(instruction(Opcode::Header, a, b, c), valid) == asks(
                machine,
                a,
                Request::Header { slot, object },
            )
            &&& machine.begun(instruction(Opcode::IterateStore, a, b, c), valid) == asks(
                machine,
                a,
                Request::Iterate { slot, by_offset: b % 2 == 1 },
            )
            &&& machine.begun(instruction(Opcode::CountStore, a, b, c), valid) == asks(
                machine,
                a,
                Request::Count { slot },
            )
            &&& machine.begun(instruction(Opcode::WriteLoose, a, b, c), valid) == asks(
                machine,
                a,
                Request::WriteLoose { slot, number: b as u8, content: c as u8 },
            )
        }),
{
}

/// Which prefix is looked for: one of four to forty digits of an object, which is made unique or looked for with or without
/// candidates, an ambiguous one, or the whole name of the missing object.
pub proof fn law_asking_for_prefixes(machine: MachineView, a: usize, b: usize, c: usize, valid: bool)
    ensures
        ({
            let slot = (a as int % 4) as usize;
            let object = packed(machine, b);
            let hex_len = (4 + c as int % 37) as usize;
            let begun = machine.begun(instruction(Opcode::Prefix, a, b, c), valid);
            &&& c % 5 == 0 ==> begun == asks(
                machine,
                a,
                Request::Disambiguate { slot, object, hex_len },
            )
            &&& c % 5 == 1 ==> begun == asks(
                machine,
                a,
                Request::LookupPrefix { slot, prefix: Prefix::Of { object, hex_len }, collect: false },
            )
            &&& c % 5 == 2 ==> begun == asks(
                machine,
                a,
                Request::LookupPrefix { slot, prefix: Prefix::Of { object, hex_len }, collect: true },
            )
            &&& c % 5 == 3 ==> begun == asks(
                machine,
                a,
                Request::LookupPrefix { slot, prefix: Prefix::Ambiguous, collect: true },
            )
            &&& c % 5 == 4 ==> begun == asks(
                machine,
                a,
                Request::LookupPrefix { slot, prefix: Prefix::Missing, collect: true },
            )
        }),
{
}

/// Locations are only asked of handles that keep them, and loose objects are only asked for and removed where there
/// are any.
pub proof fn law_asking_for_locations_and_loose_objects(
    machine: MachineView,
    a: usize,
    b: usize,
    c: usize,
    valid: bool,
    handle: HandleView,
)
    requires
        machine.handles[a as int % 4] == Some(handle),
    ensures
        ({
            let slot = (a as int % 4) as usize;
            let loose = Object::Loose((b as int % 4) as usize);
            let query = machine.begun(instruction(Opcode::QueryLoose, a, b, c), valid);
            let remove = machine.begun(instruction(Opcode::RemoveLoose, a, b, c), valid);
            let nothing = (machine, Step::Done(Outcome::Skipped(Skip::NoLooseObject)));
            &&& handle.stable ==> machine.begun(instruction(Opcode::Locate, a, b, c), valid) == (
                machine,
                Step::Ask(Request::Locate { slot, object: packed(machine, b) }),
            )
            &&& !handle.stable ==> machine.begun(instruction(Opcode::Locate, a, b, c), valid) == (
                machine,
                Step::Done(Outcome::Skipped(Skip::NotStable)),
            )
            &&& machine.loose_ids[b as int % 4] is None ==> query == nothing && remove == nothing
            &&& machine.loose_ids[b as int % 4] is Some ==> {
                &&& remove == (
                    machine,
                    Step::Ask(Request::RemoveLoose { loose: (b as int % 4) as usize }),
                )
                &&& c % 3 == 0 ==> query == (
                    machine,
                    Step::Ask(Request::Find { slot, object: loose }),
                )
                &&& c % 3 == 1 ==> query == (
                    machine,
                    Step::Ask(Request::Header { slot, object: loose }),
                )
                &&& c % 3 == 2 ==> query == (
                    machine,
                    Step::Ask(
                        Request::LookupPrefix {
                            slot,
                            prefix: Prefix::Of {
                                object: loose,
                                hex_len: (4 + c as int % 37) as usize,
                            },
                            collect: false,
                        },
                    ),
                )
            }
        }),
{
}

/// Without a handle neither locations nor loose objects are asked for.
pub proof fn law_asking_without_a_handle(machine: MachineView, a: usize, b: usize, c: usize)
    requires
        machine.handles[a as int % 4] is None,
    ensures
        machine.begun(instruction(Opcode::Locate, a, b, c), true) == skips(machine),
        machine.begun(instruction(Opcode::QueryLoose, a, b, c), true) == skips(machine),
        machine.begun(instruction(Opcode::Checkpoint, a, b, c), true) == skips(machine),
{
}

/// What is compared at a checkpoint.
pub proof fn law_checkpoints(
    machine: MachineView,
    a: usize,
    b: usize,
    c: usize,
    handle: HandleView,
)
    requires
        machine.handles[a as int % 4] == Some(handle),
    ensures
        ({
            let checkpoint = instruction(Opcode::Checkpoint, a, b, c);
            let (after, step) = machine.begun(checkpoint, true);
            &&& machine.begun(checkpoint, false) == (
                machine,
                Step::Done(Outcome::Skipped(Skip::FixtureInTransition)),
            )
            &&& after == machine
            &&& handle.stable && handle.stable_locations.len() == 0 ==> step == Step::Done(
                Outcome::Skipped(Skip::NoStableLocation),
            )
            &&& handle.stable && handle.stable_locations.len() > 0 ==> step == Step::Done(
                Outcome::Compared(handle.stable_locations.len() as usize),
            )
            &&& !handle.stable && handle.refresh == RefreshPolicy::Strict ==> step == Step::Ask(
                Request::Compare { store_id: handle.store_id },
            )
            &&& !handle.stable && handle.refresh != RefreshPolicy::Strict ==> step == Step::Done(
                Outcome::Skipped(Skip::RefreshNotStrict),
            )
        }),
{
}

/// How files are changed: in the primary database for even operands and in its alternate for odd ones.
pub proof fn law_changing_files(machine: MachineView, a: usize, b: usize, c: usize, valid: bool)
    ensures
        ({
            let database = if a % 2 == 1 {
                Database::Alternate
            } else {
                Database::Primary
            };
            let pack = pack_numbered(b as int % 3);
            let component = component_numbered(c as int % 7);
            &&& machine.begun(instruction(Opcode::Publish, a, b, c), valid) == (
                machine,
                Step::Ask(Request::Apply(FixtureAction::Publish { database, pack, component })),
            )
            &&& machine.begun(instruction(Opcode::Remove, a, b, c), valid) == (
                machine,
                Step::Ask(Request::Apply(FixtureAction::Remove { database, pack, component })),
            )
            &&& machine.begun(instruction(Opcode::Corrupt, a, b, c), valid) == (
                machine,
                Step::Ask(Request::Apply(FixtureAction::CorruptIndex { database, pack })),
            )
            &&& machine.begun(instruction(Opcode::RemoveMultiIndex, a, b, c), valid) == (
                machine,
                Step::Ask(Request::Apply(FixtureAction::RemoveMultiIndex { database })),
            )
            &&& machine.begun(instruction(Opcode::Alternate, a, b, c), valid) == (
                machine,
                Step::Ask(Request::Apply(FixtureAction::SetAlternate { enabled: a % 2 == 1 })),
            )
            &&& machine.begun(instruction(Opcode::WriteMultiIndex, a, b, c), valid) == (
                machine,
                Step::Ask(
                    Request::WriteMultiIndex {
                        database,
                        packs: PackSet {
                            a: true,
                            b: b as int % 4 >= 2,
                            c: b as int % 8 >= 4,
                        },
                    },
                ),
            )
        }),
{
    assert((b as int / 2 % 2 == 1) == (b as int % 4 >= 2));
    assert((b as int / 4 % 2 == 1) == (b as int % 8 >= 4));
}

/// What is done without a result is applied; how refreshes were configured and how far the clock was set are told.
pub proof fn law_concluding_what_is_done(
    machine: MachineView,
    opcode: Opcode,
    a: usize,
    b: usize,
    c: usize,
    valid: bool,
)
    requires
        opcode == Opcode::Open || opcode == Opcode::Clone || opcode == Opcode::Drop || opcode
            == Opcode::MarkStale || opcode == Opcode::Stable || opcode == Opcode::RemoveLoose || opcode
            == Opcode::Publish || opcode == Opcode::Remove || opcode == Opcode::Corrupt || opcode
            == Opcode::RemoveMultiIndex || opcode == Opcode::Alternate,
    ensures
        machine.concluded(instruction(opcode, a, b, c), Reply::Done, valid) == (
            machine,
            kept(Outcome::Applied),
        ),
        machine.concluded(instruction(Opcode::Never, a, b, c), Reply::Done, valid) == (
            machine,
            kept(Outcome::RefreshConfigured(RefreshPolicy::Never)),
        ),
        machine.concluded(instruction(Opcode::SetRefresh, a, b, c), Reply::Done, valid) == (
            machine,
            kept(
                Outcome::RefreshConfigured(
                    if b % 3 == 0 {
                        RefreshPolicy::Strict
                    } else if b % 3 == 1 {
                        RefreshPolicy::AfterDuration(c as u64)
                    } else {
                        RefreshPolicy::Never
                    },
                ),
            ),
        ),
        machine.concluded(instruction(Opcode::AdvanceClock, a, b, c), Reply::Done, valid) == (
            machine,
            kept(Outcome::ClockAdvanced((a + 16 * b + 256 * c) as u64)),
        ),
{
}

/// The machine with an object noted as found last by a handle, if there is such a handle.
pub open spec fn notes_found(machine: MachineView, a: usize, b: usize) -> MachineView {
    match machine.handles[a as int % 4] {
        Some(handle) => replaced(
            machine,
            a as int % 4,
            Some(
                HandleView {
                    observed: Some((b as int % machine.packed_ids.len() as int) as usize),
                    ..handle
                },
            ),
        ),
        None => machine,
    }
}

/// What came of looking for objects: one in the packs that is found is remembered, and nothing else is.
pub proof fn law_concluding_lookups(
    machine: MachineView,
    a: usize,
    b: usize,
    c: usize,
    valid: bool,
    found: Found,
    header: HeaderFound,
)
    ensures
        ({
            let id = machine.packed_ids[b as int % machine.packed_ids.len() as int];
            let wanted = kept(Outcome::Query(Query::Found));
            let find = find_outcome(found, id);
            let compared = header_outcome(header, found, !valid);
            &&& machine.concluded(instruction(Opcode::Find, a, b, c), Reply::Found(found), valid) == (
                if find == wanted {
                    notes_found(machine, a, b)
                } else {
                    machine
                },
                find,
            )
            &&& machine.concluded(
                instruction(Opcode::Header, a, b, c),
                Reply::Header { header, object: found },
                valid,
            ) == (
                if compared == wanted {
                    notes_found(machine, a, b)
                } else {
                    machine
                },
                compared,
            )
            &&& machine.concluded(instruction(Opcode::Exists, a, b, c), Reply::Exists(true), valid) == (
                notes_found(machine, a, b),
                wanted,
            )
            &&& machine.concluded(instruction(Opcode::Exists, a, b, c), Reply::Exists(false), valid)
                == (machine, kept(Outcome::Query(Query::Missing)))
            &&& machine.concluded(instruction(Opcode::Missing, a, b, c), Reply::Found(found), valid)
                == (machine, find_outcome(found, machine.missing_id))
        }),
{
}

/// A location that is found and readable is kept once; one that can't be read breaks a promise.
pub proof fn law_concluding_locations(
    machine: MachineView,
    a: usize,
    b: usize,
    c: usize,
    valid: bool,
    location: Location,
    handle: HandleView,
    readable: bool,
)
    requires
        machine.wf(),
        machine.handles[a as int % 4] == Some(handle),
    ensures
        ({
            let locate = instruction(Opcode::Locate, a, b, c);
            let found = kept(Outcome::Query(Query::Found));
            let known = machine.concluded(
                locate,
                Reply::Located { location: Some(location), readable: true },
                valid,
            );
            &&& machine.concluded(locate, Reply::Located { location: None, readable }, valid) == (
                machine,
                kept(Outcome::Query(Query::Missing)),
            )
            &&& machine.concluded(
                locate,
                Reply::Located { location: Some(location), readable: false },
                valid,
            ) == (machine, broken(Violation::UnreadableLocation))
            &&& handle.stable_locations.contains(location) ==> known == (machine, found)
            &&& !handle.stable_locations.contains(location) ==> known == (
                replaced(
                    machine,
                    a as int % 4,
                    Some(
                        HandleView {
                            stable_locations: handle.stable_locations.push(location),
                            ..handle
                        },
                    ),
                ),
                found,
            )
        }),
{
}

/// What came of looking for prefixes.
pub proof fn law_concluding_prefixes(
    machine: MachineView,
    a: usize,
    b: usize,
    c: usize,
    valid: bool,
    reply: PrefixReply,
    find: FindError,
    lookup: crate::machine::PrefixError,
)
    ensures
        ({
            let prefix = instruction(Opcode::Prefix, a, b, c);
            let of_object = PrefixView {
                id: machine.packed_ids[b as int % machine.packed_ids.len() as int],
                hex_len: 4 + c as int % 37,
            };
            let of_missing = PrefixView { id: machine.missing_id, hex_len: 40 };
            let told = machine.concluded(prefix, Reply::Prefix(reply), valid);
            &&& c % 5 == 0 ==> {
                &&& machine.concluded(prefix, Reply::Disambiguated(Ok(true)), valid) == (
                    machine,
                    kept(Outcome::Query(Query::Found)),
                )
                &&& machine.concluded(prefix, Reply::Disambiguated(Ok(false)), valid) == (
                    machine,
                    kept(Outcome::Query(Query::Missing)),
                )
                &&& machine.concluded(
                    prefix,
                    Reply::Disambiguated(Err(DisambiguateError::Contains(find))),
                    valid,
                ) == (machine, kept(Outcome::Query(Query::Error(find_error_kind(find)))))
                &&& machine.concluded(
                    prefix,
                    Reply::Disambiguated(Err(DisambiguateError::Lookup(lookup))),
                    valid,
                ) == (machine, kept(Outcome::Query(Query::Error(prefix_error_kind(lookup)))))
            }
            &&& c % 5 == 1 ==> told == (machine, prefix_outcome(of_object, reply, false))
            &&& c % 5 == 2 ==> told == (machine, prefix_outcome(of_object, reply, true))
            &&& c % 5 == 3 ==> told == (machine, prefix_outcome(machine.ambiguous_prefix, reply, true))
            &&& c % 5 == 4 ==> told == (machine, prefix_outcome(of_missing, reply, true))
        }),
{
}

/// A loose object that is written is the one at its place from then on, and is among those that were ever written, once.
/// A failure is told if it is a known one.
pub proof fn law_concluding_writes(
    machine: MachineView,
    a: usize,
    b: usize,
    c: usize,
    valid: bool,
    id: ObjectId,
)
    ensures
        ({
            let write = instruction(Opcode::WriteLoose, a, b, c);
            let (after, outcome) = machine.concluded(write, Reply::Written(Ok(id)), valid);
            &&& outcome == kept(Outcome::Applied)
            &&& after.loose_ids == machine.loose_ids.update(b as int % 4, Some(id@))
            &&& machine.written_loose_ids.contains(id@) ==> after.written_loose_ids
                == machine.written_loose_ids
            &&& !machine.written_loose_ids.contains(id@) ==> after.written_loose_ids
                == machine.written_loose_ids.push(id@)
            &&& after.handles == machine.handles && after.now == machine.now
            &&& after.next_store_id == machine.next_store_id && after.packed_ids == machine.packed_ids
            &&& after.missing_id == machine.missing_id
            &&& after.ambiguous_prefix == machine.ambiguous_prefix
            &&& machine.concluded(write, Reply::Written(Err(WriteFailure::LoadIndex)), valid) == (
                machine,
                kept(Outcome::WriteError(WriteError::Refresh)),
            )
            &&& machine.concluded(write, Reply::Written(Err(WriteFailure::LooseWrite)), valid) == (
                machine,
                kept(Outcome::WriteError(WriteError::LooseObject)),
            )
            &&& machine.concluded(write, Reply::Written(Err(WriteFailure::Io)), valid) == (
                machine,
                kept(Outcome::WriteError(WriteError::Io)),
            )
            &&& machine.concluded(write, Reply::Written(Err(WriteFailure::Other)), valid) == (
                machine,
                broken(Violation::UnknownWriteError),
            )
        }),
{
}

/// What came of asking for a loose object: it must be the one that was written, its header must agree whatever goes on,
/// and of a prefix only what was returned counts.
pub proof fn law_concluding_loose_lookups(
    machine: MachineView,
    a: usize,
    b: usize,
    c: usize,
    valid: bool,
    id: Seq<u8>,
    found: Found,
    header: HeaderFound,
    reply: PrefixReply,
)
    requires
        machine.loose_ids[b as int % 4] == Some(id),
    ensures
        ({
            let query = instruction(Opcode::QueryLoose, a, b, c);
            &&& c % 3 == 0 ==> machine.concluded(query, Reply::Found(found), valid) == (
                machine,
                find_outcome(found, id),
            )
            &&& c % 3 == 1 ==> machine.concluded(query, Reply::Header { header, object: found }, valid)
                == (machine, header_outcome(header, found, false))
            &&& c % 3 == 2 ==> machine.concluded(query, Reply::Prefix(reply), valid) == (
                machine,
                kept(plain_prefix_outcome(reply.result)),
            )
        }),
{
}

/// What came of counting, of writing an index over several packs, which must be written exactly if it can be, and of going
/// through objects.
pub proof fn law_concluding_counts_and_indices(
    machine: MachineView,
    a: usize,
    b: usize,
    c: usize,
    valid: bool,
    count: u64,
    ids: Vec<Option<ObjectId>>,
    list: Vec<Comparison>,
)
    ensures
        ({
            let counting = instruction(Opcode::CountStore, a, b, c);
            let multi = instruction(Opcode::WriteMultiIndex, a, b, c);
            let iterating = instruction(Opcode::IterateStore, a, b, c);
            let refresh = kept(Outcome::Query(Query::Error(QueryError::Refresh)));
            &&& machine.concluded(counting, Reply::Counted(Some(count)), valid) == (
                machine,
                kept(Outcome::Counted(count)),
            )
            &&& machine.concluded(counting, Reply::Counted(None), valid) == (machine, refresh)
            &&& machine.concluded(iterating, Reply::Iterated(None), valid) == (machine, refresh)
            &&& machine.concluded(iterating, Reply::Iterated(Some(ids)), valid) == (
                machine,
                iterate_outcome(ids@, machine.packed_ids, machine.written_loose_ids, 0),
            )
            &&& machine.concluded(
                instruction(Opcode::Checkpoint, a, b, c),
                Reply::Compared(list),
                valid,
            ) == (machine, compare_outcome(list@))
            &&& machine.concluded(
                multi,
                Reply::MultiIndex { can_write: true, written: true },
                valid,
            ) == (machine, kept(Outcome::Applied))
            &&& machine.concluded(
                multi,
                Reply::MultiIndex { can_write: false, written: false },
                valid,
            ) == (machine, kept(Outcome::Rejected))
            &&& machine.concluded(
                multi,
                Reply::MultiIndex { can_write: true, written: false },
                valid,
            ) == (machine, broken(Violation::MultiIndexRefused))
            &&& machine.concluded(
                multi,
                Reply::MultiIndex { can_write: false, written: true },
                valid,
            ) == (machine, broken(Violation::MultiIndexWritten))
        }),
{
}

/// Going through objects counts those that are known, up to sixteen. The first that failed or is not known decides.
pub proof fn law_going_through_objects(
    ids: Seq<Option<ObjectId>>,
    packed: Seq<Seq<u8>>,
    written: Seq<Seq<u8>>,
    count: int,
)
    requires
        0 <= count,
    ensures
        ({
            let outcome = iterate_outcome(ids, packed, written, count);
            &&& count >= ids.len() || count >= 16 ==> outcome == kept(Outcome::Iterated(count as usize))
            &&& count < ids.len() && count < 16 ==> {
                &&& ids[count] is None ==> outcome == kept(
                    Outcome::Query(Query::Error(QueryError::LooseTraversal)),
                )
                &&& ids[count] matches Some(id) ==> (packed.contains(id@) || written.contains(id@)
                    ==> outcome == iterate_outcome(ids, packed, written, count + 1)) && (
                !packed.contains(id@) && !written.contains(id@) ==> outcome == broken(
                    Violation::UnknownObject,
                ))
            }
        }),
{
}

/// A comparison counts lookups that agree. The first failed one, or the first that disagrees, decides.
pub proof fn law_comparing_lookups(
    lookups: Seq<(Result<bool, FindError>, bool)>,
    agreed: int,
    so_far: int,
    err: FindError,
    expected: bool,
)
    ensures
        lookups_progress(Seq::empty(), agreed) == Progress::Going(agreed),
        lookups_progress(lookups, agreed) is Stopped ==> lookups_progress(
            lookups.push((Ok(expected), expected)),
            agreed,
        ) == lookups_progress(lookups, agreed) && lookups_progress(
            lookups.push((Err(err), expected)),
            agreed,
        ) == lookups_progress(lookups, agreed),
        lookups_progress(lookups, agreed) == Progress::Going(so_far) ==> {
            &&& lookups_progress(lookups.push((Ok(expected), expected)), agreed) == Progress::Going(
                so_far + 1,
            )
            &&& lookups_progress(lookups.push((Ok(!expected), expected)), agreed) == Progress::Stopped(
                broken(Violation::Disagreement),
            )
            &&& lookups_progress(lookups.push((Err(err), expected)), agreed) == Progress::Stopped(
                kept(Outcome::Query(Query::Error(find_error_kind(err)))),
            )
        },
{
    assert(lookups.push((Ok(expected), expected)).drop_last() =~= lookups);
    assert(lookups.push((Ok(!expected), expected)).drop_last() =~= lookups);
    assert(lookups.push((Err(err), expected)).drop_last() =~= lookups);
}

/// Handles are compared one after the other: first the missing object must not fail to be looked for, then each lookup
/// counts.
pub proof fn law_comparing_handles(list: Seq<Comparison>, next: Comparison, so_far: int)
    ensures
        compare_progress(Seq::empty()) == Progress::Going(0),
        compare_progress(list) is Stopped ==> compare_progress(list.push(next)) == compare_progress(list),
        compare_progress(list) == Progress::Going(so_far) ==> {
            &&& next.missing matches Some(err) ==> compare_progress(list.push(next))
                == Progress::Stopped(kept(Outcome::Query(Query::Error(find_error_kind(err)))))
            &&& next.missing is None ==> compare_progress(list.push(next)) == lookups_progress(
                next.lookups@,
                so_far,
            )
        },
        compare_progress(list) == Progress::Going(so_far) ==> compare_outcome(list) == kept(
            Outcome::Compared(so_far as usize),
        ),
        compare_progress(list) matches Progress::Stopped(outcome) ==> compare_outcome(list) == outcome,
{
    assert(list.push(next).drop_last() =~= list);
}

/// Which handles are compared, which must still find what they have found, and how many a store has.
pub proof fn law_handles_of_a_store(
    handles: Seq<Option<HandleView>>,
    handle: HandleView,
    chosen: HandleView,
    store_id: u32,
    selected: int,
    index: int,
)
    requires
        0 <= selected < handles.len(),
        0 <= index < handles.len(),
        handles[selected] == Some(chosen),
        handles[index] == Some(handle),
    ensures
        is_compared(Some(handle), store_id) <==> handle.store_id == store_id && !handle.stable
            && handle.refresh == RefreshPolicy::Strict,
        !is_compared(None, store_id),
        !is_watched(handles.update(index, None), selected, index),
        is_watched(handles, selected, index) <==> handle.store_id == chosen.store_id && (index
            == selected || (!handle.stable && handle.refresh != RefreshPolicy::Never)),
        count_handles(Seq::empty(), store_id) == 0,
        count_handles(handles.push(None), store_id) == count_handles(handles, store_id),
        handle.store_id == store_id ==> count_handles(handles.push(Some(handle)), store_id)
            == count_handles(handles, store_id) + 1,
        handle.store_id != store_id ==> count_handles(handles.push(Some(handle)), store_id)
            == count_handles(handles, store_id),
{
    assert(handles.push(None).drop_last() =~= handles);
    assert(handles.push(Some(handle)).drop_last() =~= handles);
}

/// A place is among those that are compared exactly if its handle is.
pub proof fn law_compared_places_hold_compared_handles(
    handles: Seq<Option<HandleView>>,
    store_id: u32,
    count: int,
    place: int,
)
    requires
        0 <= count <= handles.len(),
    ensures
        compared_places(handles, store_id, count).contains(place) <==> 0 <= place < count && (
        handles[place] matches Some(handle) && handle.store_id == store_id && !handle.stable
            && handle.refresh == RefreshPolicy::Strict),
    decreases count,
{
    if count > 0 {
        law_compared_places_hold_compared_handles(handles, store_id, count - 1, place);
        let earlier = compared_places(handles, store_id, count - 1);
        let whole = compared_places(handles, store_id, count);
        if is_compared(handles[count - 1], store_id) {
            assert(whole == earlier.push(count - 1));
            assert(whole[whole.len() - 1] == count - 1);
            if earlier.contains(place) {
                let k = choose|k: int| 0 <= k < earlier.len() && earlier[k] == place;
                assert(whole[k] == place);
            }
            if whole.contains(place) && place != count - 1 {
                let k = choose|k: int| 0 <= k < whole.len() && whole[k] == place;
                assert(earlier[k] == place);
            }
        }
    }
}

/// After a failed refresh a handle must still find an object exactly if it has found it, and if it is the selected handle or
/// one of the same store that neither keeps locations nor never refreshes.
pub proof fn law_watched_objects_were_found(
    handles: Seq<Option<HandleView>>,
    selected: int,
    count: int,
    place: int,
    object: usize,
    chosen: HandleView,
)
    requires
        0 <= count <= handles.len(),
        0 <= selected < handles.len(),
        handles[selected] == Some(chosen),
    ensures
        watched_objects(handles, selected, count).contains((place, object)) <==> 0 <= place < count && (
        handles[place] matches Some(handle) && handle.observed == Some(object) && handle.store_id
            == chosen.store_id && (place == selected || (!handle.stable && handle.refresh
            != RefreshPolicy::Never))),
    decreases count,
{
    if count > 0 {
        law_watched_objects_were_found(handles, selected, count - 1, place, object, chosen);
        let earlier = watched_objects(handles, selected, count - 1);
        let whole = watched_objects(handles, selected, count);
        if whole != earlier {
            assert(whole == earlier.push(whole.last()));
            assert(whole[whole.len() - 1] == whole.last());
            if earlier.contains((place, object)) {
                let k = choose|k: int| 0 <= k < earlier.len() && earlier[k] == (place, object);
                assert(whole[k] == (place, object));
            }
            if whole.contains((place, object)) && (place, object) != whole.last() {
                let k = choose|k: int| 0 <= k < whole.len() && whole[k] == (place, object);
                assert(earlier[k] == (place, object));
            }
        }
    }
}

/// A refresh has failed exactly if that is what a lookup or a write says.
pub proof fn law_failed_refreshes(outcome: Outcome, err: QueryError, write: WriteError)
    ensures
        is_failed_refresh(Outcome::Query(Query::Error(err))) <==> err == QueryError::Refresh,
        is_failed_refresh(Outcome::WriteError(write)) <==> write == WriteError::Refresh,
        !(outcome is Query) && !(outcome is WriteError) ==> !is_failed_refresh(outcome),
        outcome matches Outcome::Query(query) && !(query is Error) ==> !is_failed_refresh(outcome),
{
}

} // verus!
