//! What the machine keeps track of, and how each instruction changes it.

use vstd::prelude::*;

use crate::machine::asks_handle;
use crate::machine::component;
use crate::machine::component_numbered;
use crate::machine::database;
use crate::machine::disambiguate_error;
use crate::machine::find_error_kind;
use crate::machine::find_outcome;
use crate::machine::header_outcome;
use crate::machine::pack;
use crate::machine::pack_numbered;
use crate::machine::pack_set;
use crate::machine::prefix_error_kind;
use crate::machine::prefix_outcome;
use crate::machine::query_error;
use crate::machine::validate_find;
use crate::machine::validate_header;
use crate::machine::validate_prefix_lookup;
use crate::machine::write_error;
use crate::machine::Database;
use crate::machine::DisambiguateError;
use crate::machine::FindError;
use crate::machine::FixtureAction;
use crate::machine::Found;
use crate::machine::HeaderFound;
use crate::machine::HexPrefix;
use crate::machine::Instruction;
use crate::machine::Opcode;
use crate::machine::Outcome;
use crate::machine::PackSet;
use crate::machine::PrefixReply;
use crate::machine::PrefixResult;
use crate::machine::PrefixView;
use crate::machine::Query;
use crate::machine::QueryError;
use crate::machine::RefreshPolicy;
use crate::machine::Skip;
use crate::machine::Violation;
use crate::machine::WriteError;
use crate::machine::WriteFailure;
use crate::machine::HASH_LEN;
use crate::machine::HEX_LEN;
use crate::machine::NUM_HANDLES;
use crate::machine::NUM_LOOSE_OBJECTS;
use crate::oid::view_id;
use crate::oid::view_ids;
use crate::oid::ObjectId;
use crate::store::RefreshMode;
use crate::store::Slots;

verus! {

/// Where an object is in a pack.
#[derive(Clone, Copy, Debug, Eq, PartialEq, Structural)]
pub struct Location {
    pub pack_id: u32,
    pub pack_offset: u64,
    pub entry_size: usize,
}

/// What is known of a handle.
#[derive(Clone, Debug)]
pub struct Handle {
    /// Which store it belongs to.
    pub store_id: u32,
    /// Whether the locations that it hands out stay readable.
    pub stable: bool,
    /// How it refreshes its indices.
    pub refresh: RefreshPolicy,
    /// The object that it was last seen to find, by its number.
    pub observed: Option<usize>,
    /// The locations that it has handed out.
    pub stable_locations: Vec<Location>,
}

/// What is known of a handle.
#[verifier::ext_equal]
pub struct HandleView {
    pub store_id: u32,
    pub stable: bool,
    pub refresh: RefreshPolicy,
    pub observed: Option<usize>,
    pub stable_locations: Seq<Location>,
}

impl View for Handle {
    type V = HandleView;

    open spec fn view(&self) -> HandleView {
        HandleView {
            store_id: self.store_id,
            stable: self.stable,
            refresh: self.refresh,
            observed: self.observed,
            stable_locations: self.stable_locations@,
        }
    }
}

/// What is known of a place for a handle.
pub open spec fn view_handle(handle: Option<Handle>) -> Option<HandleView> {
    match handle {
        Some(handle) => Some(handle@),
        None => None,
    }
}

/// What is known of all handles.
pub open spec fn view_handles(handles: Seq<Option<Handle>>) -> Seq<Option<HandleView>> {
    handles.map_values(|handle: Option<Handle>| view_handle(handle))
}

/// What is known of all loose objects.
pub open spec fn view_loose(ids: Seq<Option<ObjectId>>) -> Seq<Option<Seq<u8>>> {
    ids.map_values(|id: Option<ObjectId>| view_id(id))
}

/// What the machine keeps track of.
#[derive(Clone, Debug)]
pub struct Machine {
    /// The handles.
    pub handles: Vec<Option<Handle>>,
    /// The loose objects that were written last.
    pub loose_ids: Vec<Option<ObjectId>>,
    /// All loose objects that were ever written.
    pub written_loose_ids: Vec<ObjectId>,
    /// The time on the clock of the stores, in milliseconds.
    pub now: u64,
    /// The number of the next store.
    pub next_store_id: u32,
    /// The objects in the packs.
    pub packed_ids: Vec<ObjectId>,
    /// An object that isn't there.
    pub missing_id: ObjectId,
    /// How more than one of the objects begin.
    pub ambiguous_prefix: HexPrefix,
}

/// What the machine keeps track of.
#[verifier::ext_equal]
pub struct MachineView {
    pub handles: Seq<Option<HandleView>>,
    pub loose_ids: Seq<Option<Seq<u8>>>,
    pub written_loose_ids: Seq<Seq<u8>>,
    pub now: int,
    pub next_store_id: u32,
    pub packed_ids: Seq<Seq<u8>>,
    pub missing_id: Seq<u8>,
    pub ambiguous_prefix: PrefixView,
}

impl View for Machine {
    type V = MachineView;

    open spec fn view(&self) -> MachineView {
        MachineView {
            handles: view_handles(self.handles@),
            loose_ids: view_loose(self.loose_ids@),
            written_loose_ids: view_ids(self.written_loose_ids@),
            now: self.now as int,
            next_store_id: self.next_store_id,
            packed_ids: view_ids(self.packed_ids@),
            missing_id: self.missing_id@,
            ambiguous_prefix: self.ambiguous_prefix@,
        }
    }
}

/// An object that is asked for.
#[derive(Clone, Copy, Debug, Eq, PartialEq, Structural)]
pub enum Object {
    /// The one in the packs with this number.
    Packed(usize),
    /// The one that isn't there.
    Missing,
    /// The loose one at this place.
    Loose(usize),
}

/// A prefix that is asked for.
#[derive(Clone, Copy, Debug, Eq, PartialEq, Structural)]
pub enum Prefix {
    /// That many digits of the name of an object.
    Of { object: Object, hex_len: usize },
    /// One that is known to be ambiguous.
    Ambiguous,
    /// The whole name of the object that isn't there.
    Missing,
}

/// What the store or its files are asked.
#[derive(Clone, Copy, Debug, Eq, PartialEq, Structural)]
pub enum Request {
    /// Open a store.
    Open { slot: usize, slots: Slots, use_multi_pack_index: bool },
    /// Make a handle for the same store.
    Clone { source: usize, destination: usize },
    /// Give a handle up.
    Drop { slot: usize },
    /// Change how a handle refreshes its indices.
    SetRefresh { slot: usize, mode: RefreshMode },
    /// Set the clock forward to this time.
    SetClock { now: u64 },
    /// Mark what a store knows of the disk as out of date.
    MarkStale { slot: usize },
    /// Keep packs loaded so that locations stay readable.
    PreventUnload { slot: usize },
    /// Look for an object.
    Find { slot: usize, object: Object },
    /// Look for the location of an object, and read it there.
    Locate { slot: usize, object: Object },
    /// Ask whether there is an object.
    Exists { slot: usize, object: Object },
    /// Look for a header and its object.
    Header { slot: usize, object: Object },
    /// Go through the objects of a store.
    Iterate { slot: usize, by_offset: bool },
    /// Make a prefix unique.
    Disambiguate { slot: usize, object: Object, hex_len: usize },
    /// Look for a prefix.
    LookupPrefix { slot: usize, prefix: Prefix, collect: bool },
    /// Count the objects in packs.
    Count { slot: usize },
    /// Write a loose object.
    WriteLoose { slot: usize, number: u8, content: u8 },
    /// Remove the loose object at a place.
    RemoveLoose { loose: usize },
    /// Change files.
    Apply(FixtureAction),
    /// Write an index over several packs.
    WriteMultiIndex { database: Database, packs: PackSet },
    /// Compare the handles of a store with a store that was just opened.
    Compare { store_id: u32 },
}

/// What comes of an instruction.
#[derive(Clone, Copy, Debug, Eq, PartialEq, Structural)]
pub enum Step {
    /// Its outcome.
    Done(Outcome),
    /// Something that has to be asked first.
    Ask(Request),
}

/// What a store replies.
pub enum Reply {
    /// It is done.
    Done,
    /// What came of looking for an object.
    Found(Found),
    /// Whether there is an object.
    Exists(bool),
    /// What came of looking for a header and its object.
    Header { header: HeaderFound, object: Found },
    /// Where an object is, and whether it can be read there.
    Located { location: Option<Location>, readable: bool },
    /// What came of going through the objects: which ones, if it was possible at all, with nothing for
    /// one that failed.
    Iterated(Option<Vec<Option<ObjectId>>>),
    /// Whether a prefix is known.
    Disambiguated(Result<bool, DisambiguateError>),
    /// What came of looking for a prefix.
    Prefix(PrefixReply),
    /// How many objects there are in packs, if that could be found out.
    Counted(Option<u64>),
    /// The name of the loose object that was written.
    Written(Result<ObjectId, WriteFailure>),
    /// Whether an index over several packs could be written, and whether it was.
    MultiIndex { can_write: bool, written: bool },
    /// What came of comparing handles, one after the other.
    Compared(Vec<Comparison>),
}

/// What came of comparing one handle with a store that was just opened.
pub struct Comparison {
    /// How looking for the object that isn't there failed, if it did.
    pub missing: Option<FindError>,
    /// Whether the handle finds each of the objects, and whether the other store does.
    pub lookups: Vec<(Result<bool, FindError>, bool)>,
}

/// The place that an operand selects.
pub open spec fn place(index: usize) -> int {
    index as int % 4
}

/// The number of digits of a prefix that an operand selects.
pub open spec fn prefix_digits(input: usize) -> int {
    4 + input as int % 37
}

impl MachineView {
    /// There are as many places as there should be, and there are objects, whose names are whole.
    pub open spec fn wf(self) -> bool {
        &&& self.handles.len() == NUM_HANDLES
        &&& self.loose_ids.len() == NUM_LOOSE_OBJECTS
        &&& 0 < self.packed_ids.len() <= usize::MAX
        &&& forall|i: int|
            0 <= i < self.packed_ids.len() ==> (#[trigger] self.packed_ids[i]).len() == HASH_LEN
        &&& self.missing_id.len() == HASH_LEN
        &&& self.ambiguous_prefix.wf()
    }

    /// The handle that an operand selects.
    pub open spec fn handle(self, index: usize) -> Option<HandleView> {
        self.handles[place(index)]
    }

    /// The machine with another handle at the place that an operand selects.
    pub open spec fn with_handle(self, index: usize, handle: Option<HandleView>) -> MachineView {
        MachineView { handles: self.handles.update(place(index), handle), ..self }
    }

    /// The object in the packs that an operand selects.
    pub open spec fn object(self, index: usize) -> Object {
        Object::Packed((index as int % self.packed_ids.len() as int) as usize)
    }

    /// The name of the object in the packs that an operand selects.
    pub open spec fn packed_id(self, index: usize) -> Seq<u8> {
        self.packed_ids[index as int % self.packed_ids.len() as int]
    }

    /// The prefix that operands select.
    pub open spec fn selected_prefix(self, object: usize, input: usize) -> PrefixView {
        if input as int % 5 == 3 {
            self.ambiguous_prefix
        } else if input as int % 5 == 4 {
            PrefixView { id: self.missing_id, hex_len: HEX_LEN as int }
        } else {
            PrefixView { id: self.packed_id(object), hex_len: prefix_digits(input) }
        }
    }

    /// How many handles there are for a store.
    pub open spec fn handles_of(self, store_id: u32) -> int {
        count_handles(self.handles, store_id)
    }
}

/// How many of `handles` belong to a store.
pub open spec fn count_handles(handles: Seq<Option<HandleView>>, store_id: u32) -> int
    decreases handles.len(),
{
    if handles.len() == 0 {
        0
    } else {
        count_handles(handles.drop_last(), store_id) + (match handles.last() {
            Some(handle) => if handle.store_id == store_id {
                1int
            } else {
                0
            },
            None => 0,
        })
    }
}

/// The slots that a store is opened with, as the operands select them.
pub open spec fn opened_slots(slots: usize, flags: usize) -> Slots {
    if flags as int / 2 % 2 == 0 {
        Slots::Limit(
            (if slots < 1 {
                1int
            } else if slots > 16 {
                16
            } else {
                slots as int
            }) as u16,
        )
    } else {
        Slots::Growable {
            initial: (if slots > 16 {
                16int
            } else {
                slots as int
            }) as u16,
        }
    }
}

/// The policy that operands select.
pub open spec fn selected_policy(selector: usize, window: usize) -> RefreshPolicy {
    if selector as int % 3 == 0 {
        RefreshPolicy::Strict
    } else if selector as int % 3 == 1 {
        RefreshPolicy::AfterDuration(window as u64)
    } else {
        RefreshPolicy::Never
    }
}

/// What a policy asks of a handle.
pub open spec fn mode_of(policy: RefreshPolicy) -> RefreshMode {
    match policy {
        RefreshPolicy::Strict => RefreshMode::AfterAllIndicesLoaded,
        RefreshPolicy::AfterDuration(window) => RefreshMode::AfterDuration(
            (window * 1_000_000) as u128,
        ),
        RefreshPolicy::Never => RefreshMode::Never,
    }
}

/// The time that operands select, in milliseconds.
pub open spec fn elapsed(a: usize, b: usize, c: usize) -> int {
    a + b * 16 + c * 256
}

fn mode(policy: RefreshPolicy) -> (mode: RefreshMode)
    ensures
        mode == mode_of(policy),
{
    match policy {
        RefreshPolicy::Strict => RefreshMode::AfterAllIndicesLoaded,
        RefreshPolicy::AfterDuration(window) => RefreshMode::AfterDuration(
            window as u128 * 1_000_000,
        ),
        RefreshPolicy::Never => RefreshMode::Never,
    }
}

fn copy_locations(list: &Vec<Location>) -> (copy: Vec<Location>)
    ensures
        copy@ == list@,
{
    let mut copy: Vec<Location> = Vec::new();
    let mut i: usize = 0;
    while i < list.len()
        invariant
            i <= list.len(),
            copy@ == list@.take(i as int),
        decreases list.len() - i,
    {
        copy.push(list[i]);
        assert(list@.take(i + 1) =~= list@.take(i as int).push(list@[i as int]));
        i += 1;
    }
    assert(list@.take(i as int) =~= list@);
    copy
}

impl Machine {
    /// A machine without handles, for a fixture with the given objects in packs, an object that isn't
    /// there, and a prefix that is ambiguous.
    pub fn new(
        packed_ids: Vec<ObjectId>,
        missing_id: ObjectId,
        ambiguous_prefix: HexPrefix,
    ) -> (machine: Machine)
        requires
            packed_ids@.len() > 0,
            forall|i: int| 0 <= i < packed_ids@.len() ==> (#[trigger] packed_ids@[i])@.len() == HASH_LEN,
            missing_id@.len() == HASH_LEN,
            ambiguous_prefix@.wf(),
        ensures
            machine@.wf(),
            machine@.packed_ids == view_ids(packed_ids@),
            machine@.missing_id == missing_id@,
            machine@.ambiguous_prefix == ambiguous_prefix@,
            machine@.now == 0,
            machine@.next_store_id == 0,
            machine@.written_loose_ids.len() == 0,
            forall|i: int| 0 <= i < NUM_HANDLES ==> (#[trigger] machine@.handles[i]) is None,
            forall|i: int| 0 <= i < NUM_LOOSE_OBJECTS ==> (#[trigger] machine@.loose_ids[i]) is None,
    {
        let mut handles: Vec<Option<Handle>> = Vec::new();
        handles.push(None);
        handles.push(None);
        handles.push(None);
        handles.push(None);
        let mut loose_ids: Vec<Option<ObjectId>> = Vec::new();
        loose_ids.push(None);
        loose_ids.push(None);
        loose_ids.push(None);
        loose_ids.push(None);
        assert(packed_ids.len() <= usize::MAX);
        Machine {
            handles,
            loose_ids,
            written_loose_ids: Vec::new(),
            now: 0,
            next_store_id: 0,
            packed_ids,
            missing_id,
            ambiguous_prefix,
        }
    }

    fn put(&mut self, index: usize, handle: Option<Handle>)
        requires
            old(self)@.wf(),
        ensures
            final(self)@ == old(self)@.with_handle(index, view_handle(handle)),
            final(self)@.wf(),
    {
        let ghost before = self@;
        self.handles[index % NUM_HANDLES] = handle;
        assert(self@.handles =~= before.handles.update(place(index), view_handle(handle)));
    }

    fn has_handle(&self, index: usize) -> (has: bool)
        requires
            self@.wf(),
        ensures
            has == (self@.handle(index) is Some),
    {
        assert(self@.handles[place(index)] == view_handle(self.handles@[place(index)]));
        self.handles[index % NUM_HANDLES].is_some()
    }

    /// Opens a store and puts a handle for it in its place.
    pub fn open(&mut self, handle_index: usize, slots: usize, flags: usize) -> (step: Step)
        requires
            old(self)@.wf(),
        ensures
            final(self)@.wf(),
            final(self)@ == (MachineView {
                next_store_id: old(self)@.next_store_id.wrapping_add(1),
                ..old(self)@.with_handle(
                    handle_index,
                    Some(
                        HandleView {
                            store_id: old(self)@.next_store_id,
                            stable: false,
                            refresh: RefreshPolicy::Strict,
                            observed: None,
                            stable_locations: Seq::empty(),
                        },
                    ),
                )
            }),
            step == Step::Ask(
                Request::Open {
                    slot: place(handle_index) as usize,
                    slots: opened_slots(slots, flags),
                    use_multi_pack_index: flags as int % 2 == 0,
                },
            ),
    {
        let store_id: u32 = self.next_store_id;
        let handle = Handle {
            store_id,
            stable: false,
            refresh: RefreshPolicy::Strict,
            observed: None,
            stable_locations: Vec::new(),
        };
        self.put(handle_index, Some(handle));
        self.next_store_id = store_id.wrapping_add(1);
        let slots = if flags / 2 % 2 == 0 {
            Slots::Limit(
                if slots < 1 {
                    1
                } else if slots > 16 {
                    16
                } else {
                    slots as u16
                },
            )
        } else {
            Slots::Growable {
                initial: if slots > 16 {
                    16
                } else {
                    slots as u16
                },
            }
        };
        Step::Ask(
            Request::Open {
                slot: handle_index % NUM_HANDLES,
                slots,
                use_multi_pack_index: flags % 2 == 0,
            },
        )
    }

    /// Makes another handle for the store of one, which has not found anything yet.
    pub fn clone_handle(&mut self, destination: usize, source: usize) -> (step: Step)
        requires
            old(self)@.wf(),
        ensures
            final(self)@.wf(),
            match old(self)@.handle(source) {
                None => final(self)@ == old(self)@ && step == Step::Done(
                    Outcome::Skipped(Skip::NoHandle),
                ),
                Some(handle) => final(self)@ == old(self)@.with_handle(
                    destination,
                    Some(HandleView { observed: None, ..handle }),
                ) && step == Step::Ask(
                    Request::Clone {
                        source: place(source) as usize,
                        destination: place(destination) as usize,
                    },
                ),
            },
    {
        assert(self@.handles[place(source)] == view_handle(self.handles@[place(source)]));
        let handle = match &self.handles[source % NUM_HANDLES] {
            None => return Step::Done(Outcome::Skipped(Skip::NoHandle)),
            Some(handle) => Handle {
                store_id: handle.store_id,
                stable: handle.stable,
                refresh: handle.refresh,
                observed: None,
                stable_locations: copy_locations(&handle.stable_locations),
            },
        };
        self.put(destination, Some(handle));
        Step::Ask(
            Request::Clone { source: source % NUM_HANDLES, destination: destination % NUM_HANDLES },
        )
    }

    /// Gives a handle up.
    pub fn drop_handle(&mut self, handle_index: usize) -> (step: Step)
        requires
            old(self)@.wf(),
        ensures
            final(self)@.wf(),
            final(self)@ == old(self)@.with_handle(handle_index, None),
            step == (if old(self)@.handle(handle_index) is Some {
                Step::Ask(Request::Drop { slot: place(handle_index) as usize })
            } else {
                Step::Done(Outcome::Skipped(Skip::NoHandle))
            }),
    {
        let has = self.has_handle(handle_index);
        self.put(handle_index, None);
        if has {
            Step::Ask(Request::Drop { slot: handle_index % NUM_HANDLES })
        } else {
            Step::Done(Outcome::Skipped(Skip::NoHandle))
        }
    }

    fn configure(&mut self, handle_index: usize, policy: RefreshPolicy) -> (step: Step)
        requires
            old(self)@.wf(),
        ensures
            final(self)@.wf(),
            match old(self)@.handle(handle_index) {
                None => final(self)@ == old(self)@ && step == Step::Done(
                    Outcome::Skipped(Skip::NoHandle),
                ),
                Some(handle) => final(self)@ == old(self)@.with_handle(
                    handle_index,
                    Some(HandleView { refresh: policy, ..handle }),
                ) && step == Step::Ask(
                    Request::SetRefresh {
                        slot: place(handle_index) as usize,
                        mode: mode_of(policy),
                    },
                ),
            },
    {
        assert(self@.handles[place(handle_index)] == view_handle(self.handles@[place(handle_index)]));
        let handle = match &self.handles[handle_index % NUM_HANDLES] {
            None => return Step::Done(Outcome::Skipped(Skip::NoHandle)),
            Some(handle) => Handle {
                store_id: handle.store_id,
                stable: handle.stable,
                refresh: policy,
                observed: handle.observed,
                stable_locations: copy_locations(&handle.stable_locations),
            },
        };
        self.put(handle_index, Some(handle));
        Step::Ask(Request::SetRefresh { slot: handle_index % NUM_HANDLES, mode: mode(policy) })
    }

    /// Has a handle never refresh its indices.
    pub fn set_never(&mut self, handle_index: usize) -> (step: Step)
        requires
            old(self)@.wf(),
        ensures
            final(self)@.wf(),
            match old(self)@.handle(handle_index) {
                None => final(self)@ == old(self)@ && step == Step::Done(
                    Outcome::Skipped(Skip::NoHandle),
                ),
                Some(handle) => final(self)@ == old(self)@.with_handle(
                    handle_index,
                    Some(HandleView { refresh: RefreshPolicy::Never, ..handle }),
                ) && step == Step::Ask(
                    Request::SetRefresh {
                        slot: place(handle_index) as usize,
                        mode: RefreshMode::Never,
                    },
                ),
            },
    {
        self.configure(handle_index, RefreshPolicy::Never)
    }

    /// Has a handle refresh its indices as the operands select.
    pub fn set_refresh(&mut self, handle_index: usize, selector: usize, window: usize) -> (step: Step)
        requires
            old(self)@.wf(),
        ensures
            final(self)@.wf(),
            match old(self)@.handle(handle_index) {
                None => final(self)@ == old(self)@ && step == Step::Done(
                    Outcome::Skipped(Skip::NoHandle),
                ),
                Some(handle) => final(self)@ == old(self)@.with_handle(
                    handle_index,
                    Some(HandleView { refresh: selected_policy(selector, window), ..handle }),
                ) && step == Step::Ask(
                    Request::SetRefresh {
                        slot: place(handle_index) as usize,
                        mode: mode_of(selected_policy(selector, window)),
                    },
                ),
            },
    {
        let policy = match selector % 3 {
            0 => RefreshPolicy::Strict,
            1 => RefreshPolicy::AfterDuration(window as u64),
            _ => RefreshPolicy::Never,
        };
        self.configure(handle_index, policy)
    }

    /// Sets the clock of the stores forward.
    pub fn advance_clock(&mut self, a: usize, b: usize, c: usize) -> (step: Step)
        requires
            old(self)@.wf(),
            old(self)@.now + elapsed(a, b, c) <= u64::MAX,
        ensures
            final(self)@.wf(),
            final(self)@ == (MachineView {
                now: old(self)@.now + elapsed(a, b, c),
                ..old(self)@
            }),
            step == Step::Ask(Request::SetClock { now: final(self)@.now as u64 }),
    {
        let elapsed: u64 = a as u64 + b as u64 * 16 + c as u64 * 256;
        self.now = self.now + elapsed;
        Step::Ask(Request::SetClock { now: self.now })
    }

    /// Marks what the store of a handle knows of the disk as out of date.
    pub fn mark_stale(&self, handle_index: usize) -> (step: Step)
        requires
            self@.wf(),
        ensures
            step == (if self@.handle(handle_index) is Some {
                Step::Ask(Request::MarkStale { slot: place(handle_index) as usize })
            } else {
                Step::Done(Outcome::Skipped(Skip::NoHandle))
            }),
    {
        if self.has_handle(handle_index) {
            Step::Ask(Request::MarkStale { slot: handle_index % NUM_HANDLES })
        } else {
            Step::Done(Outcome::Skipped(Skip::NoHandle))
        }
    }

    /// Has the locations that a handle hands out stay readable.
    pub fn set_stable(&mut self, handle_index: usize) -> (step: Step)
        requires
            old(self)@.wf(),
        ensures
            final(self)@.wf(),
            match old(self)@.handle(handle_index) {
                None => final(self)@ == old(self)@ && step == Step::Done(
                    Outcome::Skipped(Skip::NoHandle),
                ),
                Some(handle) => final(self)@ == old(self)@.with_handle(
                    handle_index,
                    Some(HandleView { stable: true, ..handle }),
                ) && step == Step::Ask(
                    Request::PreventUnload { slot: place(handle_index) as usize },
                ),
            },
    {
        assert(self@.handles[place(handle_index)] == view_handle(self.handles@[place(handle_index)]));
        let handle = match &self.handles[handle_index % NUM_HANDLES] {
            None => return Step::Done(Outcome::Skipped(Skip::NoHandle)),
            Some(handle) => Handle {
                store_id: handle.store_id,
                stable: true,
                refresh: handle.refresh,
                observed: handle.observed,
                stable_locations: copy_locations(&handle.stable_locations),
            },
        };
        self.put(handle_index, Some(handle));
        Step::Ask(Request::PreventUnload { slot: handle_index % NUM_HANDLES })
    }
}

/// How far a comparison has come.
pub enum Progress {
    /// This many lookups agree.
    Going(int),
    /// It is decided.
    Stopped(Result<Outcome, Violation>),
}

/// How far a comparison comes with the lookups of one handle.
pub open spec fn lookups_progress(lookups: Seq<(Result<bool, FindError>, bool)>, agreed: int) -> Progress
    decreases lookups.len(),
{
    if lookups.len() == 0 {
        Progress::Going(agreed)
    } else {
        match lookups_progress(lookups.drop_last(), agreed) {
            Progress::Stopped(outcome) => Progress::Stopped(outcome),
            Progress::Going(agreed) => match lookups.last() {
                (Err(err), _) => Progress::Stopped(
                    Ok(Outcome::Query(Query::Error(find_error_kind(err)))),
                ),
                (Ok(current), expected) => if current == expected {
                    Progress::Going(agreed + 1)
                } else {
                    Progress::Stopped(Err(Violation::Disagreement))
                },
            },
        }
    }
}

/// How far a comparison comes with the given handles.
pub open spec fn compare_progress(list: Seq<Comparison>) -> Progress
    decreases list.len(),
{
    if list.len() == 0 {
        Progress::Going(0)
    } else {
        match compare_progress(list.drop_last()) {
            Progress::Stopped(outcome) => Progress::Stopped(outcome),
            Progress::Going(agreed) => match list.last().missing {
                Some(err) => Progress::Stopped(
                    Ok(Outcome::Query(Query::Error(find_error_kind(err)))),
                ),
                None => lookups_progress(list.last().lookups@, agreed),
            },
        }
    }
}

/// How many lookups a comparison makes.
pub open spec fn total_lookups(list: Seq<Comparison>) -> int
    decreases list.len(),
{
    if list.len() == 0 {
        0
    } else {
        total_lookups(list.drop_last()) + list.last().lookups@.len()
    }
}

/// The outcome of a comparison: the first error or disagreement, or how many lookups agree.
pub open spec fn compare_outcome(list: Seq<Comparison>) -> Result<Outcome, Violation> {
    match compare_progress(list) {
        Progress::Going(agreed) => Ok(Outcome::Compared(agreed as usize)),
        Progress::Stopped(outcome) => outcome,
    }
}

proof fn lemma_lookups_stay_stopped(
    lookups: Seq<(Result<bool, FindError>, bool)>,
    agreed: int,
    i: int,
)
    requires
        0 <= i <= lookups.len(),
        lookups_progress(lookups.take(i), agreed) is Stopped,
    ensures
        lookups_progress(lookups, agreed) == lookups_progress(lookups.take(i), agreed),
    decreases lookups.len() - i,
{
    if i < lookups.len() {
        assert(lookups.take(i + 1).drop_last() =~= lookups.take(i));
        lemma_lookups_stay_stopped(lookups, agreed, i + 1);
    } else {
        assert(lookups.take(i) =~= lookups);
    }
}

proof fn lemma_comparisons_stay_stopped(list: Seq<Comparison>, i: int)
    requires
        0 <= i <= list.len(),
        compare_progress(list.take(i)) is Stopped,
    ensures
        compare_progress(list) == compare_progress(list.take(i)),
    decreases list.len() - i,
{
    if i < list.len() {
        assert(list.take(i + 1).drop_last() =~= list.take(i));
        lemma_comparisons_stay_stopped(list, i + 1);
    } else {
        assert(list.take(i) =~= list);
    }
}

proof fn lemma_lookups_agree(lookups: Seq<(Result<bool, FindError>, bool)>, agreed: int)
    ensures
        lookups_progress(lookups, agreed) matches Progress::Going(more) ==> more == agreed
            + lookups.len(),
    decreases lookups.len(),
{
    if lookups.len() > 0 {
        lemma_lookups_agree(lookups.drop_last(), agreed);
    }
}

proof fn lemma_total_grows(list: Seq<Comparison>, i: int)
    requires
        0 <= i <= list.len(),
    ensures
        total_lookups(list.take(i)) <= total_lookups(list),
    decreases list.len() - i,
{
    if i < list.len() {
        assert(list.take(i + 1).drop_last() =~= list.take(i));
        lemma_total_grows(list, i + 1);
    } else {
        assert(list.take(i) =~= list);
    }
}

/// A comparison of handles with a store that was just opened agrees on every lookup, or it has another
/// outcome.
pub proof fn law_agreeing_comparisons_count_all(list: Seq<Comparison>)
    ensures
        compare_progress(list) matches Progress::Going(agreed) ==> agreed == total_lookups(list),
    decreases list.len(),
{
    if list.len() > 0 {
        law_agreeing_comparisons_count_all(list.drop_last());
        if let Progress::Going(agreed) = compare_progress(list.drop_last()) {
            lemma_lookups_agree(list.last().lookups@, agreed);
        }
    }
}

/// The outcome of a comparison of handles with a store that was just opened.
pub fn compare(list: &Vec<Comparison>) -> (outcome: Result<Outcome, Violation>)
    requires
        total_lookups(list@) <= usize::MAX,
    ensures
        outcome == compare_outcome(list@),
{
    let mut compared: usize = 0;
    let mut i: usize = 0;
    assert(list@.take(0) =~= Seq::empty());
    while i < list.len()
        invariant
            i <= list.len(),
            total_lookups(list@) <= usize::MAX,
            compared == total_lookups(list@.take(i as int)),
            compare_progress(list@.take(i as int)) == Progress::Going(compared as int),
        decreases list.len() - i,
    {
        let ghost upto = list@.take(i + 1);
        proof {
            assert(upto.drop_last() =~= list@.take(i as int));
            assert(upto.last() == list@[i as int]);
            lemma_total_grows(list@, i + 1);
        }
        if let Some(err) = list[i].missing {
            proof {
                lemma_comparisons_stay_stopped(list@, i + 1);
            }
            return Ok(query_error(err));
        }
        let lookups = &list[i].lookups;
        let ghost start = compared as int;
        let mut k: usize = 0;
        assert(lookups@.take(0) =~= Seq::empty());
        while k < lookups.len()
            invariant
                k <= lookups.len(),
                i < list.len(),
                upto == list@.take(i + 1),
                upto.last() == list@[i as int],
                upto.drop_last() == list@.take(i as int),
                lookups == list@[i as int].lookups,
                list@[i as int].missing is None,
                compare_progress(list@.take(i as int)) == Progress::Going(start),
                compared == start + k,
                start + lookups@.len() <= usize::MAX,
                lookups_progress(lookups@.take(k as int), start) == Progress::Going(
                    compared as int,
                ),
            decreases lookups.len() - k,
        {
            proof {
                assert(lookups@.take(k + 1).drop_last() =~= lookups@.take(k as int));
                assert(lookups@.take(k + 1).last() == lookups@[k as int]);
            }
            match lookups[k] {
                (Err(err), _) => {
                    proof {
                        lemma_lookups_stay_stopped(lookups@, start, k + 1);
                        lemma_comparisons_stay_stopped(list@, i + 1);
                    }
                    return Ok(query_error(err));
                },
                (Ok(current), expected) => {
                    if current != expected {
                        proof {
                            lemma_lookups_stay_stopped(lookups@, start, k + 1);
                            lemma_comparisons_stay_stopped(list@, i + 1);
                        }
                        return Err(Violation::Disagreement);
                    }
                },
            }
            compared += 1;
            k += 1;
        }
        assert(lookups@.take(k as int) =~= lookups@);
        i += 1;
    }
    assert(list@.take(i as int) =~= list@);
    Ok(Outcome::Compared(compared))
}

/// How many objects of a store are gone through at most.
pub const MAX_ITERATED: usize = 16;

/// The outcome of going through objects: the first that failed or was never written decides, and
/// otherwise how many there are.
pub open spec fn iterate_outcome(
    ids: Seq<Option<ObjectId>>,
    packed: Seq<Seq<u8>>,
    written: Seq<Seq<u8>>,
    count: int,
) -> Result<Outcome, Violation>
    decreases ids.len() - count,
{
    if count >= ids.len() || count >= MAX_ITERATED {
        Ok(Outcome::Iterated(count as usize))
    } else {
        match ids[count] {
            None => Ok(Outcome::Query(Query::Error(QueryError::LooseTraversal))),
            Some(id) => if packed.contains(id@) || written.contains(id@) {
                iterate_outcome(ids, packed, written, count + 1)
            } else {
                Err(Violation::UnknownObject)
            },
        }
    }
}

fn has_id(list: &Vec<ObjectId>, id: &ObjectId) -> (found: bool)
    ensures
        found == view_ids(list@).contains(id@),
{
    let mut i: usize = 0;
    while i < list.len()
        invariant
            i <= list.len(),
            forall|k: int| 0 <= k < i ==> view_ids(list@)[k] != id@,
        decreases list.len() - i,
    {
        if list[i].same(id) {
            assert(view_ids(list@)[i as int] == id@);
            return true;
        }
        i += 1;
    }
    false
}

fn has_location(list: &Vec<Location>, location: Location) -> (found: bool)
    ensures
        found == list@.contains(location),
{
    let mut i: usize = 0;
    while i < list.len()
        invariant
            i <= list.len(),
            forall|k: int| 0 <= k < i ==> list@[k] != location,
        decreases list.len() - i,
    {
        if list[i] == location {
            return true;
        }
        i += 1;
    }
    false
}

/// Whether a lookup of an object is a success to remember.
pub open spec fn is_found(outcome: Result<Outcome, Violation>) -> bool {
    outcome == Ok::<Outcome, Violation>(Outcome::Query(Query::Found))
}

impl MachineView {
    /// What is asked of the handle that an operand selects, if there is one.
    pub open spec fn ask(self, index: usize, request: Request) -> Step {
        if self.handle(index) is Some {
            Step::Ask(request)
        } else {
            Step::Done(Outcome::Skipped(Skip::NoHandle))
        }
    }

    /// What is asked to find the location of an object: only of a handle whose locations stay readable.
    pub open spec fn locate(self, index: usize, object: usize) -> Step {
        match self.handle(index) {
            None => Step::Done(Outcome::Skipped(Skip::NoHandle)),
            Some(handle) => if handle.stable {
                Step::Ask(
                    Request::Locate { slot: place(index) as usize, object: self.object(object) },
                )
            } else {
                Step::Done(Outcome::Skipped(Skip::NotStable))
            },
        }
    }

    /// What is asked about prefixes.
    pub open spec fn prefix(self, index: usize, object: usize, input: usize) -> Step {
        let slot = place(index) as usize;
        let hex_len = prefix_digits(input) as usize;
        let some = Prefix::Of { object: self.object(object), hex_len };
        self.ask(
            index,
            if input as int % 5 == 0 {
                Request::Disambiguate { slot, object: self.object(object), hex_len }
            } else if input as int % 5 == 1 {
                Request::LookupPrefix { slot, prefix: some, collect: false }
            } else if input as int % 5 == 2 {
                Request::LookupPrefix { slot, prefix: some, collect: true }
            } else if input as int % 5 == 3 {
                Request::LookupPrefix { slot, prefix: Prefix::Ambiguous, collect: true }
            } else {
                Request::LookupPrefix { slot, prefix: Prefix::Missing, collect: true }
            },
        )
    }

    /// What is asked about a loose object.
    pub open spec fn query_loose(self, index: usize, loose: usize, input: usize) -> Step {
        let slot = place(index) as usize;
        let object = Object::Loose(place(loose) as usize);
        if self.handle(index) is None {
            Step::Done(Outcome::Skipped(Skip::NoHandle))
        } else if self.loose_ids[place(loose)] is None {
            Step::Done(Outcome::Skipped(Skip::NoLooseObject))
        } else if input as int % 3 == 0 {
            Step::Ask(Request::Find { slot, object })
        } else if input as int % 3 == 1 {
            Step::Ask(Request::Header { slot, object })
        } else {
            Step::Ask(
                Request::LookupPrefix {
                    slot,
                    prefix: Prefix::Of { object, hex_len: prefix_digits(input) as usize },
                    collect: false,
                },
            )
        }
    }

    /// What is compared at a checkpoint: nothing while files are in transition, the locations of a
    /// handle that keeps them, and otherwise all handles that refresh as they should and share a store.
    pub open spec fn checkpoint(self, index: usize, valid: bool) -> Step {
        if !valid {
            Step::Done(Outcome::Skipped(Skip::FixtureInTransition))
        } else {
            match self.handle(index) {
                None => Step::Done(Outcome::Skipped(Skip::NoHandle)),
                Some(handle) => if handle.stable {
                    if handle.stable_locations.len() == 0 {
                        Step::Done(Outcome::Skipped(Skip::NoStableLocation))
                    } else {
                        Step::Done(Outcome::Compared(handle.stable_locations.len() as usize))
                    }
                } else if handle.refresh != RefreshPolicy::Strict {
                    Step::Done(Outcome::Skipped(Skip::RefreshNotStrict))
                } else {
                    Step::Ask(Request::Compare { store_id: handle.store_id })
                },
            }
        }
    }

    /// What is asked for instructions that leave what the machine keeps track of as it is.
    pub open spec fn query(self, instruction: Instruction, valid: bool) -> Step {
        let Instruction { opcode, a, b, c } = instruction;
        let slot = place(a) as usize;
        match opcode {
            Opcode::MarkStale => self.ask(a, Request::MarkStale { slot }),
            Opcode::Find => self.ask(a, Request::Find { slot, object: self.object(b) }),
            Opcode::Locate => self.locate(a, b),
            Opcode::Exists => self.ask(a, Request::Exists { slot, object: self.object(b) }),
            Opcode::Missing => self.ask(a, Request::Find { slot, object: Object::Missing }),
            Opcode::Header => self.ask(a, Request::Header { slot, object: self.object(b) }),
            Opcode::IterateStore => self.ask(
                a,
                Request::Iterate { slot, by_offset: b as int % 2 == 1 },
            ),
            Opcode::Prefix => self.prefix(a, b, c),
            Opcode::CountStore => self.ask(a, Request::Count { slot }),
            Opcode::WriteLoose => self.ask(
                a,
                Request::WriteLoose { slot, number: b as u8, content: c as u8 },
            ),
            Opcode::QueryLoose => self.query_loose(a, b, c),
            Opcode::RemoveLoose => if self.loose_ids[place(b)] is Some {
                Step::Ask(Request::RemoveLoose { loose: place(b) as usize })
            } else {
                Step::Done(Outcome::Skipped(Skip::NoLooseObject))
            },
            Opcode::Publish => Step::Ask(
                Request::Apply(
                    FixtureAction::Publish {
                        database: selected_database(a),
                        pack: pack_numbered(b as int % 3),
                        component: component_numbered(c as int % 7),
                    },
                ),
            ),
            Opcode::Remove => Step::Ask(
                Request::Apply(
                    FixtureAction::Remove {
                        database: selected_database(a),
                        pack: pack_numbered(b as int % 3),
                        component: component_numbered(c as int % 7),
                    },
                ),
            ),
            Opcode::Corrupt => Step::Ask(
                Request::Apply(
                    FixtureAction::CorruptIndex {
                        database: selected_database(a),
                        pack: pack_numbered(b as int % 3),
                    },
                ),
            ),
            Opcode::WriteMultiIndex => Step::Ask(
                Request::WriteMultiIndex {
                    database: selected_database(a),
                    packs: PackSet {
                        a: true,
                        b: b as int / 2 % 2 == 1,
                        c: b as int / 4 % 2 == 1,
                    },
                },
            ),
            Opcode::RemoveMultiIndex => Step::Ask(
                Request::Apply(FixtureAction::RemoveMultiIndex { database: selected_database(a) }),
            ),
            Opcode::Alternate => Step::Ask(
                Request::Apply(FixtureAction::SetAlternate { enabled: a as int % 2 == 1 }),
            ),
            Opcode::Checkpoint => self.checkpoint(a, valid),
            _ => Step::Done(Outcome::Rejected),
        }
    }

    /// The machine with an object remembered that a handle found.
    pub open spec fn remembering(self, index: usize, object: usize) -> MachineView {
        match self.handle(index) {
            None => self,
            Some(handle) => self.with_handle(
                index,
                Some(
                    HandleView {
                        observed: Some((object as int % self.packed_ids.len() as int) as usize),
                        ..handle
                    },
                ),
            ),
        }
    }

    /// The machine with a location remembered that a handle handed out.
    pub open spec fn keeping(self, index: usize, location: Location) -> MachineView {
        match self.handle(index) {
            None => self,
            Some(handle) => if handle.stable_locations.contains(location) {
                self
            } else {
                self.with_handle(
                    index,
                    Some(
                        HandleView {
                            stable_locations: handle.stable_locations.push(location),
                            ..handle
                        },
                    ),
                )
            },
        }
    }

    /// The machine with a loose object remembered that was written.
    pub open spec fn written(self, loose: usize, id: Seq<u8>) -> MachineView {
        MachineView {
            loose_ids: self.loose_ids.update(place(loose), Some(id)),
            written_loose_ids: if self.written_loose_ids.contains(id) {
                self.written_loose_ids
            } else {
                self.written_loose_ids.push(id)
            },
            ..self
        }
    }

    /// The machine after a lookup with the given outcome.
    pub open spec fn after_lookup(
        self,
        instruction: Instruction,
        outcome: Result<Outcome, Violation>,
    ) -> (MachineView, Result<Outcome, Violation>) {
        if is_found(outcome) {
            (self.remembering(instruction.a, instruction.b), outcome)
        } else {
            (self, outcome)
        }
    }

    /// What comes of an instruction once its request was replied to.
    pub open spec fn concluded(self, instruction: Instruction, reply: Reply, valid: bool) -> (
        MachineView,
        Result<Outcome, Violation>,
    ) {
        let Instruction { opcode, a, b, c } = instruction;
        match (opcode, reply) {
            (Opcode::Never, Reply::Done) => (
                self,
                Ok(Outcome::RefreshConfigured(RefreshPolicy::Never)),
            ),
            (Opcode::SetRefresh, Reply::Done) => (
                self,
                Ok(Outcome::RefreshConfigured(selected_policy(b, c))),
            ),
            (Opcode::AdvanceClock, Reply::Done) => (
                self,
                Ok(Outcome::ClockAdvanced(elapsed(a, b, c) as u64)),
            ),
            (
                Opcode::Open
                | Opcode::Clone
                | Opcode::Drop
                | Opcode::MarkStale
                | Opcode::Stable
                | Opcode::RemoveLoose
                | Opcode::Publish
                | Opcode::Remove
                | Opcode::Corrupt
                | Opcode::RemoveMultiIndex
                | Opcode::Alternate,
                Reply::Done,
            ) => (self, Ok(Outcome::Applied)),
            (Opcode::Find, Reply::Found(found)) => self.after_lookup(
                instruction,
                find_outcome(found, self.packed_id(b)),
            ),
            (Opcode::Missing, Reply::Found(found)) => (self, find_outcome(found, self.missing_id)),
            (Opcode::Exists, Reply::Exists(exists)) => self.after_lookup(
                instruction,
                Ok(
                    Outcome::Query(
                        if exists {
                            Query::Found
                        } else {
                            Query::Missing
                        },
                    ),
                ),
            ),
            (Opcode::Header, Reply::Header { header, object }) => self.after_lookup(
                instruction,
                header_outcome(header, object, !valid),
            ),
            (Opcode::Locate, Reply::Located { location, readable }) => match location {
                None => (self, Ok(Outcome::Query(Query::Missing))),
                Some(location) => if readable {
                    (self.keeping(a, location), Ok(Outcome::Query(Query::Found)))
                } else {
                    (self, Err(Violation::UnreadableLocation))
                },
            },
            (Opcode::IterateStore, Reply::Iterated(ids)) => (
                self,
                match ids {
                    None => Ok(Outcome::Query(Query::Error(QueryError::Refresh))),
                    Some(ids) => iterate_outcome(
                        ids@,
                        self.packed_ids,
                        self.written_loose_ids,
                        0,
                    ),
                },
            ),
            (Opcode::Prefix, Reply::Disambiguated(result)) => (
                self,
                if c as int % 5 != 0 {
                    Err(Violation::UnexpectedReply)
                } else {
                    Ok(
                        match result {
                            Ok(known) => Outcome::Query(
                                if known {
                                    Query::Found
                                } else {
                                    Query::Missing
                                },
                            ),
                            Err(DisambiguateError::Contains(err)) => Outcome::Query(
                                Query::Error(find_error_kind(err)),
                            ),
                            Err(DisambiguateError::Lookup(err)) => Outcome::Query(
                                Query::Error(prefix_error_kind(err)),
                            ),
                        },
                    )
                },
            ),
            (Opcode::Prefix, Reply::Prefix(reply)) => (
                self,
                if c as int % 5 == 0 {
                    Err(Violation::UnexpectedReply)
                } else {
                    prefix_outcome(self.selected_prefix(b, c), reply, c as int % 5 != 1)
                },
            ),
            (Opcode::CountStore, Reply::Counted(count)) => (
                self,
                Ok(
                    match count {
                        Some(count) => Outcome::Counted(count),
                        None => Outcome::Query(Query::Error(QueryError::Refresh)),
                    },
                ),
            ),
            (Opcode::WriteLoose, Reply::Written(result)) => match result {
                Ok(id) => (self.written(b, id@), Ok(Outcome::Applied)),
                Err(WriteFailure::LoadIndex) => (
                    self,
                    Ok(Outcome::WriteError(WriteError::Refresh)),
                ),
                Err(WriteFailure::LooseWrite) => (
                    self,
                    Ok(Outcome::WriteError(WriteError::LooseObject)),
                ),
                Err(WriteFailure::Io) => (self, Ok(Outcome::WriteError(WriteError::Io))),
                Err(WriteFailure::Other) => (self, Err(Violation::UnknownWriteError)),
            },
            (Opcode::QueryLoose, Reply::Found(found)) => (
                self,
                match self.loose_ids[place(b)] {
                    Some(id) if c as int % 3 == 0 => find_outcome(found, id),
                    _ => Err(Violation::UnexpectedReply),
                },
            ),
            (Opcode::QueryLoose, Reply::Header { header, object }) => (
                self,
                if c as int % 3 == 1 {
                    header_outcome(header, object, false)
                } else {
                    Err(Violation::UnexpectedReply)
                },
            ),
            (Opcode::QueryLoose, Reply::Prefix(reply)) => (
                self,
                if c as int % 3 == 2 {
                    Ok(crate::machine::plain_prefix_outcome(reply.result))
                } else {
                    Err(Violation::UnexpectedReply)
                },
            ),
            (Opcode::WriteMultiIndex, Reply::MultiIndex { can_write, written }) => (
                self,
                if can_write == written {
                    Ok(
                        if written {
                            Outcome::Applied
                        } else {
                            Outcome::Rejected
                        },
                    )
                } else if can_write {
                    Err(Violation::MultiIndexRefused)
                } else {
                    Err(Violation::MultiIndexWritten)
                },
            ),
            (Opcode::Checkpoint, Reply::Compared(list)) => (self, compare_outcome(list@)),
            _ => (self, Err(Violation::UnexpectedReply)),
        }
    }
}

/// The database that an operand selects.
pub open spec fn selected_database(value: usize) -> Database {
    if value % 2 == 0 {
        Database::Primary
    } else {
        Database::Alternate
    }
}

impl MachineView {
    /// The machine with a new store and a handle for it.
    pub open spec fn opened(self, index: usize) -> MachineView {
        MachineView {
            next_store_id: self.next_store_id.wrapping_add(1),
            ..self.with_handle(
                index,
                Some(
                    HandleView {
                        store_id: self.next_store_id,
                        stable: false,
                        refresh: RefreshPolicy::Strict,
                        observed: None,
                        stable_locations: Seq::empty(),
                    },
                ),
            )
        }
    }

    /// The machine with a changed handle, and what is asked for it, if there is such a handle.
    pub open spec fn changed(
        self,
        source: usize,
        destination: usize,
        change: spec_fn(HandleView) -> HandleView,
        request: Request,
    ) -> (MachineView, Step) {
        match self.handle(source) {
            None => (self, Step::Done(Outcome::Skipped(Skip::NoHandle))),
            Some(handle) => (
                self.with_handle(destination, Some(change(handle))),
                Step::Ask(request),
            ),
        }
    }

    /// What comes of an instruction before anything is asked.
    pub open spec fn begun(self, instruction: Instruction, valid: bool) -> (MachineView, Step) {
        let Instruction { opcode, a, b, c } = instruction;
        let slot = place(a) as usize;
        match opcode {
            Opcode::Open => (
                self.opened(a),
                Step::Ask(
                    Request::Open {
                        slot,
                        slots: opened_slots(b, c),
                        use_multi_pack_index: c as int % 2 == 0,
                    },
                ),
            ),
            Opcode::Clone => self.changed(
                b,
                a,
                |handle: HandleView| HandleView { observed: None, ..handle },
                Request::Clone { source: place(b) as usize, destination: slot },
            ),
            Opcode::Drop => (self.with_handle(a, None), self.ask(a, Request::Drop { slot })),
            Opcode::Never => self.changed(
                a,
                a,
                |handle: HandleView| HandleView { refresh: RefreshPolicy::Never, ..handle },
                Request::SetRefresh { slot, mode: RefreshMode::Never },
            ),
            Opcode::SetRefresh => self.changed(
                a,
                a,
                |handle: HandleView| HandleView { refresh: selected_policy(b, c), ..handle },
                Request::SetRefresh { slot, mode: mode_of(selected_policy(b, c)) },
            ),
            Opcode::AdvanceClock => (
                MachineView { now: self.now + elapsed(a, b, c), ..self },
                Step::Ask(Request::SetClock { now: (self.now + elapsed(a, b, c)) as u64 }),
            ),
            Opcode::Stable => self.changed(
                a,
                a,
                |handle: HandleView| HandleView { stable: true, ..handle },
                Request::PreventUnload { slot },
            ),
            _ => (self, self.query(instruction, valid)),
        }
    }
}

impl Machine {
    fn ask(&self, index: usize, request: Request) -> (step: Step)
        requires
            self@.wf(),
        ensures
            step == self@.ask(index, request),
    {
        if self.has_handle(index) {
            Step::Ask(request)
        } else {
            Step::Done(Outcome::Skipped(Skip::NoHandle))
        }
    }

    fn object(&self, index: usize) -> (object: Object)
        requires
            self@.wf(),
        ensures
            object == self@.object(index),
    {
        Object::Packed(index % self.packed_ids.len())
    }

    fn packed_id(&self, index: usize) -> (id: &ObjectId)
        requires
            self@.wf(),
        ensures
            id@ == self@.packed_id(index),
    {
        &self.packed_ids[index % self.packed_ids.len()]
    }

    fn selected_prefix(&self, object_index: usize, input: usize) -> (prefix: HexPrefix)
        requires
            self@.wf(),
        ensures
            prefix@ == self@.selected_prefix(object_index, input),
            prefix@.wf(),
    {
        match input % 5 {
            3 => HexPrefix {
                id: self.ambiguous_prefix.id.copy(),
                hex_len: self.ambiguous_prefix.hex_len,
            },
            4 => HexPrefix { id: self.missing_id.copy(), hex_len: HEX_LEN },
            _ => HexPrefix {
                id: self.packed_id(object_index).copy(),
                hex_len: 4 + input % (HEX_LEN - 3),
            },
        }
    }

    fn has_loose(&self, loose: usize) -> (has: bool)
        requires
            self@.wf(),
        ensures
            has == (self@.loose_ids[place(loose)] is Some),
    {
        assert(self@.loose_ids[place(loose)] == view_id(self.loose_ids@[place(loose)]));
        self.loose_ids[loose % NUM_LOOSE_OBJECTS].is_some()
    }

    /// What is asked to find the location of an object.
    pub fn locate(&self, handle_index: usize, object_index: usize) -> (step: Step)
        requires
            self@.wf(),
        ensures
            step == self@.locate(handle_index, object_index),
    {
        assert(self@.handles[place(handle_index)] == view_handle(self.handles@[place(handle_index)]));
        match &self.handles[handle_index % NUM_HANDLES] {
            None => Step::Done(Outcome::Skipped(Skip::NoHandle)),
            Some(handle) => {
                if !handle.stable {
                    return Step::Done(Outcome::Skipped(Skip::NotStable));
                }
                Step::Ask(
                    Request::Locate {
                        slot: handle_index % NUM_HANDLES,
                        object: self.object(object_index),
                    },
                )
            },
        }
    }

    /// What is asked about prefixes, as the operands select.
    pub fn prefix(&self, handle_index: usize, object_index: usize, input: usize) -> (step: Step)
        requires
            self@.wf(),
        ensures
            step == self@.prefix(handle_index, object_index, input),
    {
        let slot: usize = handle_index % NUM_HANDLES;
        let object = self.object(object_index);
        let hex_len: usize = 4 + input % (HEX_LEN - 3);
        let request = match input % 5 {
            0 => Request::Disambiguate { slot, object, hex_len },
            1 => Request::LookupPrefix {
                slot,
                prefix: Prefix::Of { object, hex_len },
                collect: false,
            },
            2 => Request::LookupPrefix { slot, prefix: Prefix::Of { object, hex_len }, collect: true },
            3 => Request::LookupPrefix { slot, prefix: Prefix::Ambiguous, collect: true },
            _ => Request::LookupPrefix { slot, prefix: Prefix::Missing, collect: true },
        };
        self.ask(handle_index, request)
    }

    /// What is asked about a loose object, as the operands select.
    pub fn query_loose(&self, handle_index: usize, loose_index: usize, input: usize) -> (step: Step)
        requires
            self@.wf(),
        ensures
            step == self@.query_loose(handle_index, loose_index, input),
    {
        if !self.has_handle(handle_index) {
            return Step::Done(Outcome::Skipped(Skip::NoHandle));
        }
        if !self.has_loose(loose_index) {
            return Step::Done(Outcome::Skipped(Skip::NoLooseObject));
        }
        let slot: usize = handle_index % NUM_HANDLES;
        let object = Object::Loose(loose_index % NUM_LOOSE_OBJECTS);
        match input % 3 {
            0 => Step::Ask(Request::Find { slot, object }),
            1 => Step::Ask(Request::Header { slot, object }),
            _ => {
                let hex_len: usize = 4 + input % (HEX_LEN - 3);
                Step::Ask(
                    Request::LookupPrefix {
                        slot,
                        prefix: Prefix::Of { object, hex_len },
                        collect: false,
                    },
                )
            },
        }
    }

    /// What is compared at a checkpoint.
    pub fn checkpoint(&self, handle_index: usize, fixture_is_valid: bool) -> (step: Step)
        requires
            self@.wf(),
        ensures
            step == self@.checkpoint(handle_index, fixture_is_valid),
    {
        if !fixture_is_valid {
            return Step::Done(Outcome::Skipped(Skip::FixtureInTransition));
        }
        assert(self@.handles[place(handle_index)] == view_handle(self.handles@[place(handle_index)]));
        match &self.handles[handle_index % NUM_HANDLES] {
            None => Step::Done(Outcome::Skipped(Skip::NoHandle)),
            Some(handle) => {
                if handle.stable {
                    return if handle.stable_locations.len() == 0 {
                        Step::Done(Outcome::Skipped(Skip::NoStableLocation))
                    } else {
                        Step::Done(Outcome::Compared(handle.stable_locations.len()))
                    };
                }
                if handle.refresh != RefreshPolicy::Strict {
                    return Step::Done(Outcome::Skipped(Skip::RefreshNotStrict));
                }
                Step::Ask(Request::Compare { store_id: handle.store_id })
            },
        }
    }

    fn query(&self, instruction: Instruction, fixture_is_valid: bool) -> (step: Step)
        requires
            self@.wf(),
        ensures
            step == self@.query(instruction, fixture_is_valid),
    {
        let a: usize = instruction.a;
        let b: usize = instruction.b;
        let c: usize = instruction.c;
        let slot: usize = a % NUM_HANDLES;
        match instruction.opcode {
            Opcode::MarkStale => self.mark_stale(a),
            Opcode::Find => self.ask(a, Request::Find { slot, object: self.object(b) }),
            Opcode::Locate => self.locate(a, b),
            Opcode::Exists => self.ask(a, Request::Exists { slot, object: self.object(b) }),
            Opcode::Missing => self.ask(a, Request::Find { slot, object: Object::Missing }),
            Opcode::Header => self.ask(a, Request::Header { slot, object: self.object(b) }),
            Opcode::IterateStore => self.ask(a, Request::Iterate { slot, by_offset: b % 2 == 1 }),
            Opcode::Prefix => self.prefix(a, b, c),
            Opcode::CountStore => self.ask(a, Request::Count { slot }),
            Opcode::WriteLoose => self.ask(
                a,
                Request::WriteLoose { slot, number: b as u8, content: c as u8 },
            ),
            Opcode::QueryLoose => self.query_loose(a, b, c),
            Opcode::RemoveLoose => if self.has_loose(b) {
                Step::Ask(Request::RemoveLoose { loose: b % NUM_LOOSE_OBJECTS })
            } else {
                Step::Done(Outcome::Skipped(Skip::NoLooseObject))
            },
            Opcode::Publish => Step::Ask(
                Request::Apply(
                    FixtureAction::Publish {
                        database: database(a),
                        pack: pack(b),
                        component: component(c),
                    },
                ),
            ),
            Opcode::Remove => Step::Ask(
                Request::Apply(
                    FixtureAction::Remove {
                        database: database(a),
                        pack: pack(b),
                        component: component(c),
                    },
                ),
            ),
            Opcode::Corrupt => Step::Ask(
                Request::Apply(
                    FixtureAction::CorruptIndex { database: database(a), pack: pack(b) },
                ),
            ),
            Opcode::WriteMultiIndex => Step::Ask(
                Request::WriteMultiIndex { database: database(a), packs: pack_set(b) },
            ),
            Opcode::RemoveMultiIndex => Step::Ask(
                Request::Apply(FixtureAction::RemoveMultiIndex { database: database(a) }),
            ),
            Opcode::Alternate => Step::Ask(
                Request::Apply(FixtureAction::SetAlternate { enabled: a % 2 == 1 }),
            ),
            Opcode::Checkpoint => self.checkpoint(a, fixture_is_valid),
            _ => Step::Done(Outcome::Rejected),
        }
    }

    /// Begins an instruction: what it asks for, or its outcome if nothing has to be asked.
    pub fn begin(&mut self, instruction: Instruction, fixture_is_valid: bool) -> (step: Step)
        requires
            old(self)@.wf(),
            instruction.opcode == Opcode::AdvanceClock ==> old(self)@.now + elapsed(
                instruction.a,
                instruction.b,
                instruction.c,
            ) <= u64::MAX,
        ensures
            (final(self)@, step) == old(self)@.begun(instruction, fixture_is_valid),
            final(self)@.wf(),
    {
        let a: usize = instruction.a;
        let b: usize = instruction.b;
        let c: usize = instruction.c;
        match instruction.opcode {
            Opcode::Open => self.open(a, b, c),
            Opcode::Clone => self.clone_handle(a, b),
            Opcode::Drop => self.drop_handle(a),
            Opcode::Never => self.set_never(a),
            Opcode::SetRefresh => self.set_refresh(a, b, c),
            Opcode::AdvanceClock => self.advance_clock(a, b, c),
            Opcode::Stable => self.set_stable(a),
            _ => self.query(instruction, fixture_is_valid),
        }
    }

    fn remember(&mut self, handle_index: usize, object_index: usize)
        requires
            old(self)@.wf(),
        ensures
            final(self)@ == old(self)@.remembering(handle_index, object_index),
            final(self)@.wf(),
    {
        assert(self@.handles[place(handle_index)] == view_handle(self.handles@[place(handle_index)]));
        let observed: usize = object_index % self.packed_ids.len();
        let handle = match &self.handles[handle_index % NUM_HANDLES] {
            None => return ,
            Some(handle) => Handle {
                store_id: handle.store_id,
                stable: handle.stable,
                refresh: handle.refresh,
                observed: Some(observed),
                stable_locations: copy_locations(&handle.stable_locations),
            },
        };
        self.put(handle_index, Some(handle));
    }

    fn keep(&mut self, handle_index: usize, location: Location)
        requires
            old(self)@.wf(),
        ensures
            final(self)@ == old(self)@.keeping(handle_index, location),
            final(self)@.wf(),
    {
        assert(self@.handles[place(handle_index)] == view_handle(self.handles@[place(handle_index)]));
        let handle = match &self.handles[handle_index % NUM_HANDLES] {
            None => return ,
            Some(handle) => {
                if has_location(&handle.stable_locations, location) {
                    return ;
                }
                let mut stable_locations = copy_locations(&handle.stable_locations);
                stable_locations.push(location);
                Handle {
                    store_id: handle.store_id,
                    stable: handle.stable,
                    refresh: handle.refresh,
                    observed: handle.observed,
                    stable_locations,
                }
            },
        };
        self.put(handle_index, Some(handle));
    }

    fn write(&mut self, loose_index: usize, id: ObjectId)
        requires
            old(self)@.wf(),
        ensures
            final(self)@ == old(self)@.written(loose_index, id@),
            final(self)@.wf(),
    {
        let ghost before = self@;
        if !has_id(&self.written_loose_ids, &id) {
            self.written_loose_ids.push(id.copy());
            assert(view_ids(self.written_loose_ids@) =~= before.written_loose_ids.push(id@));
        }
        self.loose_ids[loose_index % NUM_LOOSE_OBJECTS] = Some(id);
        assert(view_loose(self.loose_ids@) =~= before.loose_ids.update(
            place(loose_index),
            Some(id@),
        ));
    }

    fn iterated(&self, ids: &Vec<Option<ObjectId>>) -> (outcome: Result<Outcome, Violation>)
        ensures
            outcome == iterate_outcome(ids@, self@.packed_ids, self@.written_loose_ids, 0),
    {
        let mut count: usize = 0;
        while count < ids.len() && count < MAX_ITERATED
            invariant
                count <= ids.len(),
                count <= MAX_ITERATED,
                iterate_outcome(ids@, self@.packed_ids, self@.written_loose_ids, count as int)
                    == iterate_outcome(ids@, self@.packed_ids, self@.written_loose_ids, 0),
            decreases ids.len() - count,
        {
            match &ids[count] {
                None => return Ok(Outcome::Query(Query::Error(QueryError::LooseTraversal))),
                Some(id) => {
                    if !has_id(&self.packed_ids, id) && !has_id(&self.written_loose_ids, id) {
                        return Err(Violation::UnknownObject);
                    }
                },
            }
            count += 1;
        }
        Ok(Outcome::Iterated(count))
    }

    fn after_lookup(&mut self, instruction: Instruction, outcome: Result<Outcome, Violation>) -> (result:
        Result<Outcome, Violation>)
        requires
            old(self)@.wf(),
        ensures
            (final(self)@, result) == old(self)@.after_lookup(instruction, outcome),
            final(self)@.wf(),
    {
        if let Ok(Outcome::Query(Query::Found)) = outcome {
            self.remember(instruction.a, instruction.b);
        }
        outcome
    }

    /// Concludes an instruction with what came of its request: its outcome, or which promise of the
    /// store it shows to be broken.
    pub fn conclude(&mut self, instruction: Instruction, reply: Reply, fixture_is_valid: bool) -> (outcome:
        Result<Outcome, Violation>)
        requires
            old(self)@.wf(),
            instruction.opcode == Opcode::AdvanceClock ==> elapsed(
                instruction.a,
                instruction.b,
                instruction.c,
            ) <= u64::MAX,
            reply matches Reply::Compared(list) ==> total_lookups(list@) <= usize::MAX,
        ensures
            (final(self)@, outcome) == old(self)@.concluded(instruction, reply, fixture_is_valid),
            final(self)@.wf(),
    {
        let a: usize = instruction.a;
        let b: usize = instruction.b;
        let c: usize = instruction.c;
        match (instruction.opcode, reply) {
            (Opcode::Never, Reply::Done) => Ok(Outcome::RefreshConfigured(RefreshPolicy::Never)),
            (Opcode::SetRefresh, Reply::Done) => {
                let policy = match b % 3 {
                    0 => RefreshPolicy::Strict,
                    1 => RefreshPolicy::AfterDuration(c as u64),
                    _ => RefreshPolicy::Never,
                };
                Ok(Outcome::RefreshConfigured(policy))
            },
            (Opcode::AdvanceClock, Reply::Done) => {
                let elapsed: u64 = a as u64 + b as u64 * 16 + c as u64 * 256;
                Ok(Outcome::ClockAdvanced(elapsed))
            },
            (
                Opcode::Open
                | Opcode::Clone
                | Opcode::Drop
                | Opcode::MarkStale
                | Opcode::Stable
                | Opcode::RemoveLoose
                | Opcode::Publish
                | Opcode::Remove
                | Opcode::Corrupt
                | Opcode::RemoveMultiIndex
                | Opcode::Alternate,
                Reply::Done,
            ) => Ok(Outcome::Applied),
            (Opcode::Find, Reply::Found(found)) => {
                let outcome = validate_find(&found, self.packed_id(b));
                self.after_lookup(instruction, outcome)
            },
            (Opcode::Missing, Reply::Found(found)) => validate_find(&found, &self.missing_id),
            (Opcode::Exists, Reply::Exists(exists)) => {
                let query = if exists {
                    Query::Found
                } else {
                    Query::Missing
                };
                self.after_lookup(instruction, Ok(Outcome::Query(query)))
            },
            (Opcode::Header, Reply::Header { header, object }) => {
                let outcome = validate_header(header, &object, !fixture_is_valid);
                self.after_lookup(instruction, outcome)
            },
            (Opcode::Locate, Reply::Located { location, readable }) => match location {
                None => Ok(Outcome::Query(Query::Missing)),
                Some(location) => {
                    if !readable {
                        return Err(Violation::UnreadableLocation);
                    }
                    self.keep(a, location);
                    Ok(Outcome::Query(Query::Found))
                },
            },
            (Opcode::IterateStore, Reply::Iterated(ids)) => match ids {
                None => Ok(Outcome::Query(Query::Error(QueryError::Refresh))),
                Some(ids) => self.iterated(&ids),
            },
            (Opcode::Prefix, Reply::Disambiguated(result)) => {
                if c % 5 != 0 {
                    return Err(Violation::UnexpectedReply);
                }
                match result {
                    Ok(true) => Ok(Outcome::Query(Query::Found)),
                    Ok(false) => Ok(Outcome::Query(Query::Missing)),
                    Err(err) => Ok(disambiguate_error(err)),
                }
            },
            (Opcode::Prefix, Reply::Prefix(reply)) => {
                if c % 5 == 0 {
                    return Err(Violation::UnexpectedReply);
                }
                let prefix = self.selected_prefix(b, c);
                validate_prefix_lookup(&prefix, &reply, c % 5 != 1)
            },
            (Opcode::CountStore, Reply::Counted(count)) => match count {
                Some(count) => Ok(Outcome::Counted(count)),
                None => Ok(Outcome::Query(Query::Error(QueryError::Refresh))),
            },
            (Opcode::WriteLoose, Reply::Written(result)) => match result {
                Ok(id) => {
                    self.write(b, id);
                    Ok(Outcome::Applied)
                },
                Err(failure) => write_error(failure),
            },
            (Opcode::QueryLoose, Reply::Found(found)) => {
                assert(self@.loose_ids[place(b)] == view_id(self.loose_ids@[place(b)]));
                match &self.loose_ids[b % NUM_LOOSE_OBJECTS] {
                    Some(id) if c % 3 == 0 => validate_find(&found, id),
                    _ => Err(Violation::UnexpectedReply),
                }
            },
            (Opcode::QueryLoose, Reply::Header { header, object }) => {
                if c % 3 != 1 {
                    return Err(Violation::UnexpectedReply);
                }
                validate_header(header, &object, false)
            },
            (Opcode::QueryLoose, Reply::Prefix(reply)) => {
                if c % 3 != 2 {
                    return Err(Violation::UnexpectedReply);
                }
                match reply.result {
                    PrefixResult::Unique(_) => Ok(Outcome::Query(Query::Found)),
                    PrefixResult::Ambiguous => Ok(Outcome::Query(Query::Ambiguous)),
                    PrefixResult::Nothing => Ok(Outcome::Query(Query::Missing)),
                    PrefixResult::Failed(err) => Ok(crate::machine::lookup_error(err)),
                }
            },
            (Opcode::WriteMultiIndex, Reply::MultiIndex { can_write, written }) => {
                match (can_write, written) {
                    (true, true) => Ok(Outcome::Applied),
                    (false, false) => Ok(Outcome::Rejected),
                    (true, false) => Err(Violation::MultiIndexRefused),
                    (false, true) => Err(Violation::MultiIndexWritten),
                }
            },
            (Opcode::Checkpoint, Reply::Compared(list)) => compare(&list),
            _ => Err(Violation::UnexpectedReply),
        }
    }
}

/// The handles of a store that are compared with a store that was just opened: those that refresh
/// strictly and don't keep locations.
pub open spec fn is_compared(handle: Option<HandleView>, store_id: u32) -> bool {
    match handle {
        Some(handle) => handle.store_id == store_id && !handle.stable && handle.refresh
            == RefreshPolicy::Strict,
        None => false,
    }
}

/// The places of the first `count` handles that are compared.
pub open spec fn compared_places(
    handles: Seq<Option<HandleView>>,
    store_id: u32,
    count: int,
) -> Seq<int>
    decreases count,
{
    if count <= 0 {
        Seq::empty()
    } else {
        let earlier = compared_places(handles, store_id, count - 1);
        if is_compared(handles[count - 1], store_id) {
            earlier.push(count - 1)
        } else {
            earlier
        }
    }
}

/// Whether a handle must still find what it has found, after the refresh of the handle at `selected`
/// failed: that one, and all of the same store that neither keep locations nor never refresh.
pub open spec fn is_watched(handles: Seq<Option<HandleView>>, selected: int, index: int) -> bool {
    match (handles[selected], handles[index]) {
        (Some(chosen), Some(handle)) => handle.store_id == chosen.store_id && (index == selected || (
        !handle.stable && handle.refresh != RefreshPolicy::Never)),
        _ => false,
    }
}

/// What the first `count` handles must still find.
pub open spec fn watched_objects(
    handles: Seq<Option<HandleView>>,
    selected: int,
    count: int,
) -> Seq<(int, usize)>
    decreases count,
{
    if count <= 0 {
        Seq::empty()
    } else {
        let earlier = watched_objects(handles, selected, count - 1);
        match handles[count - 1] {
            Some(handle) => match handle.observed {
                Some(object) if is_watched(handles, selected, count - 1) => earlier.push(
                    (count - 1, object),
                ),
                _ => earlier,
            },
            None => earlier,
        }
    }
}

/// Places with objects.
pub open spec fn watched_view(list: Seq<(usize, usize)>) -> Seq<(int, usize)> {
    list.map_values(|item: (usize, usize)| (item.0 as int, item.1))
}

/// Places.
pub open spec fn places(list: Seq<usize>) -> Seq<int> {
    list.map_values(|item: usize| item as int)
}

/// Whether an outcome is that of a failed refresh, after which nothing that was found may be lost.
pub open spec fn is_failed_refresh(outcome: Outcome) -> bool {
    outcome == Outcome::Query(Query::Error(QueryError::Refresh)) || outcome == Outcome::WriteError(
        WriteError::Refresh,
    )
}

/// Whether an outcome is that of a failed refresh.
pub fn failed_to_refresh(outcome: Outcome) -> (failed: bool)
    ensures
        failed == is_failed_refresh(outcome),
{
    matches!(
        outcome,
        Outcome::Query(Query::Error(QueryError::Refresh)) | Outcome::WriteError(WriteError::Refresh)
    )
}

/// Whether a store whose handle never refreshes has kept to that: at most the first look at the disk is
/// allowed.
pub fn kept_from_refreshing(before: usize, after: usize) -> (kept: bool)
    ensures
        kept == (after == before || (before == 0 && after == 1)),
{
    after == before || (before == 0 && after == 1)
}

impl Machine {
    /// Whether an instruction asks a handle that never refreshes, so that the refreshes of its store
    /// have to be watched.
    pub fn watches_refreshes(&self, instruction: Instruction) -> (watches: bool)
        requires
            self@.wf(),
        ensures
            watches == (asks_handle(instruction.opcode) && (self@.handle(instruction.a) matches Some(
                handle,
            ) && handle.refresh == RefreshPolicy::Never)),
    {
        if !instruction.opcode.queries_handle() {
            return false;
        }
        assert(self@.handles[place(instruction.a)] == view_handle(self.handles@[place(instruction.a)]));
        match &self.handles[instruction.a % NUM_HANDLES] {
            None => false,
            Some(handle) => handle.refresh == RefreshPolicy::Never,
        }
    }

    /// The places of the handles that are compared with a store that was just opened.
    pub fn compared_handles(&self, store_id: u32) -> (list: Vec<usize>)
        requires
            self@.wf(),
        ensures
            places(list@) == compared_places(self@.handles, store_id, NUM_HANDLES as int),
    {
        let mut list: Vec<usize> = Vec::new();
        let mut i: usize = 0;
        assert(places(list@) =~= Seq::empty());
        while i < self.handles.len()
            invariant
                i <= self.handles.len(),
                self@.wf(),
                places(list@) == compared_places(self@.handles, store_id, i as int),
            decreases self.handles.len() - i,
        {
            assert(self@.handles[i as int] == view_handle(self.handles@[i as int]));
            let ghost before = list@;
            if let Some(handle) = &self.handles[i] {
                if handle.store_id == store_id && !handle.stable && handle.refresh
                    == RefreshPolicy::Strict {
                    list.push(i);
                    assert(places(list@) =~= places(before).push(i as int));
                }
            }
            i += 1;
        }
        list
    }

    /// What handles must still find after the refresh of one of them failed, as far as it is there.
    pub fn observed_objects(&self, handle_index: usize) -> (list: Vec<(usize, usize)>)
        requires
            self@.wf(),
        ensures
            watched_view(list@) == watched_objects(
                self@.handles,
                place(handle_index),
                NUM_HANDLES as int,
            ),
    {
        let selected: usize = handle_index % NUM_HANDLES;
        let mut list: Vec<(usize, usize)> = Vec::new();
        let mut i: usize = 0;
        assert(watched_view(list@) =~= Seq::empty());
        while i < self.handles.len()
            invariant
                i <= self.handles.len(),
                self@.wf(),
                selected == place(handle_index),
                watched_view(list@) == watched_objects(self@.handles, selected as int, i as int),
            decreases self.handles.len() - i,
        {
            assert(self@.handles[i as int] == view_handle(self.handles@[i as int]));
            assert(self@.handles[selected as int] == view_handle(self.handles@[selected as int]));
            let ghost before = list@;
            match (&self.handles[selected], &self.handles[i]) {
                (Some(chosen), Some(handle)) => {
                    let watched = handle.store_id == chosen.store_id && (i == selected || (
                    !handle.stable && handle.refresh != RefreshPolicy::Never));
                    if let Some(object) = handle.observed {
                        if watched {
                            list.push((i, object));
                            assert(watched_view(list@) =~= watched_view(before).push(
                                (i as int, object),
                            ));
                        }
                    }
                },
                _ => {},
            }
            i += 1;
        }
        list
    }

    /// The locations that the handle at a place must still be able to read.
    pub fn kept_locations(&self, slot: usize) -> (list: Vec<Location>)
        requires
            self@.wf(),
            slot < NUM_HANDLES,
        ensures
            list@ == (match self@.handles[slot as int] {
                Some(handle) => if handle.stable {
                    handle.stable_locations
                } else {
                    Seq::empty()
                },
                None => Seq::empty(),
            }),
    {
        assert(self@.handles[slot as int] == view_handle(self.handles@[slot as int]));
        match &self.handles[slot] {
            Some(handle) => if handle.stable {
                copy_locations(&handle.stable_locations)
            } else {
                Vec::new()
            },
            None => Vec::new(),
        }
    }

    /// How many handles there are for a store.
    pub fn handle_count(&self, store_id: u32) -> (count: usize)
        requires
            self@.wf(),
        ensures
            count == self@.handles_of(store_id),
    {
        let mut count: usize = 0;
        let mut i: usize = 0;
        assert(self@.handles.take(0) =~= Seq::empty());
        while i < self.handles.len()
            invariant
                i <= self.handles.len(),
                self@.wf(),
                count <= i,
                count == count_handles(self@.handles.take(i as int), store_id),
            decreases self.handles.len() - i,
        {
            proof {
                let upto = self@.handles.take(i + 1);
                assert(upto.drop_last() =~= self@.handles.take(i as int));
                assert(upto.last() == view_handle(self.handles@[i as int]));
            }
            if let Some(handle) = &self.handles[i] {
                if handle.store_id == store_id {
                    count += 1;
                }
            }
            i += 1;
        }
        assert(self@.handles.take(i as int) =~= self@.handles);
        count
    }

    /// Whether the stores count their handles right, given what the store of the handle at each place
    /// counts.
    pub fn handle_counts_agree(&self, counted: &Vec<usize>) -> (agree: bool)
        requires
            self@.wf(),
            counted@.len() == NUM_HANDLES,
        ensures
            agree == forall|i: int|
                0 <= i < NUM_HANDLES ==> (#[trigger] self@.handles[i] matches Some(handle)
                    ==> counted@[i] == self@.handles_of(handle.store_id)),
    {
        let mut i: usize = 0;
        while i < self.handles.len()
            invariant
                i <= self.handles.len(),
                self@.wf(),
                counted@.len() == NUM_HANDLES,
                forall|k: int|
                    0 <= k < i ==> (#[trigger] self@.handles[k] matches Some(handle) ==> counted@[k]
                        == self@.handles_of(handle.store_id)),
            decreases self.handles.len() - i,
        {
            assert(self@.handles[i as int] == view_handle(self.handles@[i as int]));
            if let Some(handle) = &self.handles[i] {
                if counted[i] != self.handle_count(handle.store_id) {
                    return false;
                }
            }
            i += 1;
        }
        true
    }
}

/// An instruction that asks a handle leaves all handles in their places, with their stores and the way
/// they refresh.
pub proof fn law_queries_keep_handles(
    machine: MachineView,
    instruction: Instruction,
    reply: Reply,
    valid: bool,
    index: int,
)
    requires
        machine.wf(),
        asks_handle(instruction.opcode),
        0 <= index < NUM_HANDLES,
    ensures
        machine.begun(instruction, valid).0 == machine,
        ({
            let after = machine.concluded(instruction, reply, valid).0;
            match (machine.handles[index], after.handles[index]) {
                (Some(before), Some(after)) => before.store_id == after.store_id && before.stable
                    == after.stable && before.refresh == after.refresh,
                (None, None) => true,
                _ => false,
            }
        }),
{
}

proof fn lemma_count_after_update(
    handles: Seq<Option<HandleView>>,
    place: int,
    handle: Option<HandleView>,
    store_id: u32,
)
    requires
        0 <= place < handles.len(),
    ensures
        count_handles(handles.update(place, handle), store_id) == count_handles(handles, store_id) - (
        if belongs(handles[place], store_id) {
            1int
        } else {
            0
        }) + (if belongs(handle, store_id) {
            1int
        } else {
            0
        }),
    decreases handles.len(),
{
    let updated = handles.update(place, handle);
    if place == handles.len() - 1 {
        assert(updated.drop_last() =~= handles.drop_last());
    } else {
        lemma_count_after_update(handles.drop_last(), place, handle, store_id);
        assert(updated.drop_last() =~= handles.drop_last().update(place, handle));
    }
}

/// Whether a handle belongs to a store.
pub open spec fn belongs(handle: Option<HandleView>, store_id: u32) -> bool {
    handle matches Some(handle) && handle.store_id == store_id
}

/// A handle that is made of another one is one more for its store, unless it takes the place of one,
/// which is one less for the store of that.
pub proof fn law_clones_share_their_store(
    machine: MachineView,
    instruction: Instruction,
    valid: bool,
    handle: HandleView,
)
    requires
        machine.wf(),
        instruction.opcode == Opcode::Clone,
        machine.handle(instruction.b) == Some(handle),
    ensures
        machine.begun(instruction, valid).0.handles_of(handle.store_id) == machine.handles_of(
            handle.store_id,
        ) + (if belongs(machine.handle(instruction.a), handle.store_id) {
            0int
        } else {
            1
        }),
{
    lemma_count_after_update(
        machine.handles,
        place(instruction.a),
        Some(HandleView { observed: None, ..handle }),
        handle.store_id,
    );
}

/// Dropping a handle is one less for its store, and changes nothing for others.
pub proof fn law_dropped_handles_are_gone(
    machine: MachineView,
    instruction: Instruction,
    valid: bool,
    store_id: u32,
)
    requires
        machine.wf(),
        instruction.opcode == Opcode::Drop,
    ensures
        machine.begun(instruction, valid).0.handle(instruction.a) is None,
        machine.begun(instruction, valid).0.handles_of(store_id) == machine.handles_of(store_id) - (
        if belongs(machine.handle(instruction.a), store_id) {
            1int
        } else {
            0
        }),
{
    lemma_count_after_update(machine.handles, place(instruction.a), None, store_id);
}

/// A store that is opened has a number that the one before does not have.
pub proof fn law_stores_are_numbered(machine: MachineView, instruction: Instruction, valid: bool)
    requires
        machine.wf(),
        instruction.opcode == Opcode::Open,
    ensures
        machine.begun(instruction, valid).0.next_store_id != machine.next_store_id,
        belongs(machine.begun(instruction, valid).0.handle(instruction.a), machine.next_store_id),
{
}

} // verus!
