//! The object store: how it is opened, what it counts, and when it hands out packs.

use vstd::prelude::*;
use vstd::string::StringExecFns;

use crate::bytes::lemma_sorts_before_is_an_order;
use crate::bytes::less_than;
use crate::bytes::sorts_before;
use crate::foreign::lossy_text;
use crate::foreign::show_lossy;
use crate::oid::HashKind;
use crate::oid::ObjectId;

verus! {

/// The compression level of loose objects unless another one is configured.
pub const BEST_SPEED: i32 = 1;

/// The result of a filesystem-backed load attempt.
#[non_exhaustive]
#[derive(Clone, Copy, Debug, Eq, PartialEq, Structural)]
pub enum LoadOutcome {
    /// The file was loaded successfully.
    Success,
    /// Loading the file failed.
    Failure,
}

/// A synchronization point in concurrent object-database processing.
#[non_exhaustive]
#[derive(Clone, Copy, Debug, Eq, PartialEq, Structural)]
pub enum Point {
    /// An index slot was claimed for loading. No Store or slot lock is held.
    IndexLoadClaimed {
        /// The claimed slot-map index.
        slot: usize,
    },
    /// A loader found all index slots claimed by other loaders. No Store or slot lock is held.
    IndexLoadWaiting,
    /// Snapshot collection is waiting for an in-progress index load. No Store or slot lock is held.
    SnapshotWaitingForIndexLoad,
    /// The claimed index slot was locked, immediately before its file is loaded.
    ///
    /// The slot lock is held while the hook runs.
    IndexSlotLocked {
        /// The locked slot-map index.
        slot: usize,
    },
    /// An index load attempt finished and its result was stored.
    ///
    /// The slot lock is held while the hook runs.
    IndexLoadCompleted {
        /// The loaded slot-map index.
        slot: usize,
        /// Whether the load succeeded.
        outcome: LoadOutcome,
    },
    /// A pack loader is about to acquire its slot lock.
    PackSlotLocking {
        /// The pack's slot-map index.
        slot: usize,
        /// The pack index within a multi-pack index, or `None` for a standalone pack.
        pack_index: Option<u32>,
    },
    /// A pack loader acquired its slot lock, immediately before checking or loading the file.
    ///
    /// The slot lock is held while the hook runs.
    PackSlotLocked {
        /// The pack's slot-map index.
        slot: usize,
        /// The pack index within a multi-pack index, or `None` for a standalone pack.
        pack_index: Option<u32>,
    },
    /// A filesystem-backed pack load attempt finished.
    ///
    /// The slot lock is held while the hook runs. Cached outcomes do not emit this point.
    PackLoadCompleted {
        /// The pack's slot-map index.
        slot: usize,
        /// The pack index within a multi-pack index, or `None` for a standalone pack.
        pack_index: Option<u32>,
        /// Whether the load succeeded.
        outcome: LoadOutcome,
    },
    /// A refresh is about to acquire the Store write lock.
    RefreshLocking,
    /// A refresh acquired the Store write lock.
    ///
    /// The Store write lock is held while the hook runs.
    RefreshLockAcquired,
    /// A refresh is about to inspect the object database on disk.
    ///
    /// The Store write lock is held while the hook runs.
    RefreshScanStarted,
    /// A refresh finished inspecting the object database on disk.
    ///
    /// The Store write lock is held while the hook runs.
    RefreshScanCompleted {
        /// Whether the refresh succeeded.
        outcome: LoadOutcome,
    },
    /// A new index state was published.
    ///
    /// The Store write lock is held while the hook runs.
    IndexStatePublished,
}

/// Decide what happens when all indices are loaded.
#[derive(Clone, Copy, Debug, Eq, PartialEq, Structural)]
pub enum RefreshMode {
    /// Check for new or changed pack indices (and pack data files) when the last known index is loaded.
    /// During runtime handles configured for stable pack locations retain the corresponding indices and packs.
    AfterAllIndicesLoaded,
    /// Check for new or changed pack indices only if the last successful refresh is at least this
    /// old, in nanoseconds.
    ///
    /// This throttles filesystem scans caused by repeated misses. A duration of zero behaves like
    /// [`AfterAllIndicesLoaded`](Self::AfterAllIndicesLoaded).
    AfterDuration(u128),
    /// Use this if you expect a lot of missing objects that shouldn't trigger refreshes even after all packs are loaded.
    /// This comes at the risk of not learning that the packs have changed in the mean time.
    Never,
}

impl Default for RefreshMode {
    fn default() -> (mode: Self)
        ensures
            mode == RefreshMode::AfterAllIndicesLoaded,
    {
        RefreshMode::AfterAllIndicesLoaded
    }
}

impl RefreshMode {
    /// Set this refresh mode to never refresh.
    pub fn never(&mut self)
        ensures
            *final(self) == RefreshMode::Never,
    {
        *self = RefreshMode::Never;
    }
}

/// How one index is to be loaded.
#[derive(Clone, Copy, Debug, Eq, PartialEq, Structural)]
pub struct IndexCtx {
    /// What happens when all indices are loaded.
    pub refresh_mode: RefreshMode,
    /// Whether the state on disk is looked at in any case.
    pub force_refresh: bool,
    /// The generation of the indices that are known.
    pub generation: u32,
    /// The compression level of loose object databases that are opened.
    pub loose_compression: i32,
}

impl IndexCtx {
    /// The same, but the state on disk is looked at in any case.
    pub fn force_refresh(self) -> (ctx: IndexCtx)
        ensures
            ctx == (IndexCtx { force_refresh: true, ..self }),
    {
        IndexCtx { force_refresh: true, ..self }
    }
}

/// Something like an object database that forgets what is written to it.
#[derive(Clone, Copy, Debug, Eq, PartialEq, Structural)]
pub struct Sink {
    /// The level to compress with, if anything is compressed.
    pub compression: Option<i32>,
    /// The kind of hash that names what is written.
    pub object_hash: HashKind,
}

/// Create a new [`Sink`] with compression disabled.
pub fn sink(object_hash: HashKind) -> (sink: Sink)
    ensures
        sink == (Sink { compression: None, object_hash }),
{
    Sink { compression: None, object_hash }
}

/// Configures the initial size and possible growth of the index slot map.
#[derive(Clone, Copy, Debug, Eq, PartialEq, Structural)]
pub enum Slots {
    /// The maximum number of indices the store can hold.
    /// This avoids an initial directory listing and provides an explicit resource bound.
    ///
    /// Note that this won't affect their packs, as each index can have one or more packs associated with it.
    Limit(u16),
    /// Start with `initial` slots without reading the object database and grow as needed.
    Growable {
        /// The number of slots allocated when opening the store.
        initial: u16,
    },
    /// Compute the initial number of slots from the disk state and grow as needed.
    AsNeededByDiskState {
        /// The minimum number of slots to assume
        minimum: usize,
    },
}

impl Default for Slots {
    fn default() -> (slots: Self)
        ensures
            slots == (Slots::Growable { initial: 32 }),
    {
        Slots::Growable { initial: 32 }
    }
}

/// The slots that are allocated when a store is opened, given how many the disk state suggests.
pub open spec fn initial_slots(slots: Slots, suggested: usize) -> usize {
    match slots {
        Slots::Limit(limit) => limit as usize,
        Slots::Growable { initial } => initial as usize,
        Slots::AsNeededByDiskState { minimum } => if suggested < minimum {
            minimum
        } else {
            suggested
        },
    }
}

/// The number of slots that a store never exceeds, if there is one.
pub open spec fn limit_of(slots: Slots) -> Option<usize> {
    match slots {
        Slots::Limit(limit) => Some(limit as usize),
        _ => None,
    }
}

impl Slots {
    /// Whether the state on disk has to be known before a store can be opened.
    pub fn needs_disk_state(self) -> (needs: bool)
        ensures
            needs == (self is AsNeededByDiskState),
    {
        matches!(self, Slots::AsNeededByDiskState { .. })
    }

    /// The slots that are allocated when a store is opened, and the number that it never exceeds,
    /// given how many the disk state suggests.
    pub fn plan(self, suggested: usize) -> (plan: (usize, Option<usize>))
        ensures
            plan.0 == initial_slots(self, suggested),
            plan.1 == limit_of(self),
    {
        match self {
            Slots::Limit(limit) => (limit as usize, Some(limit as usize)),
            Slots::Growable { initial } => (initial as usize, None),
            Slots::AsNeededByDiskState { minimum } => if suggested < minimum {
                (minimum, None)
            } else {
                (suggested, None)
            },
        }
    }
}

/// Options to open a store with.
#[derive(Clone, Debug)]
pub struct Options {
    /// How to obtain a size for the slot map.
    pub slots: Slots,
    /// The kind of hash we expect in our packs and would use for loose object iteration and object writing.
    pub object_hash: HashKind,
    /// If false, no multi-pack indices will be used. If true, they will be used if their hash matches `object_hash`.
    pub use_multi_pack_index: bool,
    /// The maximum size of a single allocation caused by user-controlled on-disk pack data.
    ///
    /// If `None`, no additional limit is enforced.
    pub alloc_limit_bytes: Option<usize>,
    /// The current directory of the process at the time of instantiation.
    /// If unset, the process is asked for it.
    pub current_dir: Option<Vec<u8>>,
    /// The compression level to use when writing loose objects.
    pub loose_compression: i32,
}

impl Default for Options {
    fn default() -> (options: Self)
        ensures
            options.slots == (Slots::Growable { initial: 32 }),
            options.object_hash == HashKind::Sha1,
            options.use_multi_pack_index,
            options.alloc_limit_bytes is None,
            options.current_dir is None,
            options.loose_compression == BEST_SPEED,
            options.loose_compression == 1,
    {
        Options {
            slots: Slots::Growable { initial: 32 },
            object_hash: HashKind::Sha1,
            use_multi_pack_index: true,
            alloc_limit_bytes: None,
            current_dir: None,
            loose_compression: BEST_SPEED,
        }
    }
}

/// What is known of a pack.
#[derive(Clone, Copy, Debug, Eq, PartialEq, Structural)]
pub enum PackState {
    /// Nothing, as its file was not read, or could not be.
    Unloaded,
    /// It is loaded, and the given number, under which it was recorded, stands for it.
    Loaded(u64),
    /// Its file was not there. That is remembered until a refresh puts other files in the slot.
    Missing,
}

/// The files in a slot.
#[derive(Clone, Debug, Eq, PartialEq)]
pub enum IndexAndPacks {
    /// An index with its pack, whether the former is loaded, and what is known of the latter.
    Index { index_loaded: bool, pack: PackState },
    /// An index over several packs, whether it is loaded, and what is known of each of them.
    MultiIndex { index_loaded: bool, packs: Vec<PackState> },
}

/// A place for an index and its packs.
#[derive(Clone, Debug, Eq, PartialEq)]
pub struct Slot {
    /// The generation in which the files were put here.
    pub generation: u32,
    /// The files, if there are any.
    pub files: Option<IndexAndPacks>,
}

/// An object store.
#[derive(Clone, Debug)]
pub struct Store {
    /// The directory with the objects.
    pub path: Vec<u8>,
    /// The directory that the process was in as the store was opened.
    pub current_dir: Vec<u8>,
    /// Pairs of an object and the one that replaces it, sorted by the former.
    pub replacements: Vec<(ObjectId, ObjectId)>,
    /// How often the slots were put to other use.
    pub generation: u32,
    /// The slots in use, in the order in which they are searched.
    pub slot_indices: Vec<usize>,
    /// All slots.
    pub slots: Vec<Slot>,
    /// How many databases of loose objects are known.
    pub loose_dbs: usize,
    /// The number of slots that is never exceeded.
    pub slot_limit: Option<usize>,
    /// Whether indices over several packs are used.
    pub use_multi_pack_index: bool,
    /// The kind of hash that names objects.
    pub object_hash: HashKind,
    /// The maximum size of an allocation.
    pub alloc_limit_bytes: Option<usize>,
    /// The compression level of loose objects.
    pub loose_compression: i32,
    /// How many handles there are.
    pub num_handles: usize,
    /// How often the state on disk was looked at.
    pub num_refreshes: usize,
}

/// What keeps a store from being opened.
#[derive(Debug, Eq, PartialEq)]
pub enum OpenError {
    /// This is not a directory.
    NotADirectory(Vec<u8>),
}

impl OpenError {
    /// What the error says.
    pub fn message(&self) -> (text: String)
        ensures
            self matches OpenError::NotADirectory(path) ==> text@ == "'"@ + lossy_text(path@)
                + "' wasn't a directory"@,
    {
        match self {
            OpenError::NotADirectory(path) => {
                let shown = show_lossy(path.as_slice());
                "'".to_owned().concat(shown.as_str()).concat("' wasn't a directory")
            },
        }
    }
}

/// The object databases to look into for the state on disk: the one that is opened, and then its
/// alternates.
pub fn disk_state_paths(objects_dir: Vec<u8>, alternates: Vec<Vec<u8>>) -> (paths: Vec<Vec<u8>>)
    ensures
        paths@ == seq![objects_dir] + alternates@,
{
    let mut paths = alternates;
    paths.insert(0, objects_dir);
    assert(paths@ =~= seq![objects_dir] + alternates@);
    paths
}

/// The order of object ids: shorter hashes first, and byte by byte otherwise.
pub open spec fn id_before(left: Seq<u8>, right: Seq<u8>) -> bool {
    left.len() < right.len() || (left.len() == right.len() && sorts_before(left, right))
}

/// What a list of replacements says.
pub open spec fn pairs(list: Seq<(ObjectId, ObjectId)>) -> Seq<(Seq<u8>, Seq<u8>)> {
    list.map_values(|pair: (ObjectId, ObjectId)| (pair.0@, pair.1@))
}

/// Whether a list of replacements is sorted by what is replaced.
pub open spec fn is_sorted(list: Seq<(Seq<u8>, Seq<u8>)>) -> bool {
    forall|i: int, j: int|
        #![trigger list[i], list[j]]
        0 <= i < j < list.len() ==> !id_before(list[j].0, list[i].0)
}

/// The replacements of one object, in their order.
pub open spec fn replacements_of(list: Seq<(Seq<u8>, Seq<u8>)>, id: Seq<u8>) -> Seq<
    (Seq<u8>, Seq<u8>),
> {
    list.filter(|pair: (Seq<u8>, Seq<u8>)| pair.0 == id)
}

/// Whether `sorted` is `list` in the order of what is replaced, where replacements of the same object
/// stay in their order.
pub open spec fn is_stable_sort(
    list: Seq<(Seq<u8>, Seq<u8>)>,
    sorted: Seq<(Seq<u8>, Seq<u8>)>,
) -> bool {
    &&& sorted.len() == list.len()
    &&& is_sorted(sorted)
    &&& forall|id: Seq<u8>| #[trigger] replacements_of(sorted, id) == replacements_of(list, id)
}

fn is_before(left: &ObjectId, right: &ObjectId) -> (before: bool)
    ensures
        before == id_before(left@, right@),
{
    left.bytes.len() < right.bytes.len() || (left.bytes.len() == right.bytes.len() && less_than(
        left.bytes.as_slice(),
        right.bytes.as_slice(),
    ))
}

proof fn lemma_id_before_is_an_order(a: Seq<u8>, b: Seq<u8>, c: Seq<u8>)
    ensures
        !id_before(a, a),
        id_before(a, b) ==> !id_before(b, a),
        id_before(a, b) && !id_before(c, b) ==> id_before(a, c),
        !id_before(b, a) && !id_before(c, b) ==> !id_before(c, a),
{
    lemma_sorts_before_is_an_order(a, b, c);
    lemma_sorts_before_is_an_order(c, a, b);
    lemma_sorts_before_is_an_order(b, a, c);
    lemma_sorts_before_is_an_order(b, c, a);
    lemma_sorts_before_is_an_order(c, b, a);
    lemma_sorts_before_is_an_order(a, c, b);
}

proof fn lemma_insertion_keeps_order(
    sorted: Seq<(Seq<u8>, Seq<u8>)>,
    place: int,
    pair: (Seq<u8>, Seq<u8>),
)
    requires
        is_sorted(sorted),
        0 <= place <= sorted.len(),
        forall|i: int| place <= i < sorted.len() ==> id_before(pair.0, (#[trigger] sorted[i]).0),
        place > 0 ==> !id_before(pair.0, sorted[place - 1].0),
    ensures
        is_sorted(sorted.insert(place, pair)),
        forall|id: Seq<u8>| #[trigger]
            replacements_of(sorted.insert(place, pair), id) == (if id == pair.0 {
                replacements_of(sorted, id).push(pair)
            } else {
                replacements_of(sorted, id)
            }),
{
    let grown = sorted.insert(place, pair);
    assert forall|i: int, j: int|
        #![trigger grown[i], grown[j]]
        0 <= i < j < grown.len() implies !id_before(grown[j].0, grown[i].0) by {
        if j < place {
            assert(grown[i] == sorted[i] && grown[j] == sorted[j]);
        } else if j == place {
            assert(grown[i] == sorted[i]);
            if i < place - 1 {
                assert(!id_before(sorted[place - 1].0, sorted[i].0));
                lemma_id_before_is_an_order(sorted[i].0, sorted[place - 1].0, pair.0);
            }
        } else if i == place {
            assert(grown[j] == sorted[j - 1]);
            lemma_id_before_is_an_order(pair.0, sorted[j - 1].0, pair.0);
        } else if i < place {
            assert(grown[i] == sorted[i] && grown[j] == sorted[j - 1]);
        } else {
            assert(grown[i] == sorted[i - 1] && grown[j] == sorted[j - 1]);
        }
    }
    assert forall|id: Seq<u8>| #[trigger]
        replacements_of(grown, id) == (if id == pair.0 {
            replacements_of(sorted, id).push(pair)
        } else {
            replacements_of(sorted, id)
        }) by {
        let keep = |pair: (Seq<u8>, Seq<u8>)| pair.0 == id;
        let low = sorted.take(place);
        let high = sorted.skip(place);
        assert(sorted =~= low + high);
        assert(grown =~= (low + seq![pair]) + high);
        Seq::filter_distributes_over_add(low, high, keep);
        Seq::filter_distributes_over_add(low + seq![pair], high, keep);
        Seq::filter_distributes_over_add(low, seq![pair], keep);
        reveal_with_fuel(Seq::filter, 2);
        assert(seq![pair].drop_last() =~= Seq::empty());
        if id == pair.0 {
            assert(seq![pair].filter(keep) =~= seq![pair]);
            lemma_filter_to_nothing(high, id);
            assert(replacements_of(grown, id) =~= replacements_of(sorted, id).push(pair));
        } else {
            assert(seq![pair].filter(keep) =~= Seq::empty());
            assert(replacements_of(grown, id) =~= replacements_of(sorted, id));
        }
    }
}

proof fn lemma_filter_to_nothing(list: Seq<(Seq<u8>, Seq<u8>)>, id: Seq<u8>)
    requires
        forall|i: int| 0 <= i < list.len() ==> id_before(id, (#[trigger] list[i]).0),
    ensures
        replacements_of(list, id) == Seq::<(Seq<u8>, Seq<u8>)>::empty(),
    decreases list.len(),
{
    reveal(Seq::filter);
    if list.len() > 0 {
        lemma_id_before_is_an_order(id, id, id);
        assert(id_before(id, list[list.len() - 1].0));
        assert forall|i: int| 0 <= i < list.drop_last().len() implies id_before(
            id,
            (#[trigger] list.drop_last()[i]).0,
        ) by {
            assert(list.drop_last()[i] == list[i]);
        }
        lemma_filter_to_nothing(list.drop_last(), id);
    }
}

/// The replacements in the order of what is replaced; those of the same object stay in their order.
pub fn sort_replacements(list: Vec<(ObjectId, ObjectId)>) -> (sorted: Vec<(ObjectId, ObjectId)>)
    ensures
        is_stable_sort(pairs(list@), pairs(sorted@)),
{
    let ghost all = pairs(list@);
    let mut sorted: Vec<(ObjectId, ObjectId)> = Vec::new();
    let mut i: usize = 0;
    proof {
        reveal(Seq::filter);
        assert(all.take(0) =~= pairs(sorted@));
    }
    while i < list.len()
        invariant
            i <= list.len(),
            all == pairs(list@),
            is_stable_sort(all.take(i as int), pairs(sorted@)),
        decreases list.len() - i,
    {
        let old_id = list[i].0.copy();
        let new_id = list[i].1.copy();
        let ghost pair = (old_id@, new_id@);
        let ghost before = pairs(sorted@);
        let mut place: usize = sorted.len();
        while place > 0 && is_before(&old_id, &sorted[place - 1].0)
            invariant
                place <= sorted.len(),
                before == pairs(sorted@),
                pair.0 == old_id@,
                forall|k: int|
                    place <= k < sorted@.len() ==> id_before(pair.0, (#[trigger] before[k]).0),
            decreases place,
        {
            assert(before[place - 1].0 == sorted@[place - 1].0@);
            place -= 1;
        }
        proof {
            if place > 0 {
                assert(before[place - 1].0 == sorted@[place - 1].0@);
            }
            lemma_insertion_keeps_order(before, place as int, pair);
        }
        sorted.insert(place, (old_id, new_id));
        proof {
            assert(pairs(sorted@) =~= before.insert(place as int, pair));
            let earlier = all.take(i as int);
            assert(all.take(i + 1) =~= earlier.push(pair));
            assert(all.take(i + 1).drop_last() =~= earlier);
            assert forall|id: Seq<u8>| #[trigger]
                replacements_of(pairs(sorted@), id) == replacements_of(all.take(i + 1), id) by {
                reveal(Seq::filter);
                assert(replacements_of(before, id) == replacements_of(earlier, id));
            }
        }
        i += 1;
    }
    assert(all.take(i as int) =~= all);
    sorted
}

impl Store {
    /// Every slot in use exists.
    pub open spec fn wf(&self) -> bool {
        forall|i: int|
            0 <= i < self.slot_indices@.len() ==> #[trigger] self.slot_indices@[i]
                < self.slots@.len()
    }

    /// Opens the store at `objects_dir`, which must be a directory, without looking into it: the
    /// slots are all empty. `process_dir` is the directory of the process, which counts if the
    /// options give none, and `suggested_slots` is how many slots the state on disk suggests, which
    /// counts if the options ask for it. `replacements` are pairs of an object and the one
    /// that replaces it.
    pub fn at_opts(
        objects_dir: Vec<u8>,
        is_directory: bool,
        process_dir: Vec<u8>,
        suggested_slots: usize,
        replacements: Vec<(ObjectId, ObjectId)>,
        options: Options,
    ) -> (store: Result<Store, OpenError>)
        ensures
            match store {
                Err(err) => !is_directory && err == OpenError::NotADirectory(objects_dir),
                Ok(store) => {
                    &&& is_directory
                    &&& store.wf()
                    &&& store.path == objects_dir
                    &&& store.current_dir == (match options.current_dir {
                        Some(dir) => dir,
                        None => process_dir,
                    })
                    &&& is_stable_sort(pairs(replacements@), pairs(store.replacements@))
                    &&& store.generation == 0
                    &&& store.slot_indices@.len() == 0
                    &&& store.slots@.len() == initial_slots(options.slots, suggested_slots)
                    &&& forall|i: int|
                        0 <= i < store.slots@.len() ==> #[trigger] store.slots@[i] == (Slot {
                            generation: 0,
                            files: None,
                        })
                    &&& store.slot_limit == limit_of(options.slots)
                    &&& store.use_multi_pack_index == options.use_multi_pack_index
                    &&& store.object_hash == options.object_hash
                    &&& store.alloc_limit_bytes == options.alloc_limit_bytes
                    &&& store.loose_compression == options.loose_compression
                    &&& store.loose_dbs == 0 && store.num_handles == 0 && store.num_refreshes == 0
                },
            },
    {
        let current_dir = match options.current_dir {
            Some(dir) => dir,
            None => process_dir,
        };
        if !is_directory {
            return Err(OpenError::NotADirectory(objects_dir));
        }
        let (slot_count, slot_limit): (usize, Option<usize>) = options.slots.plan(suggested_slots);
        let replacements = sort_replacements(replacements);
        let mut slots: Vec<Slot> = Vec::new();
        let mut i: usize = 0;
        while i < slot_count
            invariant
                i <= slot_count,
                slots@.len() == i,
                forall|k: int|
                    0 <= k < i ==> #[trigger] slots@[k] == (Slot { generation: 0, files: None }),
            decreases slot_count - i,
        {
            slots.push(Slot { generation: 0, files: None });
            i += 1;
        }
        Ok(
            Store {
                path: objects_dir,
                current_dir,
                replacements,
                generation: 0,
                slot_indices: Vec::new(),
                slots,
                loose_dbs: 0,
                slot_limit,
                use_multi_pack_index: options.use_multi_pack_index,
                object_hash: options.object_hash,
                alloc_limit_bytes: options.alloc_limit_bytes,
                loose_compression: options.loose_compression,
                num_handles: 0,
                num_refreshes: 0,
            },
        )
    }
}

/// What goes on in a store.
#[derive(Clone, Copy, Debug, Eq, PartialEq, Structural)]
pub struct Metrics {
    /// How many handles there are.
    pub num_handles: usize,
    /// How often the state on disk was looked at.
    pub num_refreshes: usize,
    /// How many packs in the slots in use are loaded.
    pub open_reachable_packs: usize,
    /// How many indices in the slots in use are loaded.
    pub open_reachable_indices: usize,
    /// How many indices are in the slots in use.
    pub known_reachable_indices: usize,
    /// How many packs are in the slots in use.
    pub known_packs: usize,
    /// How many slots hold nothing.
    pub unused_slots: usize,
    /// How many databases of loose objects are known.
    pub loose_dbs: usize,
    /// How many loaded indices are in no slot in use.
    pub unreachable_indices: usize,
    /// How many loaded packs are in no slot in use.
    pub unreachable_packs: usize,
}

/// How often `value` occurs in `list`.
pub open spec fn count(list: Seq<bool>, value: bool) -> int
    decreases list.len(),
{
    if list.len() == 0 {
        0
    } else {
        count(list.drop_last(), value) + (if list.last() == value {
            1int
        } else {
            0
        })
    }
}

/// The sum of `list`.
pub open spec fn sum(list: Seq<int>) -> int
    decreases list.len(),
{
    if list.len() == 0 {
        0
    } else {
        sum(list.drop_last()) + list.last()
    }
}

/// Which of the packs are loaded.
pub open spec fn are_loaded(packs: Seq<PackState>) -> Seq<bool> {
    packs.map_values(|pack: PackState| pack is Loaded)
}

/// How many loaded packs there are among `files`.
pub open spec fn loaded_packs(files: Option<IndexAndPacks>) -> int {
    match files {
        Some(IndexAndPacks::Index { pack, .. }) => if pack is Loaded {
            1
        } else {
            0
        },
        Some(IndexAndPacks::MultiIndex { packs, .. }) => count(are_loaded(packs@), true),
        None => 0,
    }
}

/// How many packs there are among `files`.
pub open spec fn all_packs(files: Option<IndexAndPacks>) -> int {
    match files {
        Some(IndexAndPacks::Index { .. }) => 1,
        Some(IndexAndPacks::MultiIndex { packs, .. }) => packs@.len() as int,
        None => 0,
    }
}

/// How many loaded indices there are among `files`.
pub open spec fn loaded_indices(files: Option<IndexAndPacks>) -> int {
    match files {
        Some(IndexAndPacks::Index { index_loaded, .. }) => if index_loaded {
            1
        } else {
            0
        },
        Some(IndexAndPacks::MultiIndex { index_loaded, .. }) => if index_loaded {
            1
        } else {
            0
        },
        None => 0,
    }
}

/// How many indices there are among `files`.
pub open spec fn all_indices(files: Option<IndexAndPacks>) -> int {
    if files is Some {
        1
    } else {
        0
    }
}

impl Store {
    /// What the slots in use hold, in their order.
    pub open spec fn reachable(&self) -> Seq<Option<IndexAndPacks>> {
        self.slot_indices@.map_values(|index: usize| self.slots@[index as int].files)
    }

    /// Return metrics, giving an idea of what's currently going on in the store.
    ///
    /// Use this to decide whether a new instance should be created to get a chance at dropping all open handles.
    pub fn metrics(&self) -> (metrics: Metrics)
        requires
            self.wf(),
            sum(self.reachable().map_values(|files| all_packs(files))) <= usize::MAX,
        ensures
            metrics.num_handles == self.num_handles,
            metrics.num_refreshes == self.num_refreshes,
            metrics.open_reachable_packs == sum(
                self.reachable().map_values(|files| loaded_packs(files)),
            ),
            metrics.open_reachable_indices == sum(
                self.reachable().map_values(|files| loaded_indices(files)),
            ),
            metrics.known_reachable_indices == sum(
                self.reachable().map_values(|files| all_indices(files)),
            ),
            metrics.known_packs == sum(self.reachable().map_values(|files| all_packs(files))),
            metrics.unused_slots == count(self.slots@.map_values(|slot: Slot| slot.files is None), true),
            metrics.loose_dbs == self.loose_dbs,
            metrics.unreachable_indices == 0,
            metrics.unreachable_packs == 0,
            metrics.open_reachable_packs <= metrics.known_packs,
            metrics.open_reachable_indices <= metrics.known_reachable_indices,
            metrics.known_reachable_indices <= self.slot_indices@.len(),
            metrics.unused_slots <= self.slots@.len(),
    {
        let ghost reachable = self.reachable();
        let ghost all = reachable.map_values(|files| all_packs(files));
        let ghost open = reachable.map_values(|files| loaded_packs(files));
        let ghost indices = reachable.map_values(|files| all_indices(files));
        let ghost open_idx = reachable.map_values(|files| loaded_indices(files));
        let mut open_packs: usize = 0;
        let mut open_indices: usize = 0;
        let mut known_packs: usize = 0;
        let mut known_indices: usize = 0;
        let mut i: usize = 0;
        while i < self.slot_indices.len()
            invariant
                i <= self.slot_indices.len(),
                self.wf(),
                reachable == self.reachable(),
                all == reachable.map_values(|files| all_packs(files)),
                open == reachable.map_values(|files| loaded_packs(files)),
                indices == reachable.map_values(|files| all_indices(files)),
                open_idx == reachable.map_values(|files| loaded_indices(files)),
                sum(all) <= usize::MAX,
                open_packs == sum(open.take(i as int)),
                known_packs == sum(all.take(i as int)),
                open_indices == sum(open_idx.take(i as int)),
                known_indices == sum(indices.take(i as int)),
                open_packs <= known_packs,
                open_indices <= known_indices <= i,
            decreases self.slot_indices.len() - i,
        {
            let slot = &self.slots[self.slot_indices[i]];
            proof {
                assert(reachable[i as int] == slot.files);
                lemma_take_sum(open, i as int);
                lemma_take_sum(all, i as int);
                lemma_take_sum(open_idx, i as int);
                lemma_take_sum(indices, i as int);
                lemma_sum_grows(all, i + 1);
            }
            match &slot.files {
                Some(IndexAndPacks::Index { index_loaded, pack }) => {
                    if *index_loaded {
                        open_indices += 1;
                    }
                    known_indices += 1;
                    if matches!(pack, PackState::Loaded(_)) {
                        open_packs += 1;
                    }
                    known_packs += 1;
                },
                Some(IndexAndPacks::MultiIndex { index_loaded, packs }) => {
                    if *index_loaded {
                        open_indices += 1;
                    }
                    known_indices += 1;
                    let (loaded, known): (usize, usize) = (
                        count_loaded(packs),
                        packs.len(),
                    );
                    open_packs += loaded;
                    known_packs += known;
                },
                None => {},
            }
            i += 1;
        }
        proof {
            assert(open.take(i as int) =~= open);
            assert(all.take(i as int) =~= all);
            assert(open_idx.take(i as int) =~= open_idx);
            assert(indices.take(i as int) =~= indices);
        }
        let ghost empty = self.slots@.map_values(|slot: Slot| slot.files is None);
        let mut unused_slots: usize = 0;
        let mut k: usize = 0;
        while k < self.slots.len()
            invariant
                k <= self.slots.len(),
                empty == self.slots@.map_values(|slot: Slot| slot.files is None),
                unused_slots == count(empty.take(k as int), true),
                unused_slots <= k,
            decreases self.slots.len() - k,
        {
            proof {
                assert(empty.take(k + 1).drop_last() =~= empty.take(k as int));
                assert(empty.take(k + 1).last() == (self.slots@[k as int].files is None));
            }
            if self.slots[k].files.is_none() {
                unused_slots += 1;
            }
            k += 1;
        }
        assert(empty.take(k as int) =~= empty);
        Metrics {
            num_handles: self.num_handles,
            num_refreshes: self.num_refreshes,
            open_reachable_packs: open_packs,
            open_reachable_indices: open_indices,
            known_reachable_indices: known_indices,
            known_packs,
            unused_slots,
            loose_dbs: self.loose_dbs,
            unreachable_indices: 0,
            unreachable_packs: 0,
        }
    }
}

fn count_loaded(packs: &Vec<PackState>) -> (found: usize)
    ensures
        found == count(are_loaded(packs@), true),
        found <= packs@.len(),
{
    let ghost loaded = are_loaded(packs@);
    let mut found: usize = 0;
    let mut i: usize = 0;
    while i < packs.len()
        invariant
            i <= packs.len(),
            loaded == are_loaded(packs@),
            found == count(loaded.take(i as int), true),
            found <= i,
        decreases packs.len() - i,
    {
        proof {
            assert(loaded.take(i + 1).drop_last() =~= loaded.take(i as int));
            assert(loaded.take(i + 1).last() == (packs@[i as int] is Loaded));
        }
        if matches!(packs[i], PackState::Loaded(_)) {
            found += 1;
        }
        i += 1;
    }
    assert(loaded.take(i as int) =~= loaded);
    found
}

proof fn lemma_take_sum(list: Seq<int>, i: int)
    requires
        0 <= i < list.len(),
    ensures
        sum(list.take(i + 1)) == sum(list.take(i)) + list[i],
{
    assert(list.take(i + 1).drop_last() =~= list.take(i));
}

proof fn lemma_sum_grows(list: Seq<int>, i: int)
    requires
        0 <= i <= list.len(),
        forall|k: int| 0 <= k < list.len() ==> #[trigger] list[k] >= 0,
    ensures
        sum(list.take(i)) <= sum(list),
    decreases list.len() - i,
{
    if i < list.len() {
        lemma_take_sum(list, i);
        lemma_sum_grows(list, i + 1);
    } else {
        assert(list.take(i) =~= list);
    }
}

proof fn lemma_count_bound(list: Seq<bool>, value: bool)
    ensures
        0 <= count(list, value) <= list.len(),
    decreases list.len(),
{
    if list.len() > 0 {
        lemma_count_bound(list.drop_last(), value);
    }
}

proof fn lemma_sum_at_most(fewer: Seq<int>, more: Seq<int>)
    requires
        fewer.len() == more.len(),
        forall|i: int| 0 <= i < fewer.len() ==> #[trigger] fewer[i] <= more[i],
    ensures
        sum(fewer) <= sum(more),
    decreases fewer.len(),
{
    if fewer.len() > 0 {
        lemma_sum_at_most(fewer.drop_last(), more.drop_last());
    }
}

/// No more is loaded than is known: neither packs nor indices.
pub proof fn law_loaded_is_known(reachable: Seq<Option<IndexAndPacks>>)
    ensures
        sum(reachable.map_values(|files| loaded_packs(files))) <= sum(
            reachable.map_values(|files| all_packs(files)),
        ),
        sum(reachable.map_values(|files| loaded_indices(files))) <= sum(
            reachable.map_values(|files| all_indices(files)),
        ),
{
    let loaded = reachable.map_values(|files| loaded_packs(files));
    let all = reachable.map_values(|files| all_packs(files));
    assert forall|i: int| 0 <= i < loaded.len() implies #[trigger] loaded[i] <= all[i] by {
        if let Some(IndexAndPacks::MultiIndex { packs, .. }) = reachable[i] {
            lemma_count_bound(are_loaded(packs@), true);
        }
    }
    lemma_sum_at_most(loaded, all);
    lemma_sum_at_most(
        reachable.map_values(|files| loaded_indices(files)),
        reachable.map_values(|files| all_indices(files)),
    );
}

/// A pack that is asked for.
#[derive(Clone, Copy, Debug, Eq, PartialEq, Structural)]
pub struct PackRequest {
    /// The slot that it is in.
    pub slot: usize,
    /// Its place in an index over several packs, or nothing for a pack with its own index.
    pub pack_index: Option<u32>,
    /// The generation in which that was known.
    pub generation: u32,
}

/// What comes of a request for a pack, as far as it can be seen without a lock.
#[derive(Clone, Copy, Debug, Eq, PartialEq, Structural)]
pub enum PackLookup {
    /// What was known is out of date: there is no pack, and the indices should be loaded again.
    Stale,
    /// The pack is loaded: it is the one that this number stands for.
    Loaded(u64),
    /// The slot has to be locked to load the pack.
    Lock,
}

/// What comes of a request for a pack once its slot is locked.
#[derive(Clone, Copy, Debug, Eq, PartialEq, Structural)]
pub enum LockedLookup {
    /// The slot holds another index than expected: there is no pack, and the slot stays as it is.
    Replaced,
    /// The slot holds an index of another kind: there is no pack, and the files of the slot are put
    /// back.
    OtherKind,
    /// The pack is to be loaded unless it is by now or is known to be missing, and the files of the
    /// slot are put back.
    Load,
}

/// What came of loading a pack.
#[derive(Clone, Copy, Debug, Eq, PartialEq, Structural)]
pub enum PackOutcome {
    /// It is loaded, and this number stands for it from now on.
    Loaded(u64),
    /// It is not there any more.
    Missing,
    /// It can't be loaded.
    Failed,
}

/// What a request for a pack gets.
#[derive(Clone, Copy, Debug, Eq, PartialEq, Structural)]
pub enum PackAnswer {
    /// The pack that this number stands for.
    Pack(u64),
    /// No pack: the indices should be loaded again, and the lookup be redone with what is known then.
    Nothing,
    /// The file of the pack can't be loaded.
    Failure,
}

/// What comes next for a request for a pack whose slot is locked.
#[derive(Clone, Copy, Debug, Eq, PartialEq, Structural)]
pub enum LockedStep {
    /// This is the answer, and the slot keeps its files.
    Answer(PackAnswer),
    /// The file of the pack has to be read.
    ReadFile,
}

/// What is known of the pack that is asked for, if it is among `files`.
pub open spec fn pack_state(files: Option<IndexAndPacks>, pack_index: Option<u32>) -> Option<PackState> {
    match (files, pack_index) {
        (Some(IndexAndPacks::Index { pack, .. }), None) => Some(pack),
        (Some(IndexAndPacks::MultiIndex { packs, .. }), Some(pack_index)) => if pack_index
            < packs@.len() {
            Some(packs@[pack_index as int])
        } else {
            None
        },
        _ => None,
    }
}

/// What a request gets for what came of reading the file of its pack.
pub open spec fn answer_of(outcome: PackOutcome) -> PackAnswer {
    match outcome {
        PackOutcome::Loaded(number) => PackAnswer::Pack(number),
        PackOutcome::Missing => PackAnswer::Nothing,
        PackOutcome::Failed => PackAnswer::Failure,
    }
}

/// Whether `after` is `before`, but with a note of what came of reading the file of a pack: a pack that
/// is loaded or missing stays so, and one that can't be loaded is tried again.
pub open spec fn notes_outcome(
    pack_index: Option<u32>,
    before: Option<IndexAndPacks>,
    outcome: PackOutcome,
    after: Option<IndexAndPacks>,
) -> bool {
    &&& outcome == PackOutcome::Failed ==> after == before
    &&& pack_state(after, pack_index) == Some(
        match outcome {
            PackOutcome::Loaded(number) => PackState::Loaded(number),
            PackOutcome::Missing => PackState::Missing,
            PackOutcome::Failed => PackState::Unloaded,
        },
    )
    &&& loaded_indices(after) == loaded_indices(before)
    &&& all_indices(after) == all_indices(before)
    &&& all_packs(after) == all_packs(before)
    &&& forall|other: Option<u32>|
        other != pack_index ==> #[trigger] pack_state(after, other) == pack_state(before, other)
}

/// Whether `files` are of the kind that the request is about.
pub open spec fn is_asked_kind(files: Option<IndexAndPacks>, pack_index: Option<u32>) -> bool {
    match files {
        Some(IndexAndPacks::Index { .. }) => pack_index is None,
        Some(IndexAndPacks::MultiIndex { .. }) => pack_index is Some,
        None => false,
    }
}

impl PackRequest {
    /// Whether what was known when the pack was asked for is out of date.
    pub open spec fn is_stale(self, generation: u32, slot: Slot, index_matches: bool) -> bool {
        ||| generation != self.generation
        ||| slot.generation > self.generation
        ||| slot.files is None
        ||| !index_matches
        ||| pack_state(slot.files, self.pack_index) is None
    }

    /// What comes of this request, as far as it can be seen without a lock.
    pub open spec fn looked(self, generation: u32, slot: Slot, index_matches: bool) -> PackLookup {
        if self.is_stale(generation, slot, index_matches) {
            PackLookup::Stale
        } else {
            match pack_state(slot.files, self.pack_index) {
                Some(PackState::Loaded(number)) => PackLookup::Loaded(number),
                _ => PackLookup::Lock,
            }
        }
    }

    /// What comes of this request, as far as it can be seen without a lock. `generation` is that of
    /// the indices now, and `index_matches` is whether the slot holds the index that is expected.
    pub fn look(self, generation: u32, slot: &Slot, index_matches: bool) -> (lookup: PackLookup)
        ensures
            lookup == self.looked(generation, *slot, index_matches),
    {
        if generation != self.generation {
            return PackLookup::Stale;
        }
        if slot.generation > self.generation {
            return PackLookup::Stale;
        }
        if slot.files.is_none() || !index_matches {
            return PackLookup::Stale;
        }
        match self.state(&slot.files) {
            None => PackLookup::Stale,
            Some(PackState::Loaded(number)) => PackLookup::Loaded(number),
            Some(_) => PackLookup::Lock,
        }
    }

    /// What is known of the pack, if it is among `files`.
    fn state(self, files: &Option<IndexAndPacks>) -> (state: Option<PackState>)
        ensures
            state == pack_state(*files, self.pack_index),
    {
        match (files, self.pack_index) {
            (Some(IndexAndPacks::Index { pack, .. }), None) => Some(*pack),
            (Some(IndexAndPacks::MultiIndex { packs, .. }), Some(pack_index)) => {
                if (pack_index as usize) < packs.len() {
                    Some(packs[pack_index as usize])
                } else {
                    None
                }
            },
            _ => None,
        }
    }

    /// What comes of this request once the slot is locked. `files` are what the slot holds then, and
    /// `index_matches` is whether that is the index that is expected.
    pub fn look_locked(self, files: &Option<IndexAndPacks>, index_matches: bool) -> (lookup:
        LockedLookup)
        requires
            index_matches && files is Some && is_asked_kind(*files, self.pack_index) ==> pack_state(
                *files,
                self.pack_index,
            ) is Some,
        ensures
            lookup == (if files is None || !index_matches {
                LockedLookup::Replaced
            } else if is_asked_kind(*files, self.pack_index) {
                LockedLookup::Load
            } else {
                LockedLookup::OtherKind
            }),
            lookup == LockedLookup::Load ==> pack_state(*files, self.pack_index) is Some,
    {
        if files.is_none() || !index_matches {
            return LockedLookup::Replaced;
        }
        match (files, self.pack_index) {
            (Some(IndexAndPacks::Index { .. }), None) => LockedLookup::Load,
            (Some(IndexAndPacks::MultiIndex { .. }), Some(_)) => LockedLookup::Load,
            _ => LockedLookup::OtherKind,
        }
    }

    /// Whether the file has to be read: not if another request did so before the slot was locked, and
    /// either loaded the pack or found that it is missing.
    pub fn needs_file(self, files: &Option<IndexAndPacks>) -> (needs: bool)
        ensures
            needs == (pack_state(*files, self.pack_index) == Some(PackState::Unloaded)),
    {
        matches!(self.state(files), Some(PackState::Unloaded))
    }

    /// The pack, if it is loaded.
    pub fn loaded(self, files: &Option<IndexAndPacks>) -> (number: Option<u64>)
        ensures
            number == (match pack_state(*files, self.pack_index) {
                Some(PackState::Loaded(number)) => Some(number),
                _ => None,
            }),
    {
        match self.state(files) {
            Some(PackState::Loaded(number)) => Some(number),
            _ => None,
        }
    }

    /// Notes what came of reading the file of the pack in the files of the slot, which are then put
    /// back: a pack that is loaded or missing stays so, and one that can't be loaded is tried again.
    pub fn record(self, files: Option<IndexAndPacks>, outcome: PackOutcome) -> (files_after: Option<
        IndexAndPacks,
    >)
        requires
            pack_state(files, self.pack_index) == Some(PackState::Unloaded),
        ensures
            notes_outcome(self.pack_index, files, outcome, files_after),
            ({
                let state = match outcome {
                    PackOutcome::Loaded(number) => PackState::Loaded(number),
                    PackOutcome::Missing => PackState::Missing,
                    PackOutcome::Failed => PackState::Unloaded,
                };
                match (files, files_after) {
                    (
                        Some(IndexAndPacks::Index { index_loaded: before, .. }),
                        Some(IndexAndPacks::Index { index_loaded, pack }),
                    ) => self.pack_index is None && index_loaded == before && pack == state,
                    (
                        Some(IndexAndPacks::MultiIndex { index_loaded: before, packs: packs_before }),
                        Some(IndexAndPacks::MultiIndex { index_loaded, packs }),
                    ) => self.pack_index is Some && index_loaded == before && packs@
                        == packs_before@.update(self.pack_index.unwrap() as int, state),
                    _ => false,
                }
            }),
    {
        let state = match outcome {
            PackOutcome::Loaded(number) => PackState::Loaded(number),
            PackOutcome::Missing => PackState::Missing,
            PackOutcome::Failed => return files,
        };
        match (files, self.pack_index) {
            (Some(IndexAndPacks::Index { index_loaded, .. }), None) => Some(
                IndexAndPacks::Index { index_loaded, pack: state },
            ),
            (Some(IndexAndPacks::MultiIndex { index_loaded, packs }), Some(pack_index)) => {
                let mut packs = packs;
                packs[pack_index as usize] = state;
                Some(IndexAndPacks::MultiIndex { index_loaded, packs })
            },
            (files, _) => files,
        }
    }

    /// What comes next once the slot is locked, in which `files` are.
    pub open spec fn locked(self, files: Option<IndexAndPacks>, index_matches: bool) -> LockedStep {
        if files is None || !index_matches || !is_asked_kind(files, self.pack_index) {
            LockedStep::Answer(PackAnswer::Nothing)
        } else {
            match pack_state(files, self.pack_index) {
                Some(PackState::Loaded(number)) => LockedStep::Answer(PackAnswer::Pack(number)),
                Some(PackState::Unloaded) => LockedStep::ReadFile,
                _ => LockedStep::Answer(PackAnswer::Nothing),
            }
        }
    }

    /// What comes next once the slot is locked: without the index that is expected there is no pack,
    /// another request may have loaded the pack or found that it is missing, and otherwise the file
    /// is read.
    pub fn lock(self, files: &Option<IndexAndPacks>, index_matches: bool) -> (step: LockedStep)
        requires
            index_matches && files is Some && is_asked_kind(*files, self.pack_index) ==> pack_state(
                *files,
                self.pack_index,
            ) is Some,
        ensures
            step == self.locked(*files, index_matches),
            step == LockedStep::ReadFile ==> pack_state(*files, self.pack_index) == Some(
                PackState::Unloaded,
            ),
    {
        match self.look_locked(files, index_matches) {
            LockedLookup::Replaced | LockedLookup::OtherKind => LockedStep::Answer(
                PackAnswer::Nothing,
            ),
            LockedLookup::Load => {
                if self.needs_file(files) {
                    return LockedStep::ReadFile;
                }
                match self.loaded(files) {
                    Some(number) => LockedStep::Answer(PackAnswer::Pack(number)),
                    None => LockedStep::Answer(PackAnswer::Nothing),
                }
            },
        }
    }

    /// Goes on once the file was read: what came of it is noted in the files of the slot, and is what
    /// the request gets.
    pub fn unlock(self, files: Option<IndexAndPacks>, outcome: PackOutcome) -> (result: (
        Option<IndexAndPacks>,
        PackAnswer,
    ))
        requires
            pack_state(files, self.pack_index) == Some(PackState::Unloaded),
        ensures
            notes_outcome(self.pack_index, files, outcome, result.0),
            result.1 == answer_of(outcome),
            ({
                let state = match outcome {
                    PackOutcome::Loaded(number) => PackState::Loaded(number),
                    PackOutcome::Missing => PackState::Missing,
                    PackOutcome::Failed => PackState::Unloaded,
                };
                match (files, result.0) {
                    (
                        Some(IndexAndPacks::Index { index_loaded: before, .. }),
                        Some(IndexAndPacks::Index { index_loaded, pack }),
                    ) => self.pack_index is None && index_loaded == before && pack == state,
                    (
                        Some(IndexAndPacks::MultiIndex { index_loaded: before, packs: packs_before }),
                        Some(IndexAndPacks::MultiIndex { index_loaded, packs }),
                    ) => self.pack_index is Some && index_loaded == before && packs@
                        == packs_before@.update(self.pack_index.unwrap() as int, state),
                    _ => false,
                }
            }),
            outcome matches PackOutcome::Loaded(number) ==> result.1 == PackAnswer::Pack(number),
            outcome == PackOutcome::Missing ==> result.1 == PackAnswer::Nothing,
            outcome == PackOutcome::Failed ==> result.1 == PackAnswer::Failure,
    {
        let answer = match outcome {
            PackOutcome::Loaded(number) => PackAnswer::Pack(number),
            PackOutcome::Missing => PackAnswer::Nothing,
            PackOutcome::Failed => PackAnswer::Failure,
        };
        (self.record(files, outcome), answer)
    }

    /// What a request whose slot is locked gets in the end, if `outcome` is what comes of reading the
    /// file, should it be read.
    pub open spec fn answer(
        self,
        files: Option<IndexAndPacks>,
        index_matches: bool,
        outcome: PackOutcome,
    ) -> PackAnswer {
        match self.locked(files, index_matches) {
            LockedStep::Answer(answer) => answer,
            LockedStep::ReadFile => answer_of(outcome),
        }
    }

    /// The point that is reached before the slot is locked.
    pub fn locking_point(self) -> (point: Point)
        ensures
            point == (Point::PackSlotLocking { slot: self.slot, pack_index: self.pack_index }),
    {
        Point::PackSlotLocking { slot: self.slot, pack_index: self.pack_index }
    }

    /// The point that is reached once the slot is locked.
    pub fn locked_point(self) -> (point: Point)
        ensures
            point == (Point::PackSlotLocked { slot: self.slot, pack_index: self.pack_index }),
    {
        Point::PackSlotLocked { slot: self.slot, pack_index: self.pack_index }
    }

    /// The point that is reached once the file was read: it is no success if it is missing.
    pub fn completed_point(self, outcome: PackOutcome) -> (point: Point)
        ensures
            point == (Point::PackLoadCompleted {
                slot: self.slot,
                pack_index: self.pack_index,
                outcome: if outcome is Loaded {
                    LoadOutcome::Success
                } else {
                    LoadOutcome::Failure
                },
            }),
    {
        let outcome = match outcome {
            PackOutcome::Loaded(_) => LoadOutcome::Success,
            PackOutcome::Missing | PackOutcome::Failed => LoadOutcome::Failure,
        };
        Point::PackLoadCompleted { slot: self.slot, pack_index: self.pack_index, outcome }
    }
}

impl Store {
    /// What comes of a request for a pack, as far as it can be seen without a lock. If it is stale, the
    /// indices should be loaded again, and the lookup be redone with what is known then.
    pub fn load_pack(&self, request: PackRequest, index_matches: bool) -> (lookup: PackLookup)
        requires
            request.slot < self.slots@.len(),
        ensures
            lookup == request.looked(
                self.generation,
                self.slots@[request.slot as int],
                index_matches,
            ),
    {
        request.look(self.generation, &self.slots[request.slot], index_matches)
    }
}

/// A pack is never handed out on the grounds of indices of another generation, nor from a slot that
/// was put to other use since.
pub proof fn law_stale_requests_get_nothing(
    request: PackRequest,
    generation: u32,
    slot: Slot,
    index_matches: bool,
)
    requires
        generation != request.generation || slot.generation > request.generation || !index_matches,
    ensures
        request.looked(generation, slot, index_matches) == PackLookup::Stale,
{
}

/// Once a pack was loaded for a request, the same request gets the very same pack without a lock and
/// without its file, as long as the slot keeps the files that this was noted in.
pub proof fn law_loaded_packs_are_found(
    request: PackRequest,
    slot: Slot,
    number: u64,
    after: Option<IndexAndPacks>,
)
    requires
        !request.is_stale(request.generation, slot, true),
        pack_state(after, request.pack_index) == Some(PackState::Loaded(number)),
    ensures
        request.looked(
            request.generation,
            (Slot { generation: slot.generation, files: after }),
            true,
        ) == PackLookup::Loaded(number),
{
}

/// A request that gets a pack gets the very same one when it is made again, as long as neither the
/// generation nor the slot changes, and the one that it gets is the one that the slot holds.
pub proof fn law_repeated_requests_get_the_same_pack(
    request: PackRequest,
    generation: u32,
    slot: Slot,
    again: Slot,
    index_matches: bool,
    number: u64,
)
    requires
        request.looked(generation, slot, index_matches) == PackLookup::Loaded(number),
        again.generation == slot.generation,
        pack_state(again.files, request.pack_index) == pack_state(slot.files, request.pack_index),
    ensures
        request.looked(generation, again, index_matches) == PackLookup::Loaded(number),
        pack_state(slot.files, request.pack_index) == Some(PackState::Loaded(number)),
{
}

/// A pack that was found to be missing is missing for each later request, too, and its file isn't
/// looked for again, as long as the slot keeps the files that this was noted in.
pub proof fn law_missing_packs_stay_missing(
    request: PackRequest,
    slot: Slot,
    after: Option<IndexAndPacks>,
)
    requires
        !request.is_stale(request.generation, slot, true),
        pack_state(after, request.pack_index) == Some(PackState::Missing),
    ensures
        request.looked(
            request.generation,
            (Slot { generation: slot.generation, files: after }),
            true,
        ) == PackLookup::Lock,
        is_asked_kind(after, request.pack_index),
        pack_state(after, request.pack_index) != Some(PackState::Unloaded),
{
}

/// A request that goes through the lock gets the pack that was loaded by then, or, if its file is read,
/// just what comes of that. It gets nothing if the slot holds another index or one of another kind, or
/// if the pack is known to be missing. The file is read only if nothing is known of the pack.
pub proof fn law_locked_requests_get_what_is_known(
    request: PackRequest,
    files: Option<IndexAndPacks>,
    index_matches: bool,
    outcome: PackOutcome,
)
    ensures
        files is None || !index_matches || !is_asked_kind(files, request.pack_index)
            ==> request.answer(files, index_matches, outcome) == PackAnswer::Nothing,
        files is Some && index_matches && is_asked_kind(files, request.pack_index) ==> {
            &&& pack_state(files, request.pack_index) matches Some(PackState::Loaded(number))
                ==> request.answer(files, index_matches, outcome) == PackAnswer::Pack(number)
            &&& pack_state(files, request.pack_index) == Some(PackState::Missing) ==> request.answer(
                files,
                index_matches,
                outcome,
            ) == PackAnswer::Nothing
            &&& pack_state(files, request.pack_index) == Some(PackState::Unloaded) ==> request.answer(
                files,
                index_matches,
                outcome,
            ) == answer_of(outcome)
        },
        request.locked(files, index_matches) == LockedStep::ReadFile <==> files is Some
            && index_matches && pack_state(files, request.pack_index) == Some(PackState::Unloaded),
{
}

/// What a request got by reading the file of its pack, each later request gets without reading it: the
/// very same pack without a lock, and nothing for one that is missing.
pub proof fn law_files_are_read_once(
    request: PackRequest,
    slot: Slot,
    outcome: PackOutcome,
    after: Option<IndexAndPacks>,
    later: PackOutcome,
)
    requires
        !request.is_stale(request.generation, slot, true),
        request.locked(slot.files, true) == LockedStep::ReadFile,
        notes_outcome(request.pack_index, slot.files, outcome, after),
        outcome != PackOutcome::Failed,
    ensures
        request.answer(after, true, later) == answer_of(outcome),
        request.locked(after, true) != LockedStep::ReadFile,
        outcome matches PackOutcome::Loaded(number) ==> request.looked(
            request.generation,
            (Slot { generation: slot.generation, files: after }),
            true,
        ) == PackLookup::Loaded(number),
{
}

/// Opening a store looks at the state on disk only if its slots depend on it.
pub proof fn law_slots_rarely_need_the_disk(slots: Slots, suggested: usize, other: usize)
    requires
        !(slots is AsNeededByDiskState),
    ensures
        initial_slots(slots, suggested) == initial_slots(slots, other),
{
}

/// A store with a limit on its slots starts with as many as the limit allows.
pub proof fn law_limits_are_kept(slots: Slots, suggested: usize)
    ensures
        limit_of(slots) matches Some(limit) ==> initial_slots(slots, suggested) == limit,
{
}

} // verus!
