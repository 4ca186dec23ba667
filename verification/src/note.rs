//! Reading notes from notes trees.
//!
//! A notes tree names each note by the hexadecimal form of the object that it is about. Where there
//! are many, the first two digits may be the name of a tree that holds the rest, and so on.

use vstd::prelude::*;
use vstd::slice::slice_subrange;
use vstd::slice::slice_to_vec;

use crate::bytes::lemma_sorts_before_is_an_order;
use crate::bytes::less_than;
use crate::bytes::sorts_before;
use crate::foreign::decode_tree;
use crate::foreign::decoded_tree;
use crate::foreign::view_entries;
use crate::oid::hex_of;
use crate::oid::EntryKind;
use crate::oid::EntryMode;
use crate::oid::HashKind;
use crate::oid::ObjectId;

verus! {

/// The byte that ends the name of a tree where names are sorted.
pub const SLASH: u8 = 47;

/// An entry of a tree.
#[derive(Clone, Debug, Eq, PartialEq)]
pub struct Entry {
    /// What it is.
    pub mode: EntryMode,
    /// Its name.
    pub filename: Vec<u8>,
    /// The object.
    pub oid: ObjectId,
}

/// A tree.
#[derive(Clone, Debug, Eq, PartialEq)]
pub struct Tree {
    /// Its entries, sorted by their names.
    pub entries: Vec<Entry>,
}

/// What an [`Entry`] says.
#[verifier::ext_equal]
pub struct EntryView {
    pub mode: EntryMode,
    pub filename: Seq<u8>,
    pub oid: Seq<u8>,
}

impl View for Entry {
    type V = EntryView;

    open spec fn view(&self) -> EntryView {
        EntryView { mode: self.mode, filename: self.filename@, oid: self.oid@ }
    }
}

impl View for Tree {
    type V = Seq<EntryView>;

    open spec fn view(&self) -> Seq<EntryView> {
        self.entries@.map_values(|entry: Entry| entry@)
    }
}

impl EntryView {
    /// Whether this is a tree.
    pub open spec fn is_tree(self) -> bool {
        self.mode.kind_spec() == EntryKind::Tree
    }

    /// Whether this is a file.
    pub open spec fn is_blob(self) -> bool {
        self.mode.kind_spec() == EntryKind::Blob || self.mode.kind_spec()
            == EntryKind::BlobExecutable
    }
}

/// Where an entry stands with respect to a name.
#[derive(Clone, Copy, Debug, Eq, PartialEq, Structural)]
pub enum Place {
    Before,
    Same,
    After,
}

/// The first byte of a name that isn't common to both, where the name of a tree goes on with a slash.
pub open spec fn next_byte(name: Seq<u8>, common: int, is_tree: bool) -> Option<u8> {
    if common < name.len() {
        Some(name[common])
    } else if is_tree {
        Some(SLASH)
    } else {
        None
    }
}

/// Where a name stands with respect to another one.
pub open spec fn place_of(name: Seq<u8>, is_tree: bool, other: Seq<u8>, other_is_tree: bool) -> Place {
    let common = if name.len() < other.len() {
        name.len() as int
    } else {
        other.len() as int
    };
    if sorts_before(name.take(common), other.take(common)) {
        Place::Before
    } else if sorts_before(other.take(common), name.take(common)) {
        Place::After
    } else {
        match (next_byte(name, common, is_tree), next_byte(other, common, other_is_tree)) {
            (None, None) => Place::Same,
            (None, Some(_)) => Place::Before,
            (Some(_), None) => Place::After,
            (Some(byte), Some(other)) => if byte < other {
                Place::Before
            } else if other < byte {
                Place::After
            } else {
                Place::Same
            },
        }
    }
}

fn byte_after(name: &[u8], common: usize, is_tree: bool) -> (byte: Option<u8>)
    ensures
        byte == next_byte(name@, common as int, is_tree),
{
    if common < name.len() {
        Some(name[common])
    } else if is_tree {
        Some(SLASH)
    } else {
        None
    }
}

/// Where `entry` stands with respect to `name`, in the order of tree entries.
pub fn compare_entry_with_name(entry: &Entry, name: &[u8], is_tree: bool) -> (place: Place)
    ensures
        place == place_of(entry@.filename, entry@.is_tree(), name@, is_tree),
{
    let filename = entry.filename.as_slice();
    let common: usize = if filename.len() < name.len() {
        filename.len()
    } else {
        name.len()
    };
    let left = slice_subrange(filename, 0, common);
    let right = slice_subrange(name, 0, common);
    assert(left@ =~= filename@.take(common as int));
    assert(right@ =~= name@.take(common as int));
    if less_than(left, right) {
        return Place::Before;
    }
    if less_than(right, left) {
        return Place::After;
    }
    match (byte_after(filename, common, entry.mode.is_tree()), byte_after(name, common, is_tree)) {
        (None, None) => Place::Same,
        (None, Some(_)) => Place::Before,
        (Some(_), None) => Place::After,
        (Some(byte), Some(other)) => if byte < other {
            Place::Before
        } else if other < byte {
            Place::After
        } else {
            Place::Same
        },
    }
}

/// The position of the entry of the given name that halving the range from `low` to `high` again and
/// again leads to.
pub open spec fn search(
    tree: Seq<EntryView>,
    name: Seq<u8>,
    is_tree: bool,
    low: int,
    high: int,
) -> Option<int>
    decreases high - low,
{
    if low >= high {
        None
    } else {
        let middle = low + (high - low) / 2;
        match place_of(tree[middle].filename, tree[middle].is_tree(), name, is_tree) {
            Place::Before => search(tree, name, is_tree, middle + 1, high),
            Place::After => search(tree, name, is_tree, low, middle),
            Place::Same => Some(middle),
        }
    }
}

/// The entry of the given name, as it is found in a sorted tree.
pub open spec fn entry_named(tree: Seq<EntryView>, name: Seq<u8>, is_tree: bool) -> Option<
    EntryView,
> {
    match search(tree, name, is_tree, 0, tree.len() as int) {
        Some(index) => Some(tree[index]),
        None => None,
    }
}

/// Whether all entries before a name come first, then those of that name, then all after it.
pub open spec fn is_searchable(tree: Seq<EntryView>, name: Seq<u8>, is_tree: bool) -> bool {
    forall|i: int, j: int|
        #![trigger tree[i], tree[j]]
        0 <= i < j < tree.len() ==> {
            let first = place_of(tree[i].filename, tree[i].is_tree(), name, is_tree);
            let second = place_of(tree[j].filename, tree[j].is_tree(), name, is_tree);
            &&& first == Place::After ==> second == Place::After
            &&& second == Place::Before ==> first == Place::Before
        }
}

/// Whether an entry has the given name.
pub open spec fn has_name(entry: EntryView, name: Seq<u8>, is_tree: bool) -> bool {
    place_of(entry.filename, entry.is_tree(), name, is_tree) == Place::Same
}

proof fn lemma_search_bounds(
    tree: Seq<EntryView>,
    name: Seq<u8>,
    is_tree: bool,
    low: int,
    high: int,
)
    requires
        0 <= low,
        high <= tree.len(),
    ensures
        search(tree, name, is_tree, low, high) matches Some(index) ==> low <= index < high
            && has_name(tree[index], name, is_tree),
    decreases high - low,
{
    if low < high {
        let middle = low + (high - low) / 2;
        lemma_search_bounds(tree, name, is_tree, middle + 1, high);
        lemma_search_bounds(tree, name, is_tree, low, middle);
    }
}

proof fn lemma_search_finds(
    tree: Seq<EntryView>,
    name: Seq<u8>,
    is_tree: bool,
    low: int,
    high: int,
    index: int,
)
    requires
        is_searchable(tree, name, is_tree),
        0 <= low <= index < high <= tree.len(),
        has_name(tree[index], name, is_tree),
    ensures
        search(tree, name, is_tree, low, high) is Some,
    decreases high - low,
{
    let middle = low + (high - low) / 2;
    let place = place_of(tree[middle].filename, tree[middle].is_tree(), name, is_tree);
    if index < middle {
        lemma_search_finds(tree, name, is_tree, low, middle, index);
        assert(tree[index] == tree[index] && tree[middle] == tree[middle]);
    } else if index > middle {
        lemma_search_finds(tree, name, is_tree, middle + 1, high, index);
        assert(tree[index] == tree[index] && tree[middle] == tree[middle]);
    }
}

/// In a sorted tree an entry is found by its name if there is one, and nothing else is.
pub proof fn law_entries_are_found_by_name(tree: Seq<EntryView>, name: Seq<u8>, is_tree: bool)
    requires
        is_searchable(tree, name, is_tree),
    ensures
        entry_named(tree, name, is_tree) is Some <==> exists|i: int|
            0 <= i < tree.len() && has_name(#[trigger] tree[i], name, is_tree),
        entry_named(tree, name, is_tree) matches Some(entry) ==> tree.contains(entry) && has_name(
            entry,
            name,
            is_tree,
        ),
{
    lemma_search_bounds(tree, name, is_tree, 0, tree.len() as int);
    if exists|i: int| 0 <= i < tree.len() && has_name(#[trigger] tree[i], name, is_tree) {
        let index = choose|i: int| 0 <= i < tree.len() && has_name(#[trigger] tree[i], name, is_tree);
        lemma_search_finds(tree, name, is_tree, 0, tree.len() as int, index);
    }
}

/// Whether `found` is an entry of the given name and kind, or nothing if there is no such entry.
pub open spec fn is_entry_of(
    tree: Seq<EntryView>,
    name: Seq<u8>,
    is_tree: bool,
    found: Option<EntryView>,
) -> bool {
    match found {
        Some(entry) => tree.contains(entry) && entry.filename == name && entry.is_tree() == is_tree,
        None => forall|i: int|
            0 <= i < tree.len() ==> !((#[trigger] tree[i]).filename == name && tree[i].is_tree()
                == is_tree),
    }
}

/// What is found of an entry.
pub open spec fn view_entry(entry: Option<&Entry>) -> Option<EntryView> {
    match entry {
        Some(entry) => Some(entry@),
        None => None,
    }
}

/// The entry of the given name and kind in `tree`: in a sorted tree it is the one of that name and kind
/// if there is one, and nothing otherwise. In a tree that is not sorted, it is what halving leads to.
pub fn entry<'a>(tree: &'a Tree, name: &[u8], is_tree: bool) -> (found: Option<&'a Entry>)
    ensures
        view_entry(found) == entry_named(tree@, name@, is_tree),
        is_sorted_tree(tree@) && is_file_name(name@) ==> is_entry_of(
            tree@,
            name@,
            is_tree,
            view_entry(found),
        ),
        is_searchable(tree@, name@, is_tree) ==> (match found {
            Some(entry) => tree@.contains(entry@) && has_name(entry@, name@, is_tree),
            None => forall|i: int|
                0 <= i < tree@.len() ==> !has_name(#[trigger] tree@[i], name@, is_tree),
        }),
{
    let found = halve(tree, name, is_tree);
    proof {
        if is_searchable(tree@, name@, is_tree) {
            law_entries_are_found_by_name(tree@, name@, is_tree);
        }
        if is_sorted_tree(tree@) && is_file_name(name@) {
            law_sorted_trees_have_entries_by_name(tree@, name@, is_tree);
        }
    }
    found
}

fn halve<'a>(tree: &'a Tree, name: &[u8], is_tree: bool) -> (found: Option<&'a Entry>)
    ensures
        view_entry(found) == entry_named(tree@, name@, is_tree),
{
    let mut low: usize = 0;
    let mut high: usize = tree.entries.len();
    while low < high
        invariant
            low <= high <= tree.entries.len(),
            search(tree@, name@, is_tree, low as int, high as int) == search(
                tree@,
                name@,
                is_tree,
                0,
                tree@.len() as int,
            ),
        decreases high - low,
    {
        let middle: usize = low + (high - low) / 2;
        assert(tree@[middle as int] == tree.entries@[middle as int]@);
        match compare_entry_with_name(&tree.entries[middle], name, is_tree) {
            Place::Before => {
                low = middle + 1;
            },
            Place::After => {
                high = middle;
            },
            Place::Same => {
                return Some(&tree.entries[middle]);
            },
        }
    }
    None
}

/// Decoded trees retained across note lookups.
///
/// The cache is independent of a particular notes root, allowing callers to
/// reuse it for all configured notes references.
#[derive(Clone, Debug)]
pub struct Cache {
    /// The trees with their ids, none of which occurs twice.
    pub trees: Vec<(ObjectId, Tree)>,
}

impl Default for Cache {
    fn default() -> (cache: Self)
        ensures
            cache.wf(),
            cache@ == Map::<Seq<u8>, Seq<EntryView>>::empty(),
            cache.trees@.len() == 0,
    {
        let cache = Cache { trees: Vec::new() };
        assert(cache@ =~= Map::<Seq<u8>, Seq<EntryView>>::empty());
        cache
    }
}

/// Where a tree is in a list.
pub open spec fn is_at(list: Seq<(ObjectId, Tree)>, index: int, id: Seq<u8>) -> bool {
    0 <= index < list.len() && list[index].0@ == id
}

impl View for Cache {
    type V = Map<Seq<u8>, Seq<EntryView>>;

    open spec fn view(&self) -> Map<Seq<u8>, Seq<EntryView>> {
        Map::new(
            |id: Seq<u8>| exists|index: int| is_at(self.trees@, index, id),
            |id: Seq<u8>| self.trees@[choose|index: int| is_at(self.trees@, index, id)].1@,
        )
    }
}

impl Cache {
    /// No id occurs twice.
    pub open spec fn wf(&self) -> bool {
        forall|i: int, j: int|
            0 <= i < j < self.trees@.len() ==> (#[trigger] self.trees@[i]).0@ != (
            #[trigger] self.trees@[j]).0@
    }

    /// The tree with the given id, if it is retained.
    pub fn tree(&self, id: &ObjectId) -> (tree: Option<&Tree>)
        requires
            self.wf(),
        ensures
            match tree {
                Some(tree) => self@.contains_key(id@) && tree@ == self@[id@],
                None => !self@.contains_key(id@),
            },
    {
        let mut i: usize = 0;
        while i < self.trees.len()
            invariant
                i <= self.trees.len(),
                self.wf(),
                forall|k: int| 0 <= k < i ==> (#[trigger] self.trees@[k]).0@ != id@,
            decreases self.trees.len() - i,
        {
            if self.trees[i].0.same(id) {
                proof {
                    assert(is_at(self.trees@, i as int, id@));
                    let chosen = choose|index: int| is_at(self.trees@, index, id@);
                    assert(is_at(self.trees@, chosen, id@));
                    assert(chosen == i);
                }
                return Some(&self.trees[i].1);
            }
            i += 1;
        }
        None
    }

    /// Retains a tree, unless one with that id is retained already.
    pub fn insert(&mut self, id: ObjectId, tree: Tree)
        requires
            old(self).wf(),
        ensures
            final(self).wf(),
            final(self)@ == (if old(self)@.contains_key(id@) {
                old(self)@
            } else {
                old(self)@.insert(id@, tree@)
            }),
            final(self).trees@.len() == old(self).trees@.len() + (if old(self)@.contains_key(id@) {
                0int
            } else {
                1
            }),
    {
        if self.tree(&id).is_some() {
            return ;
        }
        let ghost before = *self;
        self.trees.push((id, tree));
        proof {
            let new = self.trees@.len() - 1;
            assert(self.trees@[new] == (id, tree));
            assert forall|i: int, j: int| 0 <= i < j < self.trees@.len() implies (
            #[trigger] self.trees@[i]).0@ != (#[trigger] self.trees@[j]).0@ by {
                assert(self.trees@[i] == before.trees@[i]);
                if j == new {
                    if self.trees@[i].0@ == id@ {
                        assert(is_at(before.trees@, i, id@));
                    }
                }
            }
            assert forall|key: Seq<u8>| #[trigger] self@.contains_key(key) == before@.insert(
                id@,
                tree@,
            ).contains_key(key) by {
                if key == id@ {
                    assert(is_at(self.trees@, new, key));
                }
                if before@.contains_key(key) {
                    let index = choose|index: int| is_at(before.trees@, index, key);
                    assert(is_at(self.trees@, index, key));
                }
                if self@.contains_key(key) && key != id@ {
                    let index = choose|index: int| is_at(self.trees@, index, key);
                    assert(is_at(before.trees@, index, key));
                }
            }
            assert forall|key: Seq<u8>| self@.contains_key(key) implies #[trigger] self@[key]
                == before@.insert(id@, tree@)[key] by {
                let index = choose|index: int| is_at(self.trees@, index, key);
                assert(is_at(self.trees@, index, key));
                if key == id@ {
                    assert(index == new) by {
                        if index != new {
                            assert(self.trees@[index].0@ != self.trees@[new].0@);
                        }
                    }
                } else {
                    assert(is_at(before.trees@, index, key));
                    let earlier = choose|index: int| is_at(before.trees@, index, key);
                    assert(is_at(before.trees@, earlier, key));
                    assert(earlier == index);
                }
            }
            assert(self@ =~= before@.insert(id@, tree@));
        }
    }
}

/// What comes of looking for a note in the trees that are retained.
#[derive(Clone, Debug, Eq, PartialEq)]
pub enum Lookup {
    /// This is the note.
    Found(ObjectId),
    /// There is no note.
    Absent,
    /// This tree has to be retained before the lookup can go on.
    Load(ObjectId),
}

/// What comes of looking for a note.
pub enum LookupView {
    Found(Seq<u8>),
    Absent,
    Load(Seq<u8>),
}

impl View for Lookup {
    type V = LookupView;

    open spec fn view(&self) -> LookupView {
        match self {
            Lookup::Found(id) => LookupView::Found(id@),
            Lookup::Absent => LookupView::Absent,
            Lookup::Load(id) => LookupView::Load(id@),
        }
    }
}

/// What comes of looking for the note with the given digits left in its name, from the tree with the
/// given id on: a file of that name is the note, and otherwise a tree of the first two digits may
/// hold it.
pub open spec fn lookup(
    trees: Map<Seq<u8>, Seq<EntryView>>,
    tree_id: Seq<u8>,
    remaining: Seq<u8>,
) -> LookupView
    decreases remaining.len(),
{
    if !trees.contains_key(tree_id) {
        LookupView::Load(tree_id)
    } else {
        let tree = trees[tree_id];
        match entry_named(tree, remaining, false) {
            Some(entry) if entry.is_blob() => LookupView::Found(entry.oid),
            _ => if remaining.len() <= 2 {
                LookupView::Absent
            } else {
                match entry_named(tree, remaining.take(2), true) {
                    Some(entry) if entry.is_tree() => lookup(trees, entry.oid, remaining.skip(2)),
                    _ => LookupView::Absent,
                }
            },
        }
    }
}

/// Return the blob associated with `object` in the notes tree at `root`, as far as the retained trees
/// lead to it.
///
/// Trees are needed one by one along the progressive two-hex-digit fanout path. Entries that do not
/// conform to the layout of notes are ignored. Where trees are sorted, exactly the notes that they hold
/// are found.
pub fn get(root: &ObjectId, object: &ObjectId, cache: &Cache) -> (found: Lookup)
    requires
        cache.wf(),
    ensures
        found@ == lookup(cache@, root@, hex_of(object@)),
        forall|note: Seq<u8>| #[trigger]
            stores_note(cache@, root@, hex_of(object@), note) ==> found@ == LookupView::Found(note),
        are_sorted(cache@) ==> (found@ matches LookupView::Found(note) ==> stores_note(
            cache@,
            root@,
            hex_of(object@),
            note,
        )),
{
    let found = follow(root, object, cache);
    proof {
        assert forall|note: Seq<u8>| #[trigger]
            stores_note(cache@, root@, hex_of(object@), note) implies lookup(
            cache@,
            root@,
            hex_of(object@),
        ) == LookupView::Found(note) by {
            law_stored_notes_are_found(cache@, root@, object@, note);
        }
        if are_sorted(cache@) {
            law_found_notes_are_stored(cache@, root@, object@);
        }
    }
    found
}

fn follow(root: &ObjectId, object: &ObjectId, cache: &Cache) -> (found: Lookup)
    requires
        cache.wf(),
    ensures
        found@ == lookup(cache@, root@, hex_of(object@)),
{
    let hex = object.to_hex();
    let mut start: usize = 0;
    let mut tree_id = root.copy();
    assert(hex@.skip(0) =~= hex@);
    loop
        invariant
            cache.wf(),
            start <= hex.len(),
            lookup(cache@, tree_id@, hex@.skip(start as int)) == lookup(cache@, root@, hex@),
            hex@ == hex_of(object@),
        decreases hex.len() - start,
    {
        let remaining = slice_subrange(hex.as_slice(), start, hex.len());
        assert(remaining@ =~= hex@.skip(start as int));
        let tree = match cache.tree(&tree_id) {
            None => return Lookup::Load(tree_id),
            Some(tree) => tree,
        };
        if let Some(entry) = entry(tree, remaining, false) {
            if entry.mode.is_blob() {
                return Lookup::Found(entry.oid.copy());
            }
        }
        if remaining.len() <= 2 {
            return Lookup::Absent;
        }
        let component = slice_subrange(remaining, 0, 2);
        assert(component@ =~= remaining@.take(2));
        let next = match entry(tree, component, true) {
            Some(entry) => {
                if !entry.mode.is_tree() {
                    return Lookup::Absent;
                }
                entry.oid.copy()
            },
            None => return Lookup::Absent,
        };
        assert(remaining@.skip(2) =~= hex@.skip(start + 2));
        tree_id = next;
        start = start + 2;
    }
}

/// The entries of a decoded tree.
pub open spec fn tree_of(entries: Seq<(u16, Seq<u8>, Seq<u8>)>) -> Seq<EntryView> {
    entries.map_values(
        |entry: (u16, Seq<u8>, Seq<u8>)|
            EntryView { mode: EntryMode { value: entry.0 }, filename: entry.1, oid: entry.2 },
    )
}

/// A tree with the given modes, names and ids.
pub fn tree_from(entries: &Vec<(u16, Vec<u8>, Vec<u8>)>) -> (tree: Tree)
    ensures
        tree@ == tree_of(view_entries(entries@)),
{
    let mut list: Vec<Entry> = Vec::new();
    let mut i: usize = 0;
    while i < entries.len()
        invariant
            i <= entries.len(),
            list@.len() == i,
            forall|k: int|
                0 <= k < i ==> (#[trigger] list@[k])@ == tree_of(view_entries(entries@))[k],
        decreases entries.len() - i,
    {
        let entry = Entry {
            mode: EntryMode { value: entries[i].0 },
            filename: slice_to_vec(entries[i].1.as_slice()),
            oid: ObjectId::new(entries[i].2.as_slice()),
        };
        assert(entry@ =~= tree_of(view_entries(entries@))[i as int]);
        list.push(entry);
        i += 1;
    }
    let tree = Tree { entries: list };
    assert(tree@ =~= tree_of(view_entries(entries@)));
    tree
}

/// The tree in the given bytes, with ids of the given kind, if they are well-formed.
pub fn parse_tree(data: &[u8], object_hash: HashKind) -> (tree: Option<Tree>)
    ensures
        match tree {
            Some(tree) => decoded_tree(data@, object_hash) is Some && tree@ == tree_of(
                decoded_tree(data@, object_hash).unwrap(),
            ),
            None => decoded_tree(data@, object_hash) is None,
        },
{
    match decode_tree(data, object_hash) {
        Some(entries) => Some(tree_from(&entries)),
        None => None,
    }
}

/// A lookup only asks for trees that are not retained.
pub proof fn law_lookups_load_what_is_missing(
    trees: Map<Seq<u8>, Seq<EntryView>>,
    root: Seq<u8>,
    remaining: Seq<u8>,
)
    ensures
        lookup(trees, root, remaining) matches LookupView::Load(id) ==> !trees.contains_key(id),
    decreases remaining.len(),
{
    if trees.contains_key(root) && remaining.len() > 2 {
        if let Some(entry) = entry_named(trees[root], remaining.take(2), true) {
            law_lookups_load_what_is_missing(trees, entry.oid, remaining.skip(2));
        }
    }
}

/// What a lookup has found stays found, and what it has not found stays absent, however many more
/// trees are retained: repeated lookups need no more trees.
pub proof fn law_lookups_are_stable(
    trees: Map<Seq<u8>, Seq<EntryView>>,
    more: Map<Seq<u8>, Seq<EntryView>>,
    root: Seq<u8>,
    remaining: Seq<u8>,
)
    requires
        trees.submap_of(more),
        !(lookup(trees, root, remaining) is Load),
    ensures
        lookup(more, root, remaining) == lookup(trees, root, remaining),
    decreases remaining.len(),
{
    assert(trees.contains_key(root));
    assert(more.dom().contains(root));
    assert(more[root] == trees[root]);
    let tree = trees[root];
    let is_note = entry_named(tree, remaining, false) matches Some(entry) && entry.is_blob();
    if !is_note && remaining.len() > 2 {
        if let Some(entry) = entry_named(tree, remaining.take(2), true) {
            if entry.is_tree() {
                law_lookups_are_stable(trees, more, entry.oid, remaining.skip(2));
            }
        }
    }
}

/// A note right in a sorted tree is found.
pub proof fn law_notes_are_found(
    trees: Map<Seq<u8>, Seq<EntryView>>,
    root: Seq<u8>,
    remaining: Seq<u8>,
)
    requires
        trees.contains_key(root),
        is_searchable(trees[root], remaining, false),
        exists|i: int|
            0 <= i < trees[root].len() && has_name(#[trigger] trees[root][i], remaining, false),
        forall|i: int|
            0 <= i < trees[root].len() && has_name(#[trigger] trees[root][i], remaining, false)
                ==> trees[root][i].is_blob(),
    ensures
        lookup(trees, root, remaining) matches LookupView::Found(note) && exists|i: int|
            0 <= i < trees[root].len() && has_name(#[trigger] trees[root][i], remaining, false)
                && trees[root][i].oid == note,
{
    lemma_search_bounds(trees[root], remaining, false, 0, trees[root].len() as int);
    law_entries_are_found_by_name(trees[root], remaining, false);
}

/// A note that is not right in a sorted tree is looked for in the tree of its first two digits.
pub proof fn law_notes_are_found_through_fanout(
    trees: Map<Seq<u8>, Seq<EntryView>>,
    root: Seq<u8>,
    remaining: Seq<u8>,
    subtree: int,
)
    requires
        trees.contains_key(root),
        remaining.len() > 2,
        is_searchable(trees[root], remaining.take(2), true),
        forall|i: int|
            0 <= i < trees[root].len() ==> !has_name(#[trigger] trees[root][i], remaining, false),
        0 <= subtree < trees[root].len(),
        trees[root][subtree].is_tree(),
        forall|i: int|
            0 <= i < trees[root].len() ==> (has_name(
                #[trigger] trees[root][i],
                remaining.take(2),
                true,
            ) <==> i == subtree),
    ensures
        lookup(trees, root, remaining) == lookup(trees, trees[root][subtree].oid, remaining.skip(2)),
{
    let tree = trees[root];
    lemma_search_bounds(tree, remaining, false, 0, tree.len() as int);
    lemma_search_bounds(tree, remaining.take(2), true, 0, tree.len() as int);
    law_entries_are_found_by_name(tree, remaining.take(2), true);
}

/// A tree where a note would have to be is not a note.
pub proof fn law_trees_are_not_notes(
    trees: Map<Seq<u8>, Seq<EntryView>>,
    root: Seq<u8>,
    remaining: Seq<u8>,
)
    requires
        trees.contains_key(root),
        forall|i: int| 0 <= i < trees[root].len() ==> (#[trigger] trees[root][i]).is_tree(),
        forall|i: int|
            0 <= i < trees[root].len() ==> !has_name(
                #[trigger] trees[root][i],
                remaining.take(2),
                true,
            ),
    ensures
        lookup(trees, root, remaining) is Absent,
{
    let tree = trees[root];
    lemma_search_bounds(tree, remaining, false, 0, tree.len() as int);
    lemma_search_bounds(tree, remaining.take(2), true, 0, tree.len() as int);
}

/// A name as it counts where tree entries are sorted: that of a tree ends with a slash.
pub open spec fn sort_key(name: Seq<u8>, is_tree: bool) -> Seq<u8> {
    if is_tree {
        name.push(SLASH)
    } else {
        name
    }
}

/// Whether a name can be that of a tree entry.
pub open spec fn is_file_name(name: Seq<u8>) -> bool {
    !name.contains(SLASH)
}

/// For names of tree entries the order is that of the bytes, if names of trees end with a slash.
pub proof fn law_order_is_by_sort_key(
    name: Seq<u8>,
    is_tree: bool,
    other: Seq<u8>,
    other_is_tree: bool,
)
    requires
        is_file_name(name),
        is_file_name(other),
    ensures
        place_of(name, is_tree, other, other_is_tree) == (if sorts_before(
            sort_key(name, is_tree),
            sort_key(other, other_is_tree),
        ) {
            Place::Before
        } else if sort_key(name, is_tree) == sort_key(other, other_is_tree) {
            Place::Same
        } else {
            Place::After
        }),
    decreases name.len(),
{
    let key = sort_key(name, is_tree);
    let other_key = sort_key(other, other_is_tree);
    let common = if name.len() < other.len() {
        name.len() as int
    } else {
        other.len() as int
    };
    lemma_sorts_before_is_an_order(key, other_key, key);
    if name.len() > 0 {
        assert(name.contains(name[0]));
    }
    if other.len() > 0 {
        assert(other.contains(other[0]));
    }
    if common == 0 {
        assert(name.take(0) =~= other.take(0));
        lemma_sorts_before_is_an_order(name.take(0), name.take(0), name.take(0));
        if name.len() == 0 && is_tree {
            assert(key.skip(1) =~= Seq::empty());
        }
        if other.len() == 0 && other_is_tree {
            assert(other_key.skip(1) =~= Seq::empty());
        }
        if name.len() == 0 && other.len() == 0 {
            assert(name =~= other);
        } else if name.len() == 0 {
            assert(other_key[0] == other[0]);
        } else {
            assert(key[0] == name[0]);
        }
    } else {
        let rest = name.skip(1);
        let other_rest = other.skip(1);
        assert(key[0] == name[0] && other_key[0] == other[0]);
        assert(name.take(common)[0] == name[0] && other.take(common)[0] == other[0]);
        if name[0] == other[0] {
            assert forall|i: int| 0 <= i < rest.len() implies rest[i] != SLASH by {
                assert(name.contains(name[i + 1]));
            }
            assert forall|i: int| 0 <= i < other_rest.len() implies other_rest[i] != SLASH by {
                assert(other.contains(other[i + 1]));
            }
            law_order_is_by_sort_key(rest, is_tree, other_rest, other_is_tree);
            assert(name.take(common).skip(1) =~= rest.take(common - 1));
            assert(other.take(common).skip(1) =~= other_rest.take(common - 1));
            assert(key.skip(1) =~= sort_key(rest, is_tree));
            assert(other_key.skip(1) =~= sort_key(other_rest, other_is_tree));
            if sort_key(rest, is_tree) == sort_key(other_rest, other_is_tree) {
                assert(key =~= seq![name[0]] + key.skip(1));
                assert(other_key =~= seq![other[0]] + other_key.skip(1));
            }
            assert(place_of(name, is_tree, other, other_is_tree) == place_of(
                rest,
                is_tree,
                other_rest,
                other_is_tree,
            ));
        }
    }
}

/// Whether a tree is sorted as trees are.
pub open spec fn is_sorted_tree(tree: Seq<EntryView>) -> bool {
    &&& forall|i: int| 0 <= i < tree.len() ==> is_file_name((#[trigger] tree[i]).filename)
    &&& forall|i: int, j: int|
        #![trigger tree[i], tree[j]]
        0 <= i < j < tree.len() ==> sorts_before(
            sort_key(tree[i].filename, tree[i].is_tree()),
            sort_key(tree[j].filename, tree[j].is_tree()),
        )
}

/// In a tree that is sorted as trees are, any name can be looked for.
pub proof fn law_sorted_trees_are_searchable(tree: Seq<EntryView>, name: Seq<u8>, is_tree: bool)
    requires
        is_sorted_tree(tree),
        is_file_name(name),
    ensures
        is_searchable(tree, name, is_tree),
{
    let wanted = sort_key(name, is_tree);
    assert forall|i: int, j: int|
        #![trigger tree[i], tree[j]]
        0 <= i < j < tree.len() implies ({
        let first = place_of(tree[i].filename, tree[i].is_tree(), name, is_tree);
        let second = place_of(tree[j].filename, tree[j].is_tree(), name, is_tree);
        &&& first == Place::After ==> second == Place::After
        &&& second == Place::Before ==> first == Place::Before
    }) by {
        let low = sort_key(tree[i].filename, tree[i].is_tree());
        let high = sort_key(tree[j].filename, tree[j].is_tree());
        law_order_is_by_sort_key(tree[i].filename, tree[i].is_tree(), name, is_tree);
        law_order_is_by_sort_key(tree[j].filename, tree[j].is_tree(), name, is_tree);
        lemma_sorts_before_is_an_order(low, high, wanted);
        lemma_sorts_before_is_an_order(wanted, low, high);
        lemma_sorts_before_is_an_order(high, wanted, low);
        lemma_sorts_before_is_an_order(low, wanted, high);
    }
}

proof fn lemma_sort_keys_tell_names_apart(
    name: Seq<u8>,
    is_tree: bool,
    other: Seq<u8>,
    other_is_tree: bool,
)
    requires
        is_file_name(name),
        is_file_name(other),
        sort_key(name, is_tree) == sort_key(other, other_is_tree),
    ensures
        name == other,
        is_tree == other_is_tree,
{
    let key = sort_key(name, is_tree);
    if is_tree && other_is_tree {
        assert(name =~= key.drop_last());
        assert(other =~= key.drop_last());
    } else if is_tree {
        assert(other[other.len() - 1] == SLASH);
    } else if other_is_tree {
        assert(name[name.len() - 1] == SLASH);
    }
}

/// In a tree that is sorted as trees are, the entry of a name and kind is found if there is one, and
/// nothing otherwise.
pub proof fn law_sorted_trees_have_entries_by_name(tree: Seq<EntryView>, name: Seq<u8>, is_tree: bool)
    requires
        is_sorted_tree(tree),
        is_file_name(name),
    ensures
        is_entry_of(tree, name, is_tree, entry_named(tree, name, is_tree)),
{
    law_sorted_trees_are_searchable(tree, name, is_tree);
    law_entries_are_found_by_name(tree, name, is_tree);
    lemma_search_bounds(tree, name, is_tree, 0, tree.len() as int);
    match search(tree, name, is_tree, 0, tree.len() as int) {
        Some(index) => {
            let entry = tree[index];
            law_order_is_by_sort_key(entry.filename, entry.is_tree(), name, is_tree);
            lemma_sort_keys_tell_names_apart(entry.filename, entry.is_tree(), name, is_tree);
        },
        None => {
            law_order_is_by_sort_key(name, is_tree, name, is_tree);
            let key = sort_key(name, is_tree);
            lemma_sorts_before_is_an_order(key, key, key);
            assert forall|i: int| 0 <= i < tree.len() implies !((#[trigger] tree[i]).filename == name
                && tree[i].is_tree() == is_tree) by {
                assert(!has_name(tree[i], name, is_tree));
            }
        },
    }
}

/// Whether all trees are sorted as trees are.
pub open spec fn are_sorted(trees: Map<Seq<u8>, Seq<EntryView>>) -> bool {
    forall|id: Seq<u8>| #[trigger] trees.contains_key(id) ==> is_sorted_tree(trees[id])
}

/// Whether a file of the given name is the note in a tree.
pub open spec fn is_note(entry: EntryView, name: Seq<u8>, note: Seq<u8>) -> bool {
    entry.filename == name && entry.is_blob() && entry.oid == note
}

/// Whether sorted trees hold a note under the given digits, right in the tree with the given id or, if
/// there is no file of that name, in the tree of the first two digits in it, and so on.
pub open spec fn stores_note(
    trees: Map<Seq<u8>, Seq<EntryView>>,
    tree_id: Seq<u8>,
    remaining: Seq<u8>,
    note: Seq<u8>,
) -> bool
    decreases remaining.len(),
{
    let tree = trees[tree_id];
    &&& trees.contains_key(tree_id)
    &&& is_sorted_tree(tree)
    &&& {
        ||| exists|i: int| 0 <= i < tree.len() && is_note(#[trigger] tree[i], remaining, note)
        ||| {
            &&& remaining.len() > 2
            &&& forall|i: int|
                0 <= i < tree.len() ==> !((#[trigger] tree[i]).filename == remaining
                    && tree[i].is_blob())
            &&& exists|i: int|
                0 <= i < tree.len() && (#[trigger] tree[i]).filename == remaining.take(2)
                    && tree[i].is_tree() && stores_note(
                    trees,
                    tree[i].oid,
                    remaining.skip(2),
                    note,
                )
        }
    }
}

proof fn lemma_sorted_names_are_unique(
    tree: Seq<EntryView>,
    name: Seq<u8>,
    is_tree: bool,
    index: int,
)
    requires
        is_sorted_tree(tree),
        is_file_name(name),
        0 <= index < tree.len(),
        tree[index].filename == name,
        tree[index].is_tree() == is_tree,
    ensures
        entry_named(tree, name, is_tree) == Some(tree[index]),
{
    law_sorted_trees_are_searchable(tree, name, is_tree);
    law_order_is_by_sort_key(name, is_tree, name, is_tree);
    let key = sort_key(name, is_tree);
    lemma_sorts_before_is_an_order(key, key, key);
    assert(has_name(tree[index], name, is_tree));
    lemma_search_finds(tree, name, is_tree, 0, tree.len() as int, index);
    lemma_search_bounds(tree, name, is_tree, 0, tree.len() as int);
    let found = search(tree, name, is_tree, 0, tree.len() as int).unwrap();
    law_order_is_by_sort_key(tree[found].filename, tree[found].is_tree(), name, is_tree);
    assert(sort_key(tree[found].filename, tree[found].is_tree()) == key);
    if found < index {
        assert(sorts_before(
            sort_key(tree[found].filename, tree[found].is_tree()),
            sort_key(tree[index].filename, tree[index].is_tree()),
        ));
    } else if index < found {
        assert(sorts_before(
            sort_key(tree[index].filename, tree[index].is_tree()),
            sort_key(tree[found].filename, tree[found].is_tree()),
        ));
    }
}

proof fn lemma_found_files_have_their_name(tree: Seq<EntryView>, name: Seq<u8>)
    requires
        is_sorted_tree(tree),
        is_file_name(name),
    ensures
        entry_named(tree, name, false) matches Some(entry) ==> tree.contains(entry)
            && entry.filename == name,
{
    lemma_search_bounds(tree, name, false, 0, tree.len() as int);
    if let Some(index) = search(tree, name, false, 0, tree.len() as int) {
        let entry = tree[index];
        law_order_is_by_sort_key(entry.filename, entry.is_tree(), name, false);
        if entry.is_tree() {
            assert(name.contains(name[name.len() - 1]));
        }
    }
}

proof fn lemma_stored_notes_are_found(
    trees: Map<Seq<u8>, Seq<EntryView>>,
    tree_id: Seq<u8>,
    remaining: Seq<u8>,
    note: Seq<u8>,
)
    requires
        is_file_name(remaining),
        stores_note(trees, tree_id, remaining, note),
    ensures
        lookup(trees, tree_id, remaining) == LookupView::Found(note),
    decreases remaining.len(),
{
    let tree = trees[tree_id];
    if exists|i: int| 0 <= i < tree.len() && is_note(#[trigger] tree[i], remaining, note) {
        let index = choose|i: int|
            0 <= i < tree.len() && is_note(#[trigger] tree[i], remaining, note);
        lemma_sorted_names_are_unique(tree, remaining, false, index);
    } else {
        let index = choose|i: int|
            0 <= i < tree.len() && (#[trigger] tree[i]).filename == remaining.take(2)
                && tree[i].is_tree() && stores_note(trees, tree[i].oid, remaining.skip(2), note);
        assert forall|i: int| 0 <= i < 2 implies remaining.take(2)[i] != SLASH by {
            assert(remaining.contains(remaining[i]));
        }
        assert forall|i: int| 0 <= i < remaining.skip(2).len() implies remaining.skip(2)[i]
            != SLASH by {
            assert(remaining.contains(remaining[i + 2]));
        }
        lemma_sorted_names_are_unique(tree, remaining.take(2), true, index);
        lemma_found_files_have_their_name(tree, remaining);
        lemma_stored_notes_are_found(trees, tree[index].oid, remaining.skip(2), note);
    }
}

/// A note that trees hold for an object is found, however deep its digits are spread over trees.
pub proof fn law_stored_notes_are_found(
    trees: Map<Seq<u8>, Seq<EntryView>>,
    root: Seq<u8>,
    object: Seq<u8>,
    note: Seq<u8>,
)
    requires
        stores_note(trees, root, hex_of(object), note),
    ensures
        lookup(trees, root, hex_of(object)) == LookupView::Found(note),
{
    assert(is_file_name(hex_of(object)));
    lemma_stored_notes_are_found(trees, root, hex_of(object), note);
}

proof fn lemma_found_notes_are_stored(
    trees: Map<Seq<u8>, Seq<EntryView>>,
    tree_id: Seq<u8>,
    remaining: Seq<u8>,
)
    requires
        are_sorted(trees),
        is_file_name(remaining),
    ensures
        lookup(trees, tree_id, remaining) matches LookupView::Found(note) ==> stores_note(
            trees,
            tree_id,
            remaining,
            note,
        ),
    decreases remaining.len(),
{
    if trees.contains_key(tree_id) {
        let tree = trees[tree_id];
        law_sorted_trees_have_entries_by_name(tree, remaining, false);
        let here = entry_named(tree, remaining, false);
        if here is Some && here.unwrap().is_blob() {
            let index = choose|i: int| 0 <= i < tree.len() && tree[i] == here.unwrap();
            assert(is_note(tree[index], remaining, here.unwrap().oid));
        } else if remaining.len() > 2 {
            let digits = remaining.take(2);
            assert forall|i: int| 0 <= i < 2 implies digits[i] != SLASH by {
                assert(remaining.contains(remaining[i]));
            }
            let rest = remaining.skip(2);
            assert forall|i: int| 0 <= i < rest.len() implies rest[i] != SLASH by {
                assert(remaining.contains(remaining[i + 2]));
            }
            assert forall|i: int| 0 <= i < tree.len() implies !((#[trigger] tree[i]).filename
                == remaining && tree[i].is_blob()) by {
                if tree[i].filename == remaining && tree[i].is_blob() {
                    lemma_sorted_names_are_unique(tree, remaining, false, i);
                }
            }
            law_sorted_trees_have_entries_by_name(tree, digits, true);
            if let Some(entry) = entry_named(tree, digits, true) {
                let index = choose|i: int| 0 <= i < tree.len() && tree[i] == entry;
                assert(tree[index].filename == digits);
                lemma_found_notes_are_stored(trees, entry.oid, rest);
            }
        }
    }
}

/// What is found for an object in sorted trees is a note that they hold for it.
pub proof fn law_found_notes_are_stored(
    trees: Map<Seq<u8>, Seq<EntryView>>,
    root: Seq<u8>,
    object: Seq<u8>,
)
    requires
        are_sorted(trees),
    ensures
        lookup(trees, root, hex_of(object)) matches LookupView::Found(note) ==> stores_note(
            trees,
            root,
            hex_of(object),
            note,
        ),
{
    assert(is_file_name(hex_of(object)));
    lemma_found_notes_are_stored(trees, root, hex_of(object));
}

} // verus!
