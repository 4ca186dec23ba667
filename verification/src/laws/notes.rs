//! Laws on notes.

use vstd::prelude::*;

use crate::bytes::ascii;
use crate::bytes::fields_of;
use crate::bytes::non_empty;
use crate::bytes::sorts_before;
use crate::foreign::empty_tree_id;
use crate::foreign::is_full_name;
use crate::foreign::lossy_text;
use crate::foreign::pattern_matches;
use crate::note::entry_named;
use crate::note::is_file_name;
use crate::note::is_sorted_tree;
use crate::note::law_order_is_by_sort_key;
use crate::note::law_sorted_trees_have_entries_by_name;
use crate::note::lookup;
use crate::note::place_of;
use crate::note::search;
use crate::note::tree_of;
use crate::note::EntryView;
use crate::note::LookupView;
use crate::note::Place;
use crate::notes::configured_refs;
use crate::notes::default_name;
use crate::notes::edit_base;
use crate::notes::edit_commit;
use crate::notes::expanded;
use crate::notes::has_wildcard;
use crate::notes::is_blank;
use crate::notes::matching;
use crate::notes::notes_in;
use crate::notes::patterns_between_colons;
use crate::notes::roots_after_edit;
use crate::notes::shown_patterns;
use crate::notes::with_marked;
use crate::notes::with_pattern;
use crate::notes::with_patterns;
use crate::notes::with_unique;
use crate::notes::Edit;
use crate::notes::EditCommitView;
use crate::notes::EditKind;
use crate::notes::ErrorView;
use crate::notes::FoundReference;
use crate::notes::NotesView;
use crate::notes::ReferencesView;
use crate::notes::Repository;
use crate::oid::hex_of;
use crate::oid::EntryKind;
use crate::oid::HashKind;
use crate::oid::ObjectId;

verus! {

/// The name of an entry as it counts in a sorted tree: that of a tree as if it ended with a slash.
pub open spec fn key_of(name: Seq<u8>, is_tree: bool) -> Seq<u8> {
    if is_tree {
        name.push(0x2f)
    } else {
        name
    }
}

/// Entries stand in the order of their bytes, where trees count as if their name ended with a slash.
pub proof fn law_trees_sort_with_a_slash(
    name: Seq<u8>,
    is_tree: bool,
    other: Seq<u8>,
    other_is_tree: bool,
)
    requires
        !name.contains(0x2f),
        !other.contains(0x2f),
    ensures
        place_of(name, is_tree, other, other_is_tree) == Place::Before <==> sorts_before(
            key_of(name, is_tree),
            key_of(other, other_is_tree),
        ),
        place_of(name, is_tree, other, other_is_tree) == Place::Same <==> name == other && is_tree
            == other_is_tree,
{
    law_order_is_by_sort_key(name, is_tree, other, other_is_tree);
    let key = key_of(name, is_tree);
    let other_key = key_of(other, other_is_tree);
    crate::bytes::lemma_sorts_before_is_an_order(key, other_key, key);
    if key == other_key {
        if is_tree && other_is_tree {
            assert(name =~= key.drop_last());
            assert(other =~= key.drop_last());
        } else if is_tree {
            assert(other[other.len() - 1] == 0x2f);
        } else if other_is_tree {
            assert(name[name.len() - 1] == 0x2f);
        }
        crate::bytes::lemma_sorts_before_is_an_order(key, key, key);
    }
    if name == other && is_tree == other_is_tree {
        crate::bytes::lemma_sorts_before_is_an_order(key, key, key);
    }
}

/// Whether entries are named as files can be, and stand in order.
pub open spec fn stand_in_order(tree: Seq<EntryView>) -> bool {
    &&& forall|i: int| 0 <= i < tree.len() ==> !(#[trigger] tree[i]).filename.contains(0x2f)
    &&& forall|i: int, j: int|
        #![trigger tree[i], tree[j]]
        0 <= i < j < tree.len() ==> sorts_before(
            key_of(tree[i].filename, tree[i].mode.kind_spec() == EntryKind::Tree),
            key_of(tree[j].filename, tree[j].mode.kind_spec() == EntryKind::Tree),
        )
}

/// In a tree whose entries stand in order, exactly the entry of the given name and kind is found.
pub proof fn law_entries_are_found(tree: Seq<EntryView>, name: Seq<u8>, is_tree: bool, index: int)
    requires
        stand_in_order(tree),
        !name.contains(0x2f),
        0 <= index < tree.len(),
    ensures
        tree[index].filename == name && (tree[index].mode.kind_spec() == EntryKind::Tree) == is_tree
            ==> entry_named(tree, name, is_tree) == Some(tree[index]),
        entry_named(tree, name, is_tree) matches Some(entry) ==> tree.contains(entry)
            && entry.filename == name && (entry.mode.kind_spec() == EntryKind::Tree) == is_tree,
{
    assert(is_sorted_tree(tree)) by {
        assert forall|i: int| 0 <= i < tree.len() implies is_file_name(
            (#[trigger] tree[i]).filename,
        ) by {}
    }
    law_sorted_trees_have_entries_by_name(tree, name, is_tree);
    if tree[index].filename == name && (tree[index].mode.kind_spec() == EntryKind::Tree) == is_tree {
        let found = entry_named(tree, name, is_tree).unwrap();
        let other = choose|k: int| 0 <= k < tree.len() && tree[k] == found;
        let key = key_of(name, is_tree);
        crate::bytes::lemma_sorts_before_is_an_order(key, key, key);
        if other < index {
            assert(sorts_before(
                key_of(tree[other].filename, tree[other].mode.kind_spec() == EntryKind::Tree),
                key_of(tree[index].filename, tree[index].mode.kind_spec() == EntryKind::Tree),
            ));
        } else if index < other {
            assert(sorts_before(
                key_of(tree[index].filename, tree[index].mode.kind_spec() == EntryKind::Tree),
                key_of(tree[other].filename, tree[other].mode.kind_spec() == EntryKind::Tree),
            ));
        }
    }
}

/// An entry is looked for in the middle first, and then in the half that it must be in.
pub proof fn law_searches_halve_the_tree(
    tree: Seq<EntryView>,
    name: Seq<u8>,
    is_tree: bool,
    low: int,
    high: int,
    middle: int,
)
    requires
        0 <= low < high <= tree.len(),
        2 * middle <= low + high < 2 * middle + 2,
    ensures
        ({
            let place = place_of(
                tree[middle].filename,
                tree[middle].mode.kind_spec() == EntryKind::Tree,
                name,
                is_tree,
            );
            let found = search(tree, name, is_tree, low, high);
            &&& place == Place::Same ==> found == Some(middle)
            &&& place == Place::Before ==> found == search(tree, name, is_tree, middle + 1, high)
            &&& place == Place::After ==> found == search(tree, name, is_tree, low, middle)
        }),
        search(tree, name, is_tree, low, low) is None,
{
}

/// A tree that isn't known has to be loaded. In a known one, a file with the remaining digits as its name is the
/// note. Otherwise the tree of the next two digits is looked into for the rest, and without it, or with no more than
/// two digits left, there is no note.
pub proof fn law_notes_are_looked_for(
    trees: Map<Seq<u8>, Seq<EntryView>>,
    tree_id: Seq<u8>,
    remaining: Seq<u8>,
    is_note: bool,
)
    requires
        is_note == (trees.contains_key(tree_id) && (entry_named(trees[tree_id], remaining, false)
            matches Some(entry) && (entry.mode.kind_spec() == EntryKind::Blob || entry.mode.kind_spec()
            == EntryKind::BlobExecutable))),
    ensures
        !trees.contains_key(tree_id) ==> lookup(trees, tree_id, remaining) == LookupView::Load(tree_id),
        is_note ==> lookup(trees, tree_id, remaining) == LookupView::Found(
            entry_named(trees[tree_id], remaining, false).unwrap().oid,
        ),
        trees.contains_key(tree_id) && !is_note && remaining.len() <= 2 ==> lookup(
            trees,
            tree_id,
            remaining,
        ) is Absent,
        trees.contains_key(tree_id) && !is_note && remaining.len() > 2 ==> (match entry_named(
            trees[tree_id],
            remaining.take(2),
            true,
        ) {
            Some(entry) => if entry.mode.kind_spec() == EntryKind::Tree {
                lookup(trees, tree_id, remaining) == lookup(trees, entry.oid, remaining.skip(2))
            } else {
                lookup(trees, tree_id, remaining) is Absent
            },
            None => lookup(trees, tree_id, remaining) is Absent,
        }),
{
}

/// A decoded tree has the entries that were decoded.
pub proof fn law_decoded_entries_are_kept(entries: Seq<(u16, Seq<u8>, Seq<u8>)>, i: int)
    requires
        0 <= i < entries.len(),
    ensures
        tree_of(entries).len() == entries.len(),
        tree_of(entries)[i].mode.value == entries[i].0,
        tree_of(entries)[i].filename == entries[i].1,
        tree_of(entries)[i].oid == entries[i].2,
{
}

/// A name is added at the end of a list, but never twice.
pub proof fn law_names_are_added_once(list: Seq<Seq<u8>>, name: Seq<u8>)
    ensures
        list.contains(name) ==> with_unique(list, name) == list,
        !list.contains(name) ==> with_unique(list, name) == list.push(name),
{
}

/// Of all references those that match are added in turn.
pub proof fn law_matching_references_are_added(
    list: Seq<Seq<u8>>,
    references: Seq<Seq<u8>>,
    pattern: Seq<u8>,
    name: Seq<u8>,
)
    ensures
        with_marked(list, Seq::empty(), matching(Seq::empty(), pattern)) == list,
        pattern_matches(pattern, name) ==> with_marked(
            list,
            references.push(name),
            matching(references.push(name), pattern),
        ) == with_unique(with_marked(list, references, matching(references, pattern)), name),
        !pattern_matches(pattern, name) ==> with_marked(
            list,
            references.push(name),
            matching(references.push(name), pattern),
        ) == with_marked(list, references, matching(references, pattern)),
{
    assert(references.push(name).drop_last() =~= references);
    assert(matching(references.push(name), pattern).drop_last() =~= matching(references, pattern));
}

/// Whether a pattern has nothing but white space behind the marks that it may begin with.
pub open spec fn has_only_space(pattern: Seq<u8>, from: int) -> bool {
    forall|i: int|
        from <= i < pattern.len() ==> (#[trigger] pattern[i] == 9 || pattern[i] == 10 || pattern[i]
            == 12 || pattern[i] == 13 || pattern[i] == 32)
}

/// Whether there is a byte behind the marks that stands for others.
pub open spec fn has_glob(pattern: Seq<u8>, from: int) -> bool {
    exists|i: int|
        from <= i < pattern.len() && (#[trigger] pattern[i] == 0x2a || pattern[i] == 0x3f || pattern[i]
            == 0x5b || pattern[i] == 0x5c)
}

/// Patterns are blank or have wildcards by their bytes behind an exclamation mark, or a backslash that takes
/// the meaning from an exclamation mark or a hash.
pub proof fn law_patterns_are_told_apart(pattern: Seq<u8>, from: int)
    requires
        from == (if pattern.len() > 0 && pattern[0] == 0x21 {
            1int
        } else if pattern.len() > 1 && pattern[0] == 0x5c && (pattern[1] == 0x21 || pattern[1] == 0x23) {
            1
        } else {
            0
        }),
    ensures
        is_blank(pattern) <==> has_only_space(pattern, from),
        has_wildcard(pattern) <==> has_glob(pattern, from),
{
    let rest = crate::foreign::unmarked(pattern);
    assert(rest =~= pattern.skip(from));
    if is_blank(pattern) {
        assert forall|i: int| from <= i < pattern.len() implies (#[trigger] pattern[i] == 9
            || pattern[i] == 10 || pattern[i] == 12 || pattern[i] == 13 || pattern[i] == 32) by {
            assert(rest[i - from] == pattern[i]);
        }
    }
    if has_only_space(pattern, from) {
        assert forall|i: int| 0 <= i < rest.len() implies crate::foreign::is_ascii_space(
            #[trigger] rest[i],
        ) by {
            assert(pattern[i + from] == rest[i]);
        }
    }
    if has_wildcard(pattern) {
        let i = choose|i: int| 0 <= i < rest.len() && crate::foreign::is_wildcard(#[trigger] rest[i]);
        assert(pattern[i + from] == rest[i]);
    }
    if has_glob(pattern, from) {
        let i = choose|i: int|
            from <= i < pattern.len() && (#[trigger] pattern[i] == 0x2a || pattern[i] == 0x3f
                || pattern[i] == 0x5b || pattern[i] == 0x5c);
        assert(rest[i - from] == pattern[i]);
    }
}

/// A blank pattern is an error. One with a wildcard stands for all references that match it, if they can be listed.
/// Any other stands for the reference of that name, if it is fully qualified.
pub proof fn law_patterns_stand_for_references(
    list: Seq<Seq<u8>>,
    pattern: Seq<u8>,
    all: Seq<Seq<u8>>,
    reason: Seq<char>,
    references: ReferencesView,
)
    ensures
        is_blank(pattern) ==> with_pattern(list, pattern, references) == Err::<Seq<Seq<u8>>, ErrorView>(
            ErrorView::EmptyDisplayRef,
        ),
        !is_blank(pattern) && has_wildcard(pattern) ==> {
            &&& with_pattern(list, pattern, ReferencesView::Listed(all)) == Ok::<
                Seq<Seq<u8>>,
                ErrorView,
            >(with_marked(list, all, matching(all, pattern)))
            &&& with_pattern(list, pattern, ReferencesView::Unlisted) == Err::<
                Seq<Seq<u8>>,
                ErrorView,
            >(ErrorView::IterateReferences(pattern))
            &&& with_pattern(list, pattern, ReferencesView::Unreadable(reason)) == Err::<
                Seq<Seq<u8>>,
                ErrorView,
            >(ErrorView::ReadReference(reason))
        },
        !is_blank(pattern) && !has_wildcard(pattern) && is_full_name(pattern) ==> with_pattern(
            list,
            pattern,
            references,
        ) == Ok::<Seq<Seq<u8>>, ErrorView>(with_unique(list, pattern)),
        !is_blank(pattern) && !has_wildcard(pattern) && !is_full_name(pattern) ==> with_pattern(
            list,
            pattern,
            references,
        ) == Err::<Seq<Seq<u8>>, ErrorView>(ErrorView::DisplayRef(pattern)),
{
}

/// Patterns add their references in turn, and the first error is the one that counts.
pub proof fn law_patterns_are_taken_in_turn(
    list: Seq<Seq<u8>>,
    patterns: Seq<Seq<u8>>,
    pattern: Seq<u8>,
    references: ReferencesView,
)
    ensures
        with_patterns(list, Seq::empty(), references) == Ok::<Seq<Seq<u8>>, ErrorView>(list),
        with_patterns(list, patterns, references) matches Err(err) ==> with_patterns(
            list,
            patterns.push(pattern),
            references,
        ) == Err::<Seq<Seq<u8>>, ErrorView>(err),
        with_patterns(list, patterns, references) matches Ok(earlier) ==> with_patterns(
            list,
            patterns.push(pattern),
            references,
        ) == with_pattern(earlier, pattern, references),
{
    assert(patterns.push(pattern).drop_last() =~= patterns);
}

/// The default reference is the configured one, none for an empty value, and the standard one without a value; what
/// is not fully qualified is an error.
pub proof fn law_default_references(value: Vec<u8>)
    ensures
        default_name(None) == Ok::<Option<Seq<u8>>, ErrorView>(Some(ascii("refs/notes/commits"))),
        value@.len() == 0 ==> default_name(Some(value)) == Ok::<Option<Seq<u8>>, ErrorView>(None),
        value@.len() > 0 && is_full_name(value@) ==> default_name(Some(value)) == Ok::<
            Option<Seq<u8>>,
            ErrorView,
        >(Some(value@)),
        value@.len() > 0 && !is_full_name(value@) ==> default_name(Some(value)) == Err::<
            Option<Seq<u8>>,
            ErrorView,
        >(ErrorView::NotesRef),
{
}

/// What the environment says between colons takes the place of what is configured, even if it says nothing.
pub proof fn law_the_environment_comes_first(text: Vec<u8>, configured: Seq<Vec<u8>>)
    ensures
        shown_patterns(Some(text), configured) == non_empty(fields_of(text@, 0x3a)),
        patterns_between_colons(text@) == non_empty(fields_of(text@, 0x3a)),
        shown_patterns(None, configured).len() == configured.len(),
        forall|i: int|
            0 <= i < configured.len() ==> #[trigger] shown_patterns(None, configured)[i]
                == configured[i]@,
{
}

/// The references of a repository are its default one, if it has one, and then those of the patterns.
pub proof fn law_repositories_show_default_and_patterns(repository: Repository, name: Seq<u8>)
    ensures
        default_name(repository.notes_ref) == Ok::<Option<Seq<u8>>, ErrorView>(Some(name))
            ==> configured_refs(repository) == with_patterns(
            seq![name],
            shown_patterns(repository.display_environment, repository.display_refs@),
            repository.references@,
        ),
        default_name(repository.notes_ref) == Ok::<Option<Seq<u8>>, ErrorView>(None)
            ==> configured_refs(repository) == with_patterns(
            Seq::empty(),
            shown_patterns(repository.display_environment, repository.display_refs@),
            repository.references@,
        ),
        default_name(repository.notes_ref) matches Err(err) ==> configured_refs(repository) == Err::<
            Seq<Seq<u8>>,
            ErrorView,
        >(err),
{
}

/// Notes are looked for in one reference after the other: in one whose tree isn't known that has to be found first,
/// one that there isn't has none, and otherwise its tree holds the note, holds none, or has to be loaded.
pub proof fn law_references_are_asked_in_turn(
    refs: Seq<Seq<u8>>,
    roots: Seq<Option<Option<Seq<u8>>>>,
    trees: Map<Seq<u8>, Seq<EntryView>>,
    object: Seq<u8>,
    count: int,
    found: Seq<(Seq<u8>, Seq<u8>)>,
    root: Seq<u8>,
    id: Seq<u8>,
)
    requires
        0 <= count < refs.len(),
        refs.len() == roots.len(),
    ensures
        notes_in(refs, roots, trees, object, 0) == NotesView::Found(Seq::empty()),
        !(notes_in(refs, roots, trees, object, count) is Found) ==> notes_in(
            refs,
            roots,
            trees,
            object,
            count + 1,
        ) == notes_in(refs, roots, trees, object, count),
        notes_in(refs, roots, trees, object, count) == NotesView::Found(found) ==> {
            let next = notes_in(refs, roots, trees, object, count + 1);
            &&& roots[count] is None ==> next == NotesView::FindRoot(count)
            &&& roots[count] == Some(None::<Seq<u8>>) ==> next == NotesView::Found(found)
            &&& roots[count] == Some(Some(root)) && lookup(trees, root, hex_of(object))
                == LookupView::Found(id) ==> next == NotesView::Found(found.push((refs[count], id)))
            &&& roots[count] == Some(Some(root)) && lookup(trees, root, hex_of(object)) is Absent
                ==> next == NotesView::Found(found)
            &&& roots[count] == Some(Some(root)) && lookup(trees, root, hex_of(object))
                == LookupView::Load(id) ==> next == NotesView::LoadTree(id)
        },
{
}

/// Recording a change leaves as many trees known as before.
pub proof fn law_recorded_edits_keep_the_number(
    refs: Seq<Seq<u8>>,
    roots: Seq<Option<Option<Seq<u8>>>>,
    notes_ref: Seq<u8>,
    tree: Seq<u8>,
)
    ensures
        roots_after_edit(refs, roots, notes_ref, tree).len() == roots.len(),
{
}

/// A name gets what it lacks in front.
pub proof fn law_names_get_what_they_lack(name: Seq<u8>)
    ensures
        ascii("refs/notes/").is_prefix_of(name) ==> expanded(name) == name,
        !ascii("refs/notes/").is_prefix_of(name) && ascii("notes/").is_prefix_of(name) ==> expanded(name)
            == ascii("refs/") + name,
        !ascii("refs/notes/").is_prefix_of(name) && !ascii("notes/").is_prefix_of(name) ==> expanded(
            name,
        ) == ascii("refs/notes/") + name,
{
}

/// A change starts from the tree of the reference and builds on its target; without a reference it starts from the
/// empty tree, and one that refers to another can't be changed.
pub proof fn law_changes_start_from_the_reference(
    notes_ref: Seq<u8>,
    target: ObjectId,
    tree: ObjectId,
    kind: HashKind,
)
    ensures
        edit_base(notes_ref, None, kind) == Ok::<(Seq<u8>, Option<Seq<u8>>), ErrorView>(
            (empty_tree_id(kind), None),
        ),
        edit_base(notes_ref, Some(FoundReference::Direct { target, tree }), kind) == Ok::<
            (Seq<u8>, Option<Seq<u8>>),
            ErrorView,
        >((tree@, Some(target@))),
        edit_base(notes_ref, Some(FoundReference::Indirect), kind) == Err::<
            (Seq<u8>, Option<Seq<u8>>),
            ErrorView,
        >(ErrorView::IndirectNotesRef(notes_ref)),
{
}

/// Adding a note is always committed, and removing one only if there was one: with the new tree, on top of what was
/// there, which must still be there, and with its own message.
pub proof fn law_changes_are_committed(parent: Option<Seq<u8>>, edit: Edit)
    ensures
        edit_commit(EditKind::Add, parent, edit) == Some(
            EditCommitView {
                message: ascii("Notes added by gitoxide"),
                log_message: ascii("notes: ") + ascii("Notes added by gitoxide"),
                tree: edit.tree@,
                parent,
                expected: parent,
            },
        ),
        edit.previous is Some ==> edit_commit(EditKind::Remove, parent, edit) == Some(
            EditCommitView {
                message: ascii("Notes removed by gitoxide"),
                log_message: ascii("notes: ") + ascii("Notes removed by gitoxide"),
                tree: edit.tree@,
                parent,
                expected: parent,
            },
        ),
        edit.previous is None ==> edit_commit(EditKind::Remove, parent, edit) is None,
{
}

/// What the errors say.
pub proof fn law_errors_on_notes_say_why(text: Seq<u8>, reason: Seq<char>)
    ensures
        ErrorView::NotesRef.text() == "core.notesRef must be a fully qualified reference name"@,
        ErrorView::EmptyDisplayRef.text() == "Notes display references must not be empty"@,
        ErrorView::IterateReferences(text).text() == "Could not iterate notes references matching "@
            + lossy_text(text),
        ErrorView::ReadReference(reason).text() == "Could not read reference: "@ + reason,
        ErrorView::DisplayRef(text).text() == "Notes display reference "@ + lossy_text(text)
            + " is not fully qualified"@,
        ErrorView::InvalidNotesRef.text() == "The notes reference name is invalid"@,
        ErrorView::IndirectNotesRef(text).text() == "Notes reference "@ + lossy_text(text)
            + " must be direct"@,
        ErrorView::LoadTree(text).text() == "Could not load notes tree "@ + lossy_text(hex_of(text)),
{
}

} // verus!
