//! Notes and the references that hold them.

use std::collections::HashMap;

use gitcore::note::get;
use gitcore::note::parse_tree;
use gitcore::note::Cache;
use gitcore::note::Lookup;
use gitcore::notes::commit_edit;
use gitcore::notes::edit_root;
use gitcore::notes::expand_notes_ref;
use gitcore::notes::needs_references;
use gitcore::notes::with_contents;
use gitcore::notes::Edit;
use gitcore::notes::EditKind;
use gitcore::notes::Error;
use gitcore::notes::FoundReference;
use gitcore::notes::FullName;
use gitcore::notes::Notes;
use gitcore::notes::PreviousValue;
use gitcore::notes::References;
use gitcore::notes::Repository;
use gitcore::oid::HashKind;
use gitcore::oid::ObjectId;
use gix_object::tree::EntryKind;
use gix_object::WriteTo;

#[derive(Default)]
struct Objects {
    data: HashMap<Vec<u8>, Vec<u8>>,
}

impl Objects {
    fn write(&mut self, kind: gix_object::Kind, data: Vec<u8>) -> gix_hash::ObjectId {
        let id = hash(kind, &data);
        self.data.insert(id.as_bytes().to_vec(), data);
        id
    }

    fn write_tree(&mut self, entries: Vec<(EntryKind, &str, gix_hash::ObjectId)>) -> gix_hash::ObjectId {
        let tree = gix_object::Tree {
            entries: entries
                .into_iter()
                .map(|(kind, filename, oid)| gix_object::tree::Entry {
                    mode: kind.into(),
                    filename: filename.into(),
                    oid,
                })
                .collect(),
        };
        let mut data = Vec::new();
        tree.write_to(&mut data).expect("writing to memory succeeds");
        self.write(gix_object::Kind::Tree, data)
    }

    fn get(&self, root: &ObjectId, object: &ObjectId, cache: &mut Cache) -> Option<ObjectId> {
        loop {
            match get(root, object, cache) {
                Lookup::Found(note) => return Some(note),
                Lookup::Absent => return None,
                Lookup::Load(id) => {
                    let data = self.data.get(&id.bytes).expect("only known trees are asked for");
                    cache.insert(id, parse_tree(data, HashKind::Sha1).expect("valid tree"));
                }
            }
        }
    }
}

fn hash(kind: gix_object::Kind, data: &[u8]) -> gix_hash::ObjectId {
    gix_object::compute_hash(gix_hash::Kind::Sha1, kind, data).expect("hashing succeeds")
}

fn plain(id: gix_hash::ObjectId) -> ObjectId {
    ObjectId::new(id.as_bytes())
}

#[test]
fn lazily_reads_fanout_trees_and_reuses_them() {
    let mut objects = Objects::default();
    let annotated = hash(gix_object::Kind::Blob, b"annotated");
    let note = objects.write(gix_object::Kind::Blob, b"note".to_vec());
    let hex = annotated.to_hex().to_string();
    let subtree = objects.write_tree(vec![(EntryKind::Blob, &hex[2..], note)]);
    let root = objects.write_tree(vec![(EntryKind::Tree, &hex[..2], subtree)]);

    let mut cache = Cache::default();
    assert_eq!(
        objects.get(&plain(root), &plain(annotated), &mut cache),
        Some(plain(note)),
        "the note is found through its fanout path"
    );
    assert_eq!(cache.trees.len(), 2, "only the root and matching subtree were loaded");
    assert_eq!(
        objects.get(&plain(root), &plain(annotated), &mut cache),
        Some(plain(note)),
        "the same lookup remains stable"
    );
    assert_eq!(cache.trees.len(), 2, "repeated lookups reuse decoded trees");
}

#[test]
fn ignores_entries_that_are_not_notes() {
    let mut objects = Objects::default();
    let annotated = hash(gix_object::Kind::Blob, b"annotated");
    let hex = annotated.to_hex().to_string();
    let root = objects.write_tree(vec![(
        EntryKind::Tree,
        &hex,
        gix_hash::ObjectId::empty_tree(gix_hash::Kind::Sha1),
    )]);

    assert_eq!(
        objects.get(&plain(root), &plain(annotated), &mut Cache::default()),
        None,
        "a tree at a note leaf is not a note"
    );
}

#[test]
fn finds_notes_among_many_entries() {
    let mut objects = Objects::default();
    let ids: Vec<_> = (0..40u8)
        .map(|number| hash(gix_object::Kind::Blob, &[number]))
        .collect();
    let mut names: Vec<String> = ids.iter().map(|id| id.to_hex().to_string()).collect();
    names.sort();
    let root = objects.write_tree(
        names
            .iter()
            .map(|name| (EntryKind::Blob, name.as_str(), hash(gix_object::Kind::Blob, name.as_bytes())))
            .collect(),
    );
    let mut cache = Cache::default();
    for id in &ids {
        let expected = hash(gix_object::Kind::Blob, id.to_hex().to_string().as_bytes());
        assert_eq!(objects.get(&plain(root), &plain(*id), &mut cache), Some(plain(expected)));
    }
    let absent = hash(gix_object::Kind::Blob, b"absent");
    assert_eq!(objects.get(&plain(root), &plain(absent), &mut cache), None);
    assert_eq!(cache.trees.len(), 1);
}

#[test]
fn malformed_trees_are_refused() {
    assert!(parse_tree(b"not a tree", HashKind::Sha1).is_none());
    let empty = parse_tree(b"", HashKind::Sha1).expect("the empty tree is a tree");
    assert!(empty.entries.is_empty());
}

#[test]
fn ids_are_shown_in_hexadecimal() {
    assert_eq!(ObjectId::new(&[0x00, 0x1f, 0xa0, 0xff]).to_hex(), b"001fa0ff");
}

fn name(text: &str) -> FullName {
    FullName::new(text.as_bytes()).expect("valid name")
}

fn repository() -> Repository {
    Repository {
        notes_ref: None,
        display_environment: None,
        display_refs: Vec::new(),
        references: References::Listed(vec![
            name("refs/heads/main"),
            name("refs/notes/commits"),
            name("refs/notes/review"),
            name("refs/notes/build"),
        ]),
    }
}

fn refs(repository: &Repository) -> Vec<String> {
    let platform = repository.notes().expect("valid configuration");
    platform
        .refs
        .iter()
        .map(|name| String::from_utf8(name.as_bytes().to_vec()).expect("ASCII"))
        .collect()
}

#[test]
fn the_default_reference_comes_first_and_nothing_comes_twice() {
    let mut repository = repository();
    assert_eq!(refs(&repository), ["refs/notes/commits"]);

    repository.display_refs = vec![b"refs/notes/*".to_vec(), b"refs/other".to_vec()];
    assert!(needs_references(&repository.display_refs));
    assert_eq!(
        refs(&repository),
        [
            "refs/notes/commits",
            "refs/notes/review",
            "refs/notes/build",
            "refs/other"
        ]
    );

    repository.notes_ref = Some(Vec::new());
    assert!(repository.notes().expect("valid").default_ref().is_none());
    assert_eq!(
        refs(&repository),
        [
            "refs/notes/commits",
            "refs/notes/review",
            "refs/notes/build",
            "refs/other"
        ]
    );

    repository.notes_ref = Some(b"refs/notes/mine".to_vec());
    repository.display_environment = Some(b":refs/notes/b*::refs/notes/x:".to_vec());
    assert_eq!(
        refs(&repository),
        ["refs/notes/mine", "refs/notes/build", "refs/notes/x"],
        "the environment takes the place of what is configured"
    );
}

#[test]
fn misconfigured_references_are_reported() {
    let mut broken = repository();
    broken.notes_ref = Some(b"not qualified".to_vec());
    let err = broken.notes().map(|_| ()).expect_err("invalid name");
    assert_eq!(err, Error::NotesRef);
    assert_eq!(
        err.message(),
        "core.notesRef must be a fully qualified reference name"
    );

    let mut broken = repository();
    broken.display_refs = vec![b" \t".to_vec()];
    assert_eq!(
        broken.notes().map(|_| ()).expect_err("empty").message(),
        "Notes display references must not be empty"
    );

    let mut broken = repository();
    broken.display_refs = vec![b"refs/notes/[".to_vec()];
    broken.references = References::Unlisted;
    assert_eq!(
        broken.notes().map(|_| ()).expect_err("no references").message(),
        "Could not iterate notes references matching refs/notes/["
    );

    broken.references = References::Unreadable("refs/x is malformed".to_string());
    assert_eq!(
        broken.notes().map(|_| ()).expect_err("no references").message(),
        "Could not read reference: refs/x is malformed"
    );

    let mut broken = repository();
    broken.display_refs = vec![b"unqualified".to_vec()];
    assert!(!needs_references(&broken.display_refs));
    assert_eq!(
        broken.notes().map(|_| ()).expect_err("unqualified").message(),
        "Notes display reference unqualified is not fully qualified"
    );
    assert_eq!(
        Error::LoadTree(ObjectId::new(&[0xab])).message(),
        "Could not load notes tree ab"
    );
}

#[test]
fn names_are_expanded() {
    let expanded = |text: &str| expand_notes_ref(text.as_bytes()).map(|name| name.as_bytes().to_vec());
    assert_eq!(expanded("review"), Ok(b"refs/notes/review".to_vec()));
    assert_eq!(expanded("notes/review"), Ok(b"refs/notes/review".to_vec()));
    assert_eq!(expanded("refs/notes/review"), Ok(b"refs/notes/review".to_vec()));
    assert_eq!(expanded("refs/heads/x"), Ok(b"refs/notes/refs/heads/x".to_vec()));
    let err = expanded("a..b").expect_err("invalid");
    assert_eq!(err.message(), "The notes reference name is invalid");
}

#[test]
fn platforms_ask_for_what_they_need_and_see_edits() {
    let mut objects = Objects::default();
    let annotated = hash(gix_object::Kind::Blob, b"annotated");
    let hex = annotated.to_hex().to_string();
    let note = hash(gix_object::Kind::Blob, b"note");
    let root = objects.write_tree(vec![(EntryKind::Blob, &hex, note)]);

    let mut repository = repository();
    repository.display_refs = vec![b"refs/notes/review".to_vec()];
    let mut platform = repository.notes().expect("valid");
    assert!(matches!(platform.get(&plain(annotated)), Notes::FindRoot(0)));
    platform.set_root(0, None);
    assert!(matches!(platform.get(&plain(annotated)), Notes::FindRoot(1)));
    platform.set_root(1, Some(plain(root)));
    match platform.get(&plain(annotated)) {
        Notes::LoadTree(id) => {
            let tree = parse_tree(&objects.data[&id.bytes], HashKind::Sha1).expect("valid tree");
            platform.add_tree(id, tree);
        }
        _ => panic!("the tree has to be loaded"),
    }
    let found = match platform.get(&plain(annotated)) {
        Notes::Found(found) => found,
        _ => panic!("everything is known"),
    };
    assert_eq!(found, [(name("refs/notes/review"), plain(note))]);
    let notes = with_contents(&found, &vec![b"note".to_vec()]);
    assert_eq!(notes[0].reference, name("refs/notes/review"));
    assert_eq!(notes[0].blob.data, b"note");

    platform.record_edit(&name("refs/notes/commits"), &plain(root));
    match platform.get(&plain(annotated)) {
        Notes::Found(found) => assert_eq!(
            found,
            [
                (name("refs/notes/commits"), plain(note)),
                (name("refs/notes/review"), plain(note))
            ]
        ),
        _ => panic!("everything is known"),
    }

    let other = hash(gix_object::Kind::Blob, b"other");
    let changed = objects.write_tree(vec![(EntryKind::Blob, &hex, other)]);
    platform.record_edit(&name("refs/notes/review"), &plain(changed));
    let tree = parse_tree(&objects.data[changed.as_bytes()], HashKind::Sha1).expect("valid tree");
    platform.add_tree(plain(changed), tree);
    match platform.get(&plain(annotated)) {
        Notes::Found(found) => assert_eq!(
            found,
            [
                (name("refs/notes/commits"), plain(note)),
                (name("refs/notes/review"), plain(other))
            ],
            "what was written is read back"
        ),
        _ => panic!("everything is known"),
    }

    let platform = platform
        .with_refs(&vec![b"refs/notes/build".to_vec()], &References::Unlisted)
        .expect("valid name");
    assert!(matches!(platform.get(&plain(annotated)), Notes::FindRoot(0)));
    assert_eq!(platform.cache.trees.len(), 2, "trees are kept");
}

#[test]
fn edits_are_committed_on_top_of_what_they_change() {
    let notes_ref = name("refs/notes/commits");
    let (tree, parent) = edit_root(&notes_ref, None, HashKind::Sha1).expect("new references start empty");
    assert_eq!(
        tree,
        plain(gix_hash::ObjectId::empty_tree(gix_hash::Kind::Sha1))
    );
    assert!(parent.is_none());

    let (tree, _) = edit_root(&notes_ref, None, HashKind::Sha256).expect("new references start empty");
    assert_eq!(
        tree.to_hex(),
        b"6ef19b41225c5369f1c104d45d8d85efa9b057b53b14b4b9b939dd74decc5321"
    );

    let id = |byte: u8| ObjectId::new(&[byte; 20]);
    let (tree, parent) = edit_root(
        &notes_ref,
        Some(FoundReference::Direct {
            target: id(1),
            tree: id(2),
        }),
        HashKind::Sha1,
    )
    .expect("direct");
    assert_eq!((tree, parent), (id(2), Some(id(1))));
    let err = edit_root(&notes_ref, Some(FoundReference::Indirect), HashKind::Sha1).expect_err("indirect");
    assert_eq!(err.message(), "Notes reference refs/notes/commits must be direct");

    let edit = Edit {
        tree: id(3),
        previous: None,
    };
    let commit = commit_edit(EditKind::Add, None, &edit).expect("adding always commits");
    assert_eq!(commit.message, b"Notes added by gitoxide");
    assert_eq!(commit.log_message, b"notes: Notes added by gitoxide");
    assert_eq!(commit.expected, PreviousValue::MustNotExist);
    assert!(
        commit_edit(EditKind::Remove, Some(id(1)), &edit).is_none(),
        "there was nothing to remove"
    );
    let edit = Edit {
        tree: id(3),
        previous: Some(id(4)),
    };
    let commit = commit_edit(EditKind::Remove, Some(id(1)), &edit).expect("something was removed");
    assert_eq!(commit.message, b"Notes removed by gitoxide");
    assert_eq!(commit.parent, Some(id(1)));
    assert_eq!(commit.expected, PreviousValue::MustExistAndMatch(id(1)));
    assert_eq!(commit.tree, id(3));
}

#[test]
fn trees_are_read_with_ids_of_their_kind() {
    let mut data = b"100644 a\0".to_vec();
    data.extend_from_slice(&[7; 32]);
    let tree = parse_tree(&data, HashKind::Sha256).expect("valid tree");
    assert_eq!(tree.entries.len(), 1);
    assert_eq!(tree.entries[0].filename, b"a");
    assert_eq!(tree.entries[0].oid, ObjectId::new(&[7; 32]));
    assert!(parse_tree(&data, HashKind::Sha1).is_none());
}
