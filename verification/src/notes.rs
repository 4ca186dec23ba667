//! Access to notes by the references that are configured for them.

use vstd::prelude::*;
use vstd::slice::slice_to_vec;
use vstd::string::StringExecFns;

use crate::bytes::append;
use crate::bytes::ascii;
use crate::bytes::bytes_equal;
use crate::bytes::copy_list;
use crate::bytes::fields_of;
use crate::bytes::literal;
use crate::bytes::non_empty;
use crate::bytes::split;
use crate::bytes::starts_with;
use crate::bytes::views;
use crate::bytes::without_empty;
use crate::foreign::check_full_name;
use crate::foreign::empty_tree;
use crate::foreign::empty_tree_id;
use crate::foreign::is_ascii_space;
use crate::foreign::is_full_name;
use crate::foreign::is_wildcard;
use crate::foreign::lossy_text;
use crate::foreign::matches_pattern;
use crate::foreign::pattern_has_wildcard;
use crate::foreign::pattern_matches;
use crate::foreign::show_lossy;
use crate::foreign::unmarked;
use crate::note::law_stored_notes_are_found;
use crate::note::lookup;
use crate::note::stores_note;
use crate::note::Cache;
use crate::note::EntryView;
use crate::note::Lookup;
use crate::note::LookupView;
use crate::note::Tree;
use crate::oid::hex_of;
use crate::oid::view_id;
use crate::oid::HashKind;
use crate::oid::ObjectId;

verus! {

/// The byte between patterns for references in the environment.
pub const COLON: u8 = 58;

/// The full name of a reference.
#[derive(Clone, Debug, Eq, PartialEq)]
pub struct FullName {
    name: Vec<u8>,
}

impl View for FullName {
    type V = Seq<u8>;

    closed spec fn view(&self) -> Seq<u8> {
        self.name@
    }
}

/// The names in a list.
pub open spec fn names(list: Seq<FullName>) -> Seq<Seq<u8>> {
    list.map_values(|name: FullName| name@)
}

impl FullName {
    /// The given name, if it is fully qualified.
    pub fn new(name: &[u8]) -> (full: Option<FullName>)
        ensures
            match full {
                Some(full) => is_full_name(name@) && full@ == name@,
                None => !is_full_name(name@),
            },
    {
        if check_full_name(name) {
            Some(FullName { name: slice_to_vec(name) })
        } else {
            None
        }
    }

    /// The name of the standard notes reference.
    pub fn standard() -> (full: FullName)
        ensures
            full@ == ascii("refs/notes/commits"),
            is_full_name(full@),
    {
        let name = literal("refs/notes/commits");
        let valid = check_full_name(name.as_slice());
        assert(valid);
        FullName { name }
    }

    /// The bytes of the name.
    pub fn as_bytes(&self) -> (bytes: &[u8])
        ensures
            bytes@ == self@,
    {
        self.name.as_slice()
    }

    /// Another copy of this name.
    pub fn copy(&self) -> (copy: FullName)
        ensures
            copy@ == self@,
    {
        FullName { name: slice_to_vec(self.name.as_slice()) }
    }

    /// Whether both are the same name.
    pub fn same(&self, other: &FullName) -> (same: bool)
        ensures
            same == (self@ == other@),
    {
        bytes_equal(self.name.as_slice(), other.name.as_slice())
    }
}

/// What keeps notes from being read or written.
#[derive(Clone, Debug, Eq, PartialEq)]
pub enum Error {
    /// The configured default reference has no full name.
    NotesRef,
    /// A pattern for references is empty.
    EmptyDisplayRef,
    /// The references for this pattern can't be listed.
    IterateReferences(Vec<u8>),
    /// One of the references can't be read, and why.
    ReadReference(String),
    /// This pattern for references is meant as a full name, and isn't one.
    DisplayRef(Vec<u8>),
    /// The name of a reference to change is invalid.
    InvalidNotesRef,
    /// The reference can't be changed as it stands for another one.
    IndirectNotesRef(Vec<u8>),
    /// A tree of notes can't be loaded.
    LoadTree(ObjectId),
}

/// What an [`Error`] says.
pub enum ErrorView {
    NotesRef,
    EmptyDisplayRef,
    IterateReferences(Seq<u8>),
    ReadReference(Seq<char>),
    DisplayRef(Seq<u8>),
    InvalidNotesRef,
    IndirectNotesRef(Seq<u8>),
    LoadTree(Seq<u8>),
}

impl View for Error {
    type V = ErrorView;

    open spec fn view(&self) -> ErrorView {
        match self {
            Error::NotesRef => ErrorView::NotesRef,
            Error::EmptyDisplayRef => ErrorView::EmptyDisplayRef,
            Error::IterateReferences(pattern) => ErrorView::IterateReferences(pattern@),
            Error::ReadReference(reason) => ErrorView::ReadReference(reason@),
            Error::DisplayRef(pattern) => ErrorView::DisplayRef(pattern@),
            Error::InvalidNotesRef => ErrorView::InvalidNotesRef,
            Error::IndirectNotesRef(name) => ErrorView::IndirectNotesRef(name@),
            Error::LoadTree(id) => ErrorView::LoadTree(id@),
        }
    }
}

impl ErrorView {
    /// What the error says.
    pub open spec fn text(self) -> Seq<char> {
        match self {
            ErrorView::NotesRef => "core.notesRef must be a fully qualified reference name"@,
            ErrorView::EmptyDisplayRef => "Notes display references must not be empty"@,
            ErrorView::IterateReferences(pattern) =>
                "Could not iterate notes references matching "@ + lossy_text(pattern),
            ErrorView::ReadReference(reason) => "Could not read reference: "@ + reason,
            ErrorView::DisplayRef(pattern) => "Notes display reference "@ + lossy_text(pattern)
                + " is not fully qualified"@,
            ErrorView::InvalidNotesRef => "The notes reference name is invalid"@,
            ErrorView::IndirectNotesRef(name) => "Notes reference "@ + lossy_text(name)
                + " must be direct"@,
            ErrorView::LoadTree(id) => "Could not load notes tree "@ + lossy_text(hex_of(id)),
        }
    }
}

impl Error {
    /// What the error says.
    pub fn message(&self) -> (text: String)
        ensures
            text@ == self@.text(),
    {
        match self {
            Error::NotesRef => "core.notesRef must be a fully qualified reference name".to_owned(),
            Error::EmptyDisplayRef => "Notes display references must not be empty".to_owned(),
            Error::IterateReferences(pattern) => {
                let shown = show_lossy(pattern.as_slice());
                "Could not iterate notes references matching ".to_owned().concat(shown.as_str())
            },
            Error::ReadReference(reason) => "Could not read reference: ".to_owned().concat(
                reason.as_str(),
            ),
            Error::DisplayRef(pattern) => {
                let shown = show_lossy(pattern.as_slice());
                "Notes display reference ".to_owned().concat(shown.as_str()).concat(
                    " is not fully qualified",
                )
            },
            Error::InvalidNotesRef => "The notes reference name is invalid".to_owned(),
            Error::IndirectNotesRef(name) => {
                let shown = show_lossy(name.as_slice());
                "Notes reference ".to_owned().concat(shown.as_str()).concat(" must be direct")
            },
            Error::LoadTree(id) => {
                let hex = id.to_hex();
                let shown = show_lossy(hex.as_slice());
                "Could not load notes tree ".to_owned().concat(shown.as_str())
            },
        }
    }
}

/// A list with a name in it, where no name is added twice.
pub open spec fn with_unique(list: Seq<Seq<u8>>, name: Seq<u8>) -> Seq<Seq<u8>> {
    if list.contains(name) {
        list
    } else {
        list.push(name)
    }
}

/// A list with those of `references` in it that are marked.
pub open spec fn with_marked(
    list: Seq<Seq<u8>>,
    references: Seq<Seq<u8>>,
    marks: Seq<bool>,
) -> Seq<Seq<u8>>
    decreases references.len(),
{
    if references.len() == 0 {
        list
    } else {
        let earlier = with_marked(list, references.drop_last(), marks.drop_last());
        if marks.last() {
            with_unique(earlier, references.last())
        } else {
            earlier
        }
    }
}

/// Which of `references` match a pattern.
pub open spec fn matching(references: Seq<Seq<u8>>, pattern: Seq<u8>) -> Seq<bool> {
    references.map_values(|name: Seq<u8>| pattern_matches(pattern, name))
}

/// Whether a pattern holds nothing but white space.
pub open spec fn is_blank(pattern: Seq<u8>) -> bool {
    forall|i: int| 0 <= i < unmarked(pattern).len() ==> is_ascii_space(#[trigger] unmarked(pattern)[i])
}

/// Whether a pattern may match more than one reference.
pub open spec fn has_wildcard(pattern: Seq<u8>) -> bool {
    exists|i: int| 0 <= i < unmarked(pattern).len() && is_wildcard(#[trigger] unmarked(pattern)[i])
}

/// A list with the references in it that a pattern stands for: those of all references that match, or
/// the one of that name, whether there is such a reference or not.
pub open spec fn with_pattern(
    list: Seq<Seq<u8>>,
    pattern: Seq<u8>,
    references: ReferencesView,
) -> Result<Seq<Seq<u8>>, ErrorView> {
    if is_blank(pattern) {
        Err(ErrorView::EmptyDisplayRef)
    } else if has_wildcard(pattern) {
        match references {
            ReferencesView::Listed(references) => Ok(
                with_marked(list, references, matching(references, pattern)),
            ),
            ReferencesView::Unlisted => Err(ErrorView::IterateReferences(pattern)),
            ReferencesView::Unreadable(reason) => Err(ErrorView::ReadReference(reason)),
        }
    } else if is_full_name(pattern) {
        Ok(with_unique(list, pattern))
    } else {
        Err(ErrorView::DisplayRef(pattern))
    }
}

/// A list with the references in it that the patterns stand for, one pattern after the other, or the
/// first error.
pub open spec fn with_patterns(
    list: Seq<Seq<u8>>,
    patterns: Seq<Seq<u8>>,
    references: ReferencesView,
) -> Result<Seq<Seq<u8>>, ErrorView>
    decreases patterns.len(),
{
    if patterns.len() == 0 {
        Ok(list)
    } else {
        match with_patterns(list, patterns.drop_last(), references) {
            Err(err) => Err(err),
            Ok(earlier) => with_pattern(earlier, patterns.last(), references),
        }
    }
}

/// All references of a repository, as far as they could be listed.
#[derive(Clone, Debug, Eq, PartialEq)]
pub enum References {
    /// These are all.
    Listed(Vec<FullName>),
    /// They can't be listed.
    Unlisted,
    /// One of them can't be read, and why.
    Unreadable(String),
}

/// All references of a repository, as far as they could be listed.
pub enum ReferencesView {
    Listed(Seq<Seq<u8>>),
    Unlisted,
    Unreadable(Seq<char>),
}

impl View for References {
    type V = ReferencesView;

    open spec fn view(&self) -> ReferencesView {
        match self {
            References::Listed(references) => ReferencesView::Listed(names(references@)),
            References::Unlisted => ReferencesView::Unlisted,
            References::Unreadable(reason) => ReferencesView::Unreadable(reason@),
        }
    }
}

/// Adds a name, unless the list has it already.
pub fn push_unique(out: &mut Vec<FullName>, reference: FullName)
    ensures
        names(final(out)@) == with_unique(names(old(out)@), reference@),
{
    let ghost before = names(out@);
    let mut i: usize = 0;
    while i < out.len()
        invariant
            i <= out.len(),
            names(out@) == before,
            out@ == old(out)@,
            forall|k: int| 0 <= k < i ==> before[k] != reference@,
        decreases out.len() - i,
    {
        assert(before[i as int] == out@[i as int]@);
        if out[i].same(&reference) {
            assert(before.contains(reference@));
            return ;
        }
        i += 1;
    }
    out.push(reference);
    assert(names(out@) =~= before.push(reference@));
}

/// Adds those of `references` that are marked, in their order.
pub fn push_marked(out: &mut Vec<FullName>, references: &Vec<FullName>, marks: &Vec<bool>)
    requires
        references@.len() == marks@.len(),
    ensures
        names(final(out)@) == with_marked(names(old(out)@), names(references@), marks@),
{
    let ghost before = names(out@);
    let ghost all = names(references@);
    let mut i: usize = 0;
    assert(all.take(0) =~= Seq::empty());
    while i < references.len()
        invariant
            i <= references.len(),
            references@.len() == marks@.len(),
            all == names(references@),
            before == names(old(out)@),
            names(out@) == with_marked(before, all.take(i as int), marks@.take(i as int)),
        decreases references.len() - i,
    {
        proof {
            assert(all.take(i + 1).drop_last() =~= all.take(i as int));
            assert(marks@.take(i + 1).drop_last() =~= marks@.take(i as int));
            assert(all.take(i + 1).last() == references@[i as int]@);
        }
        if marks[i] {
            push_unique(out, references[i].copy());
        }
        i += 1;
    }
    assert(all.take(i as int) =~= all);
    assert(marks@.take(i as int) =~= marks@);
}

fn mark_matches(references: &Vec<FullName>, pattern: &[u8]) -> (marks: Vec<bool>)
    ensures
        marks@ == matching(names(references@), pattern@),
{
    let mut marks: Vec<bool> = Vec::new();
    let mut i: usize = 0;
    while i < references.len()
        invariant
            i <= references.len(),
            marks@.len() == i,
            forall|k: int| 0 <= k < i ==> marks@[k] == matching(names(references@), pattern@)[k],
        decreases references.len() - i,
    {
        marks.push(matches_pattern(pattern, references[i].as_bytes()));
        i += 1;
    }
    assert(marks@ =~= matching(names(references@), pattern@));
    marks
}

/// Adds the references that `pattern` stands for. `references` are all there are, if they could be
/// listed; they are only needed for patterns with wildcards.
pub fn add_refs(pattern: &[u8], references: &References, out: &mut Vec<FullName>) -> (added: Result<
    (),
    Error,
>)
    ensures
        match added {
            Ok(_) => with_pattern(names(old(out)@), pattern@, references@) == Ok::<
                Seq<Seq<u8>>,
                ErrorView,
            >(names(final(out)@)),
            Err(err) => with_pattern(names(old(out)@), pattern@, references@)
                == Err::<Seq<Seq<u8>>, ErrorView>(err@),
        },
{
    match pattern_has_wildcard(pattern) {
        None => Err(Error::EmptyDisplayRef),
        Some(true) => match references {
            References::Listed(references) => {
                let marks = mark_matches(references, pattern);
                push_marked(out, references, &marks);
                Ok(())
            },
            References::Unlisted => Err(Error::IterateReferences(slice_to_vec(pattern))),
            References::Unreadable(reason) => Err(Error::ReadReference(reason.clone())),
        },
        Some(false) => match FullName::new(pattern) {
            Some(name) => {
                push_unique(out, name);
                Ok(())
            },
            None => Err(Error::DisplayRef(slice_to_vec(pattern))),
        },
    }
}

/// Whether the references have to be listed for any of the patterns.
pub fn needs_references(patterns: &Vec<Vec<u8>>) -> (needs: bool)
    ensures
        needs == exists|i: int|
            0 <= i < patterns@.len() && !is_blank(#[trigger] patterns@[i]@) && has_wildcard(
                patterns@[i]@,
            ),
{
    let mut i: usize = 0;
    while i < patterns.len()
        invariant
            i <= patterns.len(),
            forall|k: int|
                0 <= k < i ==> !(!is_blank(#[trigger] patterns@[k]@) && has_wildcard(patterns@[k]@)),
        decreases patterns.len() - i,
    {
        let wildcard = pattern_has_wildcard(patterns[i].as_slice());
        assert(wildcard is None <==> is_blank(patterns@[i as int]@));
        assert(wildcard matches Some(found) ==> found == has_wildcard(patterns@[i as int]@));
        match wildcard {
            Some(true) => return true,
            _ => {},
        }
        i += 1;
    }
    false
}

fn collect_refs(
    first: Vec<FullName>,
    patterns: &Vec<Vec<u8>>,
    references: &References,
) -> (refs: Result<Vec<FullName>, Error>)
    ensures
        match refs {
            Ok(refs) => with_patterns(names(first@), views(patterns@), references@)
                == Ok::<Seq<Seq<u8>>, ErrorView>(names(refs@)),
            Err(err) => with_patterns(names(first@), views(patterns@), references@)
                == Err::<Seq<Seq<u8>>, ErrorView>(err@),
        },
{
    let ghost all = views(patterns@);
    let mut refs = first;
    let mut i: usize = 0;
    assert(all.take(0) =~= Seq::empty());
    while i < patterns.len()
        invariant
            i <= patterns.len(),
            all == views(patterns@),
            with_patterns(names(first@), all.take(i as int), references@) == Ok::<
                Seq<Seq<u8>>,
                ErrorView,
            >(names(refs@)),
        decreases patterns.len() - i,
    {
        proof {
            assert(all.take(i + 1).drop_last() =~= all.take(i as int));
            assert(all.take(i + 1).last() == patterns@[i as int]@);
        }
        if let Err(err) = add_refs(patterns[i].as_slice(), references, &mut refs) {
            proof {
                lemma_errors_stay(
                    names(first@),
                    all,
                    references@,
                    i + 1,
                );
            }
            return Err(err);
        }
        i += 1;
    }
    assert(all.take(i as int) =~= all);
    Ok(refs)
}

proof fn lemma_errors_stay(
    list: Seq<Seq<u8>>,
    patterns: Seq<Seq<u8>>,
    references: ReferencesView,
    i: int,
)
    requires
        0 <= i <= patterns.len(),
        with_patterns(list, patterns.take(i), references) is Err,
    ensures
        with_patterns(list, patterns, references) == with_patterns(
            list,
            patterns.take(i),
            references,
        ),
    decreases patterns.len() - i,
{
    if i < patterns.len() {
        assert(patterns.take(i + 1).drop_last() =~= patterns.take(i));
        lemma_errors_stay(list, patterns, references, i + 1);
    } else {
        assert(patterns.take(i) =~= patterns);
    }
}

/// The patterns between colons that are not empty.
pub open spec fn patterns_between_colons(text: Seq<u8>) -> Seq<Seq<u8>> {
    non_empty(fields_of(text, COLON))
}

/// The patterns for references whose notes are shown: what the environment says, if it says anything,
/// and what is configured otherwise.
pub open spec fn shown_patterns(
    environment: Option<Vec<u8>>,
    configured: Seq<Vec<u8>>,
) -> Seq<Seq<u8>> {
    match environment {
        Some(text) => patterns_between_colons(text@),
        None => views(configured),
    }
}

/// The patterns for references whose notes are shown: what the environment says, if it says anything,
/// and what is configured otherwise.
pub fn display_patterns(environment: &Option<Vec<u8>>, configured: &Vec<Vec<u8>>) -> (patterns: Vec<
    Vec<u8>,
>)
    ensures
        views(patterns@) == shown_patterns(*environment, configured@),
{
    match environment {
        Some(text) => without_empty(split(text.as_slice(), COLON)),
        None => copy_list(configured),
    }
}

/// The reference that notes are written to unless another one is given.
pub open spec fn default_name(notes_ref: Option<Vec<u8>>) -> Result<Option<Seq<u8>>, ErrorView> {
    match notes_ref {
        None => Ok(Some(ascii("refs/notes/commits"))),
        Some(value) => if value@.len() == 0 {
            Ok(None)
        } else if is_full_name(value@) {
            Ok(Some(value@))
        } else {
            Err(ErrorView::NotesRef)
        },
    }
}

/// The name of a reference, if there is one.
pub open spec fn name_option(name: Option<FullName>) -> Option<Seq<u8>> {
    match name {
        Some(name) => Some(name@),
        None => None,
    }
}

/// The reference that notes are written to unless another one is given, from the value of
/// `core.notesRef`: the standard one without a value, and none for an empty value.
pub fn default_notes_ref(notes_ref: &Option<Vec<u8>>) -> (name: Result<Option<FullName>, Error>)
    ensures
        match name {
            Ok(name) => default_name(*notes_ref) == Ok::<Option<Seq<u8>>, ErrorView>(
                name_option(name),
            ),
            Err(err) => default_name(*notes_ref) == Err::<Option<Seq<u8>>, ErrorView>(err@),
        },
{
    match notes_ref {
        None => Ok(Some(FullName::standard())),
        Some(value) => {
            if value.len() == 0 {
                return Ok(None);
            }
            match FullName::new(value.as_slice()) {
                Some(name) => Ok(Some(name)),
                None => Err(Error::NotesRef),
            }
        },
    }
}

/// What a repository says of its notes.
#[derive(Clone, Debug)]
pub struct Repository {
    /// The value of `core.notesRef`.
    pub notes_ref: Option<Vec<u8>>,
    /// The value of `GIT_NOTES_DISPLAY_REF` in the environment, if it may be used.
    pub display_environment: Option<Vec<u8>>,
    /// The values of `notes.displayRef`.
    pub display_refs: Vec<Vec<u8>>,
    /// All references, as far as they could be listed.
    pub references: References,
}

/// Cached access to one or more notes references.
#[derive(Clone, Debug)]
pub struct Platform {
    /// The reference that notes are written to unless another one is given.
    pub default_ref: Option<FullName>,
    /// The references whose notes are shown, in this order.
    pub refs: Vec<FullName>,
    /// The tree of each of those references, as far as it is known, where a missing reference has
    /// none.
    pub roots: Vec<Option<Option<ObjectId>>>,
    /// The trees that are known.
    pub cache: Cache,
}

/// What is known of the tree of a reference.
pub open spec fn root_view(root: Option<Option<ObjectId>>) -> Option<Option<Seq<u8>>> {
    match root {
        Some(root) => Some(view_id(root)),
        None => None,
    }
}

/// What is known of the trees of references.
pub open spec fn roots_view(roots: Seq<Option<Option<ObjectId>>>) -> Seq<Option<Option<Seq<u8>>>> {
    roots.map_values(|root: Option<Option<ObjectId>>| root_view(root))
}

/// The references that a repository shows notes of.
pub open spec fn configured_refs(repository: Repository) -> Result<Seq<Seq<u8>>, ErrorView> {
    match default_name(repository.notes_ref) {
        Err(err) => Err(err),
        Ok(name) => with_patterns(
            match name {
                Some(name) => seq![name],
                None => seq![],
            },
            shown_patterns(repository.display_environment, repository.display_refs@),
            repository.references@,
        ),
    }
}

impl Repository {
    /// Return a platform for repeated notes queries and mutations.
    pub fn notes(&self) -> (platform: Result<Platform, Error>)
        ensures
            match platform {
                Ok(platform) => {
                    &&& configured_refs(*self) == Ok::<Seq<Seq<u8>>, ErrorView>(
                        names(platform.refs@),
                    )
                    &&& default_name(self.notes_ref) == Ok::<Option<Seq<u8>>, ErrorView>(
                        name_option(platform.default_ref),
                    )
                    &&& platform.is_fresh()
                },
                Err(err) => configured_refs(*self) == Err::<Seq<Seq<u8>>, ErrorView>(err@),
            },
    {
        Platform::new(self)
    }
}

fn unknown_roots(count: usize) -> (roots: Vec<Option<Option<ObjectId>>>)
    ensures
        roots@.len() == count,
        forall|i: int| 0 <= i < count ==> (#[trigger] roots@[i]) is None,
{
    let mut roots: Vec<Option<Option<ObjectId>>> = Vec::new();
    let mut i: usize = 0;
    while i < count
        invariant
            i <= count,
            roots@.len() == i,
            forall|k: int| 0 <= k < i ==> (#[trigger] roots@[k]) is None,
        decreases count - i,
    {
        roots.push(None);
        i += 1;
    }
    roots
}

/// What comes of looking for notes in what is known.
pub enum Notes {
    /// The tree of the reference at this position has to be found first.
    FindRoot(usize),
    /// This tree has to be loaded first.
    LoadTree(ObjectId),
    /// These are the notes, each with its reference.
    Found(Vec<(FullName, ObjectId)>),
}

/// What comes of looking for notes.
pub enum NotesView {
    FindRoot(int),
    LoadTree(Seq<u8>),
    Found(Seq<(Seq<u8>, Seq<u8>)>),
}

/// The notes in a list.
pub open spec fn found_view(list: Seq<(FullName, ObjectId)>) -> Seq<(Seq<u8>, Seq<u8>)> {
    list.map_values(|note: (FullName, ObjectId)| (note.0@, note.1@))
}

impl View for Notes {
    type V = NotesView;

    open spec fn view(&self) -> NotesView {
        match self {
            Notes::FindRoot(index) => NotesView::FindRoot(*index as int),
            Notes::LoadTree(id) => NotesView::LoadTree(id@),
            Notes::Found(list) => NotesView::Found(found_view(list@)),
        }
    }
}

/// What comes of looking for the notes of an object in the first `count` references, one after the
/// other.
pub open spec fn notes_in(
    refs: Seq<Seq<u8>>,
    roots: Seq<Option<Option<Seq<u8>>>>,
    trees: Map<Seq<u8>, Seq<EntryView>>,
    object: Seq<u8>,
    count: int,
) -> NotesView
    decreases count,
{
    if count <= 0 {
        NotesView::Found(Seq::empty())
    } else {
        match notes_in(refs, roots, trees, object, count - 1) {
            NotesView::Found(earlier) => match roots[count - 1] {
                None => NotesView::FindRoot(count - 1),
                Some(None) => NotesView::Found(earlier),
                Some(Some(root)) => match lookup(trees, root, hex_of(object)) {
                    LookupView::Found(note) => NotesView::Found(
                        earlier.push((refs[count - 1], note)),
                    ),
                    LookupView::Absent => NotesView::Found(earlier),
                    LookupView::Load(id) => NotesView::LoadTree(id),
                },
            },
            step => step,
        }
    }
}

impl Platform {
    /// There is something known of each reference, and no tree is known twice.
    pub open spec fn wf(&self) -> bool {
        self.roots@.len() == self.refs@.len() && self.cache.wf()
    }

    /// Nothing was looked for yet.
    pub open spec fn is_fresh(&self) -> bool {
        &&& self.wf()
        &&& forall|i: int| 0 <= i < self.roots@.len() ==> (#[trigger] self.roots@[i]) is None
        &&& self.cache@ == Map::<Seq<u8>, Seq<EntryView>>::empty()
    }

    /// A platform for the notes of a repository: those of the default reference come first, and those
    /// of the patterns follow.
    pub fn new(repository: &Repository) -> (platform: Result<Platform, Error>)
        ensures
            match platform {
                Ok(platform) => {
                    &&& configured_refs(*repository) == Ok::<Seq<Seq<u8>>, ErrorView>(
                        names(platform.refs@),
                    )
                    &&& default_name(repository.notes_ref) == Ok::<Option<Seq<u8>>, ErrorView>(
                        name_option(platform.default_ref),
                    )
                    &&& platform.is_fresh()
                },
                Err(err) => configured_refs(*repository) == Err::<Seq<Seq<u8>>, ErrorView>(err@),
            },
    {
        let default_ref = match default_notes_ref(&repository.notes_ref) {
            Ok(default_ref) => default_ref,
            Err(err) => return Err(err),
        };
        let mut first: Vec<FullName> = Vec::new();
        if let Some(name) = &default_ref {
            first.push(name.copy());
        }
        proof {
            match name_option(default_ref) {
                Some(name) => assert(names(first@) =~= seq![name]),
                None => assert(names(first@) =~= seq![]),
            }
        }
        let patterns = display_patterns(&repository.display_environment, &repository.display_refs);
        match collect_refs(first, &patterns, &repository.references) {
            Err(err) => Err(err),
            Ok(refs) => {
                let roots = unknown_roots(refs.len());
                Ok(Platform { default_ref, refs, roots, cache: Cache::default() })
            },
        }
    }

    /// Replace configured display references with `refs`. Nothing is known of their trees then, but
    /// the trees that were loaded are kept.
    pub fn with_refs(self, refs: &Vec<Vec<u8>>, references: &References) -> (platform:
        Result<Platform, Error>)
        requires
            self.wf(),
        ensures
            match platform {
                Ok(platform) => {
                    &&& with_patterns(Seq::empty(), views(refs@), references@)
                        == Ok::<Seq<Seq<u8>>, ErrorView>(names(platform.refs@))
                    &&& platform.wf()
                    &&& platform.default_ref == self.default_ref
                    &&& platform.cache == self.cache
                    &&& forall|i: int|
                        0 <= i < platform.roots@.len() ==> (#[trigger] platform.roots@[i]) is None
                },
                Err(err) => with_patterns(Seq::empty(), views(refs@), references@)
                    == Err::<Seq<Seq<u8>>, ErrorView>(err@),
            },
    {
        let first: Vec<FullName> = Vec::new();
        assert(names(first@) =~= Seq::empty());
        match collect_refs(first, refs, references) {
            Err(err) => Err(err),
            Ok(refs) => {
                let roots = unknown_roots(refs.len());
                Ok(Platform { default_ref: self.default_ref, refs, roots, cache: self.cache })
            },
        }
    }

    /// Return the default notes reference selected by configuration.
    pub fn default_ref(&self) -> (name: Option<&FullName>)
        ensures
            match name {
                Some(name) => self.default_ref == Some(*name),
                None => self.default_ref is None,
            },
    {
        match &self.default_ref {
            Some(name) => Some(name),
            None => None,
        }
    }

    /// Return all notes associated with `object` in configured display order, or what has to be known
    /// first.
    pub fn get(&self, object: &ObjectId) -> (notes: Notes)
        requires
            self.wf(),
        ensures
            notes@ == notes_in(
                names(self.refs@),
                roots_view(self.roots@),
                self.cache@,
                object@,
                self.refs@.len() as int,
            ),
    {
        let ghost refs = names(self.refs@);
        let ghost roots = roots_view(self.roots@);
        let mut found: Vec<(FullName, ObjectId)> = Vec::new();
        let mut i: usize = 0;
        assert(found_view(found@) =~= Seq::empty());
        while i < self.refs.len()
            invariant
                i <= self.refs.len(),
                self.wf(),
                refs == names(self.refs@),
                roots == roots_view(self.roots@),
                notes_in(refs, roots, self.cache@, object@, i as int) == NotesView::Found(
                    found_view(found@),
                ),
            decreases self.refs.len() - i,
        {
            proof {
                assert(roots[i as int] == root_view(self.roots@[i as int]));
            }
            let ghost before = found_view(found@);
            match &self.roots[i] {
                None => {
                    proof {
                        lemma_steps_stay(refs, roots, self.cache@, object@, i + 1, refs.len() as int);
                    }
                    return Notes::FindRoot(i);
                },
                Some(None) => {},
                Some(Some(root)) => match crate::note::get(root, object, &self.cache) {
                    Lookup::Load(id) => {
                        proof {
                            lemma_steps_stay(
                                refs,
                                roots,
                                self.cache@,
                                object@,
                                i + 1,
                                refs.len() as int,
                            );
                        }
                        return Notes::LoadTree(id);
                    },
                    Lookup::Absent => {},
                    Lookup::Found(note) => {
                        let ghost added = (self.refs@[i as int]@, note@);
                        found.push((self.refs[i].copy(), note));
                        assert(found_view(found@) =~= before.push(added));
                    },
                },
            }
            i += 1;
        }
        Notes::Found(found)
    }

    /// Notes the tree of the reference at a position, or that there is no such reference.
    pub fn set_root(&mut self, index: usize, root: Option<ObjectId>)
        requires
            old(self).wf(),
            index < old(self).refs@.len(),
        ensures
            final(self).wf(),
            final(self).default_ref == old(self).default_ref,
            final(self).refs == old(self).refs,
            final(self).cache == old(self).cache,
            roots_view(final(self).roots@) == roots_view(old(self).roots@).update(
                index as int,
                Some(view_id(root)),
            ),
    {
        let ghost before = roots_view(self.roots@);
        self.roots[index] = Some(root);
        assert(roots_view(self.roots@) =~= before.update(index as int, Some(view_id(root))));
    }

    /// Keeps a tree.
    pub fn add_tree(&mut self, id: ObjectId, tree: Tree)
        requires
            old(self).wf(),
        ensures
            final(self).wf(),
            final(self).default_ref == old(self).default_ref,
            final(self).refs == old(self).refs,
            final(self).roots == old(self).roots,
            final(self).cache@ == (if old(self).cache@.contains_key(id@) {
                old(self).cache@
            } else {
                old(self).cache@.insert(id@, tree@)
            }),
    {
        self.cache.insert(id, tree);
    }

    /// Notes that a reference now has the given tree, wherever its notes are shown.
    pub fn record_edit(&mut self, notes_ref: &FullName, tree: &ObjectId)
        requires
            old(self).wf(),
        ensures
            final(self).wf(),
            final(self).default_ref == old(self).default_ref,
            final(self).refs == old(self).refs,
            final(self).cache == old(self).cache,
            roots_view(final(self).roots@) == roots_after_edit(
                names(old(self).refs@),
                roots_view(old(self).roots@),
                notes_ref@,
                tree@,
            ),
    {
        let ghost before = *self;
        let ghost expected = roots_after_edit(
            names(self.refs@),
            roots_view(self.roots@),
            notes_ref@,
            tree@,
        );
        let mut i: usize = 0;
        while i < self.refs.len()
            invariant
                i <= self.refs.len(),
                self.wf(),
                self.default_ref == before.default_ref,
                self.refs == before.refs,
                self.cache == before.cache,
                before.roots@.len() == before.refs@.len(),
                expected == roots_after_edit(
                    names(before.refs@),
                    roots_view(before.roots@),
                    notes_ref@,
                    tree@,
                ),
                forall|k: int|
                    0 <= k < self.roots@.len() ==> root_view(#[trigger] self.roots@[k]) == (if k
                        < i {
                        expected[k]
                    } else {
                        root_view(before.roots@[k])
                    }),
            decreases self.refs.len() - i,
        {
            assert(names(before.refs@)[i as int] == self.refs@[i as int]@);
            if self.refs[i].same(notes_ref) {
                self.roots[i] = Some(Some(tree.copy()));
            }
            i += 1;
        }
        assert(roots_view(self.roots@) =~= expected);
    }
}

proof fn lemma_steps_stay(
    refs: Seq<Seq<u8>>,
    roots: Seq<Option<Option<Seq<u8>>>>,
    trees: Map<Seq<u8>, Seq<EntryView>>,
    object: Seq<u8>,
    fewer: int,
    more: int,
)
    requires
        fewer <= more,
        !(notes_in(refs, roots, trees, object, fewer) is Found),
    ensures
        notes_in(refs, roots, trees, object, more) == notes_in(refs, roots, trees, object, fewer),
    decreases more - fewer,
{
    if fewer < more {
        lemma_steps_stay(refs, roots, trees, object, fewer, more - 1);
    }
}

/// What is known of the trees of references after one of them got another tree.
pub open spec fn roots_after_edit(
    refs: Seq<Seq<u8>>,
    roots: Seq<Option<Option<Seq<u8>>>>,
    notes_ref: Seq<u8>,
    tree: Seq<u8>,
) -> Seq<Option<Option<Seq<u8>>>> {
    Seq::new(
        roots.len(),
        |i: int|
            if refs[i] == notes_ref {
                Some(Some(tree))
            } else {
                roots[i]
            },
    )
}

/// The name of a notes reference that may be given without what it begins with.
pub open spec fn expanded(name: Seq<u8>) -> Seq<u8> {
    if ascii("refs/notes/").is_prefix_of(name) {
        name
    } else if ascii("notes/").is_prefix_of(name) {
        ascii("refs/") + name
    } else {
        ascii("refs/notes/") + name
    }
}

/// The name of a notes reference that may be given without what it begins with.
pub fn expand(name: &[u8]) -> (full: Vec<u8>)
    ensures
        full@ == expanded(name@),
{
    if starts_with(name, "refs/notes/".as_bytes()) {
        slice_to_vec(name)
    } else if starts_with(name, "notes/".as_bytes()) {
        let mut full = literal("refs/");
        append(&mut full, name);
        full
    } else {
        let mut full = literal("refs/notes/");
        append(&mut full, name);
        full
    }
}

/// The full name of a notes reference that may be given without what it begins with.
pub fn expand_notes_ref(name: &[u8]) -> (full: Result<FullName, Error>)
    ensures
        match full {
            Ok(full) => full@ == expanded(name@) && is_full_name(expanded(name@)),
            Err(err) => err@ == ErrorView::InvalidNotesRef && !is_full_name(expanded(name@)),
        },
{
    let full = expand(name);
    match FullName::new(full.as_slice()) {
        Some(full) => Ok(full),
        None => Err(Error::InvalidNotesRef),
    }
}

/// A reference that notes are to be written to, as it was found.
pub enum FoundReference {
    /// It refers to a commit, which has a tree.
    Direct { target: ObjectId, tree: ObjectId },
    /// It refers to another reference.
    Indirect,
}

/// The tree to change and the commit to build on, if there is one: without a reference it is the
/// empty tree. A reference that refers to another one can't be changed.
pub open spec fn edit_base(
    notes_ref: Seq<u8>,
    reference: Option<FoundReference>,
    object_hash: HashKind,
) -> Result<(Seq<u8>, Option<Seq<u8>>), ErrorView> {
    match reference {
        None => Ok((empty_tree_id(object_hash), None)),
        Some(FoundReference::Direct { target, tree }) => Ok((tree@, Some(target@))),
        Some(FoundReference::Indirect) => Err(ErrorView::IndirectNotesRef(notes_ref)),
    }
}

/// The tree to change and the commit to build on, if there is one, in a repository with the given kind
/// of ids.
pub fn edit_root(
    notes_ref: &FullName,
    reference: Option<FoundReference>,
    object_hash: HashKind,
) -> (base: Result<(ObjectId, Option<ObjectId>), Error>)
    ensures
        edit_base(notes_ref@, reference, object_hash) == (match base {
            Ok((tree, parent)) => Ok::<(Seq<u8>, Option<Seq<u8>>), ErrorView>(
                (tree@, view_id(parent)),
            ),
            Err(err) => Err(err@),
        }),
{
    match reference {
        None => Ok((ObjectId { bytes: empty_tree(object_hash) }, None)),
        Some(FoundReference::Direct { target, tree }) => Ok((tree, Some(target))),
        Some(FoundReference::Indirect) => Err(
            Error::IndirectNotesRef(slice_to_vec(notes_ref.as_bytes())),
        ),
    }
}

/// How notes were changed.
#[derive(Clone, Debug, Eq, PartialEq)]
pub struct Edit {
    /// The tree with the change.
    pub tree: ObjectId,
    /// The note that was there before.
    pub previous: Option<ObjectId>,
}

/// What is done to a note.
#[derive(Clone, Copy, Debug, Eq, PartialEq, Structural)]
pub enum EditKind {
    /// It is added or replaced.
    Add,
    /// It is removed.
    Remove,
}

/// What has to hold of a reference for it to be changed.
#[derive(Clone, Debug, Eq, PartialEq)]
pub enum PreviousValue {
    /// There must be no such reference.
    MustNotExist,
    /// It must refer to this commit.
    MustExistAndMatch(ObjectId),
}

/// A commit that changes notes.
#[derive(Clone, Debug, Eq, PartialEq)]
pub struct EditCommit {
    /// The message of the commit.
    pub message: Vec<u8>,
    /// The message in the log of the reference.
    pub log_message: Vec<u8>,
    /// The tree of the commit.
    pub tree: ObjectId,
    /// The commit before it.
    pub parent: Option<ObjectId>,
    /// What has to hold of the reference.
    pub expected: PreviousValue,
}

/// The message of a commit that changes notes.
pub open spec fn edit_message(kind: EditKind) -> Seq<u8> {
    match kind {
        EditKind::Add => ascii("Notes added by gitoxide"),
        EditKind::Remove => ascii("Notes removed by gitoxide"),
    }
}

/// What a [`EditCommit`] says. Without an expected commit there must be no reference.
#[verifier::ext_equal]
pub struct EditCommitView {
    pub message: Seq<u8>,
    pub log_message: Seq<u8>,
    pub tree: Seq<u8>,
    pub parent: Option<Seq<u8>>,
    pub expected: Option<Seq<u8>>,
}

impl View for EditCommit {
    type V = EditCommitView;

    open spec fn view(&self) -> EditCommitView {
        EditCommitView {
            message: self.message@,
            log_message: self.log_message@,
            tree: self.tree@,
            parent: view_id(self.parent),
            expected: match self.expected {
                PreviousValue::MustNotExist => None,
                PreviousValue::MustExistAndMatch(id) => Some(id@),
            },
        }
    }
}

/// The commit that a change of notes needs: adding a note always does, and removing one only if there
/// was one. The reference must still be what the change was based on.
pub open spec fn edit_commit(kind: EditKind, parent: Option<Seq<u8>>, edit: Edit) -> Option<
    EditCommitView,
> {
    if kind == EditKind::Remove && edit.previous is None {
        None
    } else {
        Some(
            EditCommitView {
                message: edit_message(kind),
                log_message: ascii("notes: ") + edit_message(kind),
                tree: edit.tree@,
                parent,
                expected: parent,
            },
        )
    }
}

/// The commit that a change of notes needs.
pub fn commit_edit(kind: EditKind, parent: Option<ObjectId>, edit: &Edit) -> (commit: Option<
    EditCommit,
>)
    ensures
        edit_commit(kind, view_id(parent), *edit) == (match commit {
            Some(commit) => Some(commit@),
            None => None,
        }),
{
    if kind == EditKind::Remove && edit.previous.is_none() {
        return None;
    }
    let message = match kind {
        EditKind::Add => literal("Notes added by gitoxide"),
        EditKind::Remove => literal("Notes removed by gitoxide"),
    };
    let mut log_message = literal("notes: ");
    append(&mut log_message, message.as_slice());
    let expected = match &parent {
        None => PreviousValue::MustNotExist,
        Some(parent) => PreviousValue::MustExistAndMatch(parent.copy()),
    };
    Some(EditCommit { message, log_message, tree: edit.tree.copy(), parent, expected })
}

/// The contents of a note.
#[derive(Clone, Debug, Eq, PartialEq)]
pub struct Blob {
    /// The id of the note.
    pub id: ObjectId,
    /// What it says.
    pub data: Vec<u8>,
}

/// A note and the reference from which it originated.
#[derive(Clone, Debug, Eq, PartialEq)]
pub struct Note {
    /// The source notes reference.
    pub reference: FullName,
    /// The note blob.
    pub blob: Blob,
}

/// The notes that were found, with what each says.
pub fn with_contents(found: &Vec<(FullName, ObjectId)>, contents: &Vec<Vec<u8>>) -> (notes: Vec<Note>)
    requires
        found@.len() == contents@.len(),
    ensures
        notes@.len() == found@.len(),
        forall|i: int|
            0 <= i < notes@.len() ==> (#[trigger] notes@[i]).reference@ == found@[i].0@
                && notes@[i].blob.id@ == found@[i].1@ && notes@[i].blob.data@ == contents@[i]@,
{
    let mut notes: Vec<Note> = Vec::new();
    let mut i: usize = 0;
    while i < found.len()
        invariant
            i <= found.len(),
            found@.len() == contents@.len(),
            notes@.len() == i,
            forall|k: int|
                0 <= k < i ==> (#[trigger] notes@[k]).reference@ == found@[k].0@
                    && notes@[k].blob.id@ == found@[k].1@ && notes@[k].blob.data@ == contents@[k]@,
        decreases found.len() - i,
    {
        notes.push(
            Note {
                reference: found[i].0.copy(),
                blob: Blob { id: found[i].1.copy(), data: slice_to_vec(contents[i].as_slice()) },
            },
        );
        i += 1;
    }
    notes
}

/// No reference is shown twice: adding a pattern to a list without duplicates leaves it so.
pub proof fn law_references_are_unique(
    list: Seq<Seq<u8>>,
    pattern: Seq<u8>,
    references: ReferencesView,
)
    requires
        list.no_duplicates(),
    ensures
        with_pattern(list, pattern, references) matches Ok(more) ==> more.no_duplicates(),
{
    if let ReferencesView::Listed(references) = references {
        lemma_marked_are_unique(list, references, matching(references, pattern));
    }
}

proof fn lemma_marked_are_unique(list: Seq<Seq<u8>>, references: Seq<Seq<u8>>, marks: Seq<bool>)
    requires
        list.no_duplicates(),
    ensures
        with_marked(list, references, marks).no_duplicates(),
    decreases references.len(),
{
    if references.len() > 0 {
        lemma_marked_are_unique(list, references.drop_last(), marks.drop_last());
    }
}

/// No reference that is configured is shown twice.
pub proof fn law_configured_references_are_unique(
    list: Seq<Seq<u8>>,
    patterns: Seq<Seq<u8>>,
    references: ReferencesView,
)
    requires
        list.no_duplicates(),
    ensures
        with_patterns(list, patterns, references) matches Ok(more) ==> more.no_duplicates(),
    decreases patterns.len(),
{
    if patterns.len() > 0 {
        law_configured_references_are_unique(list, patterns.drop_last(), references);
        if let Ok(earlier) = with_patterns(list, patterns.drop_last(), references) {
            law_references_are_unique(earlier, patterns.last(), references);
        }
    }
}

/// The default reference, where there is one, is shown first.
pub proof fn law_the_default_reference_comes_first(
    name: Seq<u8>,
    patterns: Seq<Seq<u8>>,
    references: ReferencesView,
)
    ensures
        with_patterns(seq![name], patterns, references) matches Ok(more) ==> more.len() > 0
            && more[0] == name,
    decreases patterns.len(),
{
    if patterns.len() > 0 {
        law_the_default_reference_comes_first(name, patterns.drop_last(), references);
        if let Ok(earlier) = with_patterns(seq![name], patterns.drop_last(), references) {
            if let ReferencesView::Listed(references) = references {
                lemma_marked_keep_the_first(
                    earlier,
                    references,
                    matching(references, patterns.last()),
                );
            }
        }
    }
}

proof fn lemma_marked_keep_the_first(list: Seq<Seq<u8>>, references: Seq<Seq<u8>>, marks: Seq<bool>)
    requires
        list.len() > 0,
    ensures
        with_marked(list, references, marks).len() > 0,
        with_marked(list, references, marks)[0] == list[0],
    decreases references.len(),
{
    if references.len() > 0 {
        lemma_marked_keep_the_first(list, references.drop_last(), marks.drop_last());
    }
}

/// After a change is recorded, notes of the changed reference are looked for in its new tree, and those
/// of other references where they were.
pub proof fn law_edits_are_seen(
    refs: Seq<Seq<u8>>,
    roots: Seq<Option<Option<Seq<u8>>>>,
    notes_ref: Seq<u8>,
    tree: Seq<u8>,
    index: int,
)
    requires
        refs.len() == roots.len(),
        0 <= index < refs.len(),
    ensures
        refs[index] == notes_ref ==> roots_after_edit(refs, roots, notes_ref, tree)[index] == Some(
            Some(tree),
        ),
        refs[index] != notes_ref ==> roots_after_edit(refs, roots, notes_ref, tree)[index]
            == roots[index],
{
}

/// A change of notes builds on what the reference was: its commit has the former target of the
/// reference as its only parent, if there was one, and the reference must still be there as it was.
pub proof fn law_edits_build_on_the_reference(
    notes_ref: Seq<u8>,
    reference: Option<FoundReference>,
    object_hash: HashKind,
    kind: EditKind,
    root: Seq<u8>,
    parent: Option<Seq<u8>>,
    edit: Edit,
)
    requires
        edit_base(notes_ref, reference, object_hash) == Ok::<(Seq<u8>, Option<Seq<u8>>), ErrorView>(
            (root, parent),
        ),
    ensures
        edit_commit(kind, parent, edit) matches Some(commit) ==> commit.tree == edit.tree@
            && commit.expected == commit.parent && commit.parent == (match reference {
            Some(FoundReference::Direct { target, .. }) => Some(target@),
            _ => None,
        }),
        kind == EditKind::Add ==> edit_commit(kind, parent, edit) is Some,
{
}

proof fn lemma_notes_come_from_their_roots(
    refs: Seq<Seq<u8>>,
    roots: Seq<Option<Option<Seq<u8>>>>,
    trees: Map<Seq<u8>, Seq<EntryView>>,
    object: Seq<u8>,
    count: int,
    name: Seq<u8>,
    note: Seq<u8>,
)
    requires
        0 <= count <= refs.len(),
        refs.len() == roots.len(),
    ensures
        notes_in(refs, roots, trees, object, count) matches NotesView::Found(list) ==> (
        list.contains((name, note)) <==> exists|i: int|
            0 <= i < count && #[trigger] refs[i] == name && (roots[i] matches Some(Some(root))
                && lookup(trees, root, hex_of(object)) == LookupView::Found(note))),
    decreases count,
{
    if count > 0 {
        lemma_notes_come_from_their_roots(refs, roots, trees, object, count - 1, name, note);
        if let NotesView::Found(earlier) = notes_in(refs, roots, trees, object, count - 1) {
            if let Some(Some(root)) = roots[count - 1] {
                if let LookupView::Found(added) = lookup(trees, root, hex_of(object)) {
                    let list = earlier.push((refs[count - 1], added));
                    assert(list[list.len() - 1] == (refs[count - 1], added));
                    assert(list.contains((name, note)) <==> earlier.contains((name, note)) || (
                        name,
                        note,
                    ) == (refs[count - 1], added)) by {
                        if earlier.contains((name, note)) {
                            let place = choose|i: int|
                                0 <= i < earlier.len() && earlier[i] == (name, note);
                            assert(list[place] == (name, note));
                        }
                        if list.contains((name, note)) {
                            let place = choose|i: int| 0 <= i < list.len() && list[i] == (name, note);
                            if place < earlier.len() {
                                assert(earlier[place] == (name, note));
                            }
                        }
                    }
                    assert(refs[count - 1] == refs[count - 1]);
                }
            }
        }
    }
}

/// Once a change of a reference that is shown is recorded, the notes of an object that are read back
/// of that reference are exactly those in its new tree: the note that the new tree holds for the object,
/// if it holds one, and never the one from before.
pub proof fn law_written_notes_are_read_back(
    refs: Seq<Seq<u8>>,
    roots: Seq<Option<Option<Seq<u8>>>>,
    trees: Map<Seq<u8>, Seq<EntryView>>,
    notes_ref: Seq<u8>,
    tree: Seq<u8>,
    object: Seq<u8>,
    note: Seq<u8>,
)
    requires
        refs.len() == roots.len(),
        refs.contains(notes_ref),
    ensures
        notes_in(
            refs,
            roots_after_edit(refs, roots, notes_ref, tree),
            trees,
            object,
            refs.len() as int,
        ) matches NotesView::Found(list) ==> {
            &&& list.contains((notes_ref, note)) <==> lookup(trees, tree, hex_of(object))
                == LookupView::Found(note)
            &&& stores_note(trees, tree, hex_of(object), note) ==> list.contains((notes_ref, note))
        },
{
    let after = roots_after_edit(refs, roots, notes_ref, tree);
    lemma_notes_come_from_their_roots(
        refs,
        after,
        trees,
        object,
        refs.len() as int,
        notes_ref,
        note,
    );
    let index = choose|i: int| 0 <= i < refs.len() && refs[i] == notes_ref;
    assert(refs[index] == notes_ref && after[index] == Some(Some(tree)));
    assert forall|i: int| 0 <= i < refs.len() && #[trigger] refs[i] == notes_ref implies after[i]
        == Some(Some(tree)) by {}
    if stores_note(trees, tree, hex_of(object), note) {
        law_stored_notes_are_found(trees, tree, object, note);
    }
}

/// Whether `edit` is what adding a note for an object to the tree at `root` is: the note from before, if
/// there was one, is given back, and the new tree holds the new note.
pub open spec fn adds_note(
    trees: Map<Seq<u8>, Seq<EntryView>>,
    root: Seq<u8>,
    object: Seq<u8>,
    note: Seq<u8>,
    edit: Edit,
) -> bool {
    &&& match lookup(trees, root, hex_of(object)) {
        LookupView::Found(previous) => view_id(edit.previous) == Some(previous),
        LookupView::Absent => edit.previous is None,
        LookupView::Load(_) => false,
    }
    &&& lookup(trees, edit.tree@, hex_of(object)) == LookupView::Found(note)
}

/// Adding a note twice replaces it, as far as trees are edited as they should be: where a reference is
/// as the first change left it, the second one gives the first note back, its commit builds on that of
/// the first one, and the second note is read back in place of the first.
pub proof fn law_adding_twice_replaces(
    platform: Platform,
    notes_ref: Seq<u8>,
    object_hash: HashKind,
    object: Seq<u8>,
    root: Seq<u8>,
    first_note: Seq<u8>,
    first: Edit,
    target: ObjectId,
    second_note: Seq<u8>,
    second: Edit,
)
    requires
        platform.wf(),
        names(platform.refs@).contains(notes_ref),
        adds_note(platform.cache@, root, object, first_note, first),
        adds_note(platform.cache@, first.tree@, object, second_note, second),
    ensures
        view_id(second.previous) == Some(first_note),
        edit_base(
            notes_ref,
            Some(FoundReference::Direct { target, tree: first.tree }),
            object_hash,
        ) == Ok::<(Seq<u8>, Option<Seq<u8>>), ErrorView>((first.tree@, Some(target@))),
        edit_commit(EditKind::Add, Some(target@), second) matches Some(commit) && commit.tree
            == second.tree@ && commit.parent == Some(target@) && commit.expected == Some(target@),
        notes_in(
            names(platform.refs@),
            roots_after_edit(
                names(platform.refs@),
                roots_view(platform.roots@),
                notes_ref,
                second.tree@,
            ),
            platform.cache@,
            object,
            platform.refs@.len() as int,
        ) matches NotesView::Found(list) ==> list.contains((notes_ref, second_note)) && (first_note
            != second_note ==> !list.contains((notes_ref, first_note))),
{
    law_written_notes_are_read_back(
        names(platform.refs@),
        roots_view(platform.roots@),
        platform.cache@,
        notes_ref,
        second.tree@,
        object,
        second_note,
    );
    law_written_notes_are_read_back(
        names(platform.refs@),
        roots_view(platform.roots@),
        platform.cache@,
        notes_ref,
        second.tree@,
        object,
        first_note,
    );
}

/// A name that is expanded already stays as it is.
pub proof fn law_expanding_twice_is_expanding_once(name: Seq<u8>)
    ensures
        expanded(expanded(name)) == expanded(name),
        ascii("refs/notes/").is_prefix_of(expanded(name)),
{
    reveal_strlit("refs/notes/");
    reveal_strlit("notes/");
    reveal_strlit("refs/");
    let full = "refs/notes/";
    let head = "refs/";
    let tail = "notes/";
    vstd::string::is_ascii_spec_bytes(full);
    vstd::string::is_ascii_spec_bytes(head);
    vstd::string::is_ascii_spec_bytes(tail);
    assert(ascii("refs/notes/") =~= ascii("refs/") + ascii("notes/"));
    if ascii("refs/notes/").is_prefix_of(name) {
    } else if ascii("notes/").is_prefix_of(name) {
        assert(name =~= ascii("notes/") + name.skip(ascii("notes/").len() as int));
        assert(expanded(name) =~= ascii("refs/notes/") + name.skip(ascii("notes/").len() as int));
        assert(expanded(name).subrange(0, ascii("refs/notes/").len() as int) =~= ascii(
            "refs/notes/",
        ));
    } else {
        assert(expanded(name).subrange(0, ascii("refs/notes/").len() as int) =~= ascii(
            "refs/notes/",
        ));
    }
}

} // verus!
