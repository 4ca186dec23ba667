//! Other object databases to read objects from.
//!
//! A file `info/alternates` in an object database names others, one a line:
//!
//! ```text
//! # a comment, empty lines are also allowed
//! # relative paths are relative to the object database that was asked for
//! ../path/relative/to/repo/.git
//! /absolute/path/to/repo/.git
//!
//! "/a/ansi-c-quoted/path/with/tabs\t/.git"
//! ```
//!
//! Those may name others in turn, which is followed until there are no more. The result are canonical
//! paths.

use vstd::multiset::Multiset;
use vstd::prelude::*;
use vstd::seq_lib::group_to_multiset_ensures;
use vstd::slice::slice_to_vec;
use vstd::string::StringExecFns;

use crate::alternate::parse::content;
use crate::alternate::parse::conversion_may_fail_at;
use crate::alternate::parse::entries_of;
use crate::alternate::parse::is_content;
use crate::alternate::parse::unquoting_fails_at;
use crate::bytes::contains;
use crate::bytes::copy_list;
use crate::bytes::views;
use crate::foreign::lossy_text;
use crate::foreign::show_lossy;

pub mod parse;

verus! {

/// What keeps alternates from being resolved.
#[derive(Debug, Eq, PartialEq)]
pub enum Error {
    /// A file with alternates could not be read, and why.
    Io(String),
    /// A path could not be made canonical, and why.
    Realpath(String),
    /// A file with alternates is malformed.
    Parse(parse::Error),
    /// An object database was seen again; these were seen before.
    Cycle(Vec<Vec<u8>>),
}

/// Paths in single quotes with arrows between them.
pub open spec fn chain(paths: Seq<Seq<u8>>) -> Seq<char>
    decreases paths.len(),
{
    if paths.len() == 0 {
        Seq::empty()
    } else {
        let last = "'"@ + lossy_text(paths.last()) + "'"@;
        if paths.len() == 1 {
            last
        } else {
            chain(paths.drop_last()) + " -> "@ + last
        }
    }
}

impl Error {
    /// What the error says.
    pub open spec fn text(&self) -> Seq<char> {
        match self {
            Error::Io(reason) => reason@,
            Error::Realpath(reason) => reason@,
            Error::Parse(err) => err.text(),
            Error::Cycle(paths) => "Alternates form a cycle: "@ + chain(views(paths@)) + " -> "@
                + lossy_text(paths@[0]@),
        }
    }

    /// What the error says.
    pub fn message(&self) -> (text: String)
        requires
            self matches Error::Cycle(paths) ==> paths@.len() > 0,
        ensures
            text@ == self.text(),
    {
        match self {
            Error::Io(reason) => reason.clone(),
            Error::Realpath(reason) => reason.clone(),
            Error::Parse(err) => err.message(),
            Error::Cycle(paths) => {
                let ghost all = views(paths@);
                let mut links = String::new();
                let mut i: usize = 0;
                assert(links@ =~= chain(all.take(0)));
                while i < paths.len()
                    invariant
                        i <= paths.len(),
                        all == views(paths@),
                        links@ == chain(all.take(i as int)),
                    decreases paths.len() - i,
                {
                    proof {
                        assert(all.take(i + 1).drop_last() =~= all.take(i as int));
                        assert(all.take(i + 1).last() == paths@[i as int]@);
                    }
                    if i > 0 {
                        links.append(" -> ");
                    }
                    let shown = show_lossy(paths[i].as_slice());
                    let quoted = "'".to_owned().concat(shown.as_str()).concat("'");
                    links.append(quoted.as_str());
                    i += 1;
                    proof {
                        assert(links@ =~= chain(all.take(i as int)));
                    }
                }
                assert(all.take(i as int) =~= all);
                let first = show_lossy(paths[0].as_slice());
                "Alternates form a cycle: ".to_owned().concat(links.as_str()).concat(" -> ").concat(
                    first.as_str(),
                )
            },
        }
    }
}

/// An object database to look for alternates in.
pub struct Directory {
    /// How many alternates lead to it.
    pub depth: usize,
    /// Where it is: a canonical path, but for the one that was asked for.
    pub path: Vec<u8>,
}

/// Where the resolution of alternates stands.
pub enum Stage {
    /// The alternates of this object database are to be read.
    Reading(Directory),
    /// The alternates of this object database are to be made canonical, from the given one on.
    Resolving { directory: Directory, paths: Vec<Vec<u8>>, current: usize },
    /// There are no more.
    Done,
}

/// The resolution of alternates.
pub struct Resolver {
    /// The object database that was asked for, to which relative paths are relative.
    pub base: Vec<u8>,
    /// The object databases whose alternates are to be read later, the next one last.
    pub dirs: Vec<Directory>,
    /// The alternates found so far.
    pub out: Vec<Vec<u8>>,
    /// The canonical paths of all object databases seen so far.
    pub seen: Vec<Vec<u8>>,
    /// What happens now.
    pub stage: Stage,
}

/// What a [`Stage`] says.
pub enum StageView {
    Reading { depth: int, path: Seq<u8> },
    Resolving { depth: int, path: Seq<u8>, paths: Seq<Seq<u8>>, current: int },
    Done,
}

impl View for Stage {
    type V = StageView;

    open spec fn view(&self) -> StageView {
        match self {
            Stage::Reading(directory) => StageView::Reading {
                depth: directory.depth as int,
                path: directory.path@,
            },
            Stage::Resolving { directory, paths, current } => StageView::Resolving {
                depth: directory.depth as int,
                path: directory.path@,
                paths: views(paths@),
                current: *current as int,
            },
            Stage::Done => StageView::Done,
        }
    }
}

/// What a [`Resolver`] says.
#[verifier::ext_equal]
pub struct ResolverView {
    pub base: Seq<u8>,
    pub dirs: Seq<(int, Seq<u8>)>,
    pub out: Seq<Seq<u8>>,
    pub seen: Seq<Seq<u8>>,
    pub stage: StageView,
}

/// What a list of object databases says.
pub open spec fn view_dirs(dirs: Seq<Directory>) -> Seq<(int, Seq<u8>)> {
    dirs.map_values(|dir: Directory| (dir.depth as int, dir.path@))
}

impl View for Resolver {
    type V = ResolverView;

    open spec fn view(&self) -> ResolverView {
        ResolverView {
            base: self.base@,
            dirs: view_dirs(self.dirs@),
            out: views(self.out@),
            seen: views(self.seen@),
            stage: self.stage@,
        }
    }
}

/// An object database as an alternate: the one that was asked for is none.
pub open spec fn as_alternate(depth: int, path: Seq<u8>) -> Multiset<Seq<u8>> {
    if depth == 0 {
        Multiset::empty()
    } else {
        Multiset::singleton(path)
    }
}

impl ResolverView {
    /// The paths of the object databases whose alternates are to be read later.
    pub open spec fn waiting(self) -> Seq<Seq<u8>> {
        self.dirs.map_values(|dir: (int, Seq<u8>)| dir.1)
    }

    /// The alternates that are looked into or were.
    pub open spec fn found(self) -> Multiset<Seq<u8>> {
        self.out.to_multiset().add(self.waiting().to_multiset())
    }

    /// The canonical paths of all that were seen, but for the object database that was asked for.
    pub open spec fn others(self) -> Multiset<Seq<u8>> {
        self.seen.skip(1).to_multiset()
    }

    /// No object database was seen twice, and those that were seen, but the one that was asked for,
    /// are those that are found or are still to be looked into.
    pub open spec fn wf(self) -> bool {
        &&& self.seen.no_duplicates()
        &&& self.seen.len() > 0
        &&& forall|i: int|
            0 <= i < self.dirs.len() ==> 0 < (#[trigger] self.dirs[i]).0 < self.seen.len()
        &&& match self.stage {
            StageView::Reading { depth, path } => {
                &&& 0 <= depth < self.seen.len()
                &&& self.others() == self.found().add(as_alternate(depth, path))
            },
            StageView::Resolving { depth, path, paths, current } => {
                &&& 0 <= depth < self.seen.len()
                &&& 0 <= current < paths.len()
                &&& self.others() == self.found().add(as_alternate(depth, path))
            },
            StageView::Done => self.dirs.len() == 0 && self.others() == self.out.to_multiset(),
        }
    }

    /// The resolution as an object database was looked into: it is found, unless it is the one
    /// that was asked for, and the one that was found last is next.
    pub open spec fn finished(self, depth: int, path: Seq<u8>) -> ResolverView {
        let out = if depth == 0 {
            self.out
        } else {
            self.out.push(path)
        };
        if self.dirs.len() == 0 {
            ResolverView { out, stage: StageView::Done, ..self }
        } else {
            ResolverView {
                out,
                dirs: self.dirs.drop_last(),
                stage: StageView::Reading { depth: self.dirs.last().0, path: self.dirs.last().1 },
                ..self
            }
        }
    }

    /// The resolution as the alternates of an object database are known.
    pub open spec fn with_paths(self, paths: Seq<Seq<u8>>) -> ResolverView {
        match self.stage {
            StageView::Reading { depth, path } => if paths.len() == 0 {
                self.finished(depth, path)
            } else {
                ResolverView {
                    stage: StageView::Resolving { depth, path, paths, current: 0 },
                    ..self
                }
            },
            _ => self,
        }
    }

    /// Whether an alternate was seen before.
    pub open spec fn is_cycle(self, canonical: Seq<u8>) -> bool {
        self.stage is Resolving && self.seen.contains(canonical)
    }

    /// The resolution as an alternate that was not seen before is made canonical.
    pub open spec fn with_path(self, canonical: Seq<u8>) -> ResolverView {
        match self.stage {
            StageView::Resolving { depth, path, paths, current } => {
                let seen = ResolverView {
                    seen: self.seen.push(canonical),
                    dirs: self.dirs.push((depth + 1, canonical)),
                    ..self
                };
                if current + 1 < paths.len() {
                    ResolverView {
                        stage: StageView::Resolving { depth, path, paths, current: current + 1 },
                        ..seen
                    }
                } else {
                    seen.finished(depth, path)
                }
            },
            _ => self,
        }
    }
}

/// The resolution of the alternates of an object database at its beginning.
pub open spec fn started(path: Seq<u8>, canonical: Seq<u8>) -> ResolverView {
    ResolverView {
        base: path,
        dirs: Seq::empty(),
        out: Seq::empty(),
        seen: seq![canonical],
        stage: StageView::Reading { depth: 0, path },
    }
}

/// What the resolution of alternates asks for.
#[derive(Debug, Eq, PartialEq)]
pub enum Request {
    /// Read the file with alternates of this object database.
    Read(Vec<u8>),
    /// Join `path` to `base`, the object database that was asked for, and make the result canonical.
    Canonicalize { base: Vec<u8>, path: Vec<u8> },
    /// Nothing: these are the alternates.
    Done(Vec<Vec<u8>>),
}

impl Resolver {
    /// The resolution of the alternates of an object database with the given canonical path.
    pub fn start(objects_directory: Vec<u8>, canonical: Vec<u8>) -> (resolver: Resolver)
        ensures
            resolver@.wf(),
            resolver@ == started(objects_directory@, canonical@),
    {
        let mut seen: Vec<Vec<u8>> = Vec::new();
        seen.push(canonical);
        let resolver = Resolver {
            base: slice_to_vec(objects_directory.as_slice()),
            dirs: Vec::new(),
            out: Vec::new(),
            seen,
            stage: Stage::Reading(Directory { depth: 0, path: objects_directory }),
        };
        proof {
            broadcast use group_to_multiset_ensures;

            assert(resolver@.seen =~= seq![canonical@]);
            assert(resolver@.dirs =~= Seq::empty());
            assert(resolver@.out =~= Seq::empty());
            assert(resolver@.seen.skip(1) =~= resolver@.out);
            assert(resolver@.waiting() =~= resolver@.out);
            assert(resolver@.others() =~= resolver@.found().add(as_alternate(0, objects_directory@)));
        }
        resolver
    }

    /// What the resolution asks for.
    pub fn request(&self) -> (request: Request)
        requires
            self@.wf(),
        ensures
            match (self@.stage, request) {
                (StageView::Reading { path, .. }, Request::Read(directory)) => directory@ == path,
                (
                    StageView::Resolving { paths, current, .. },
                    Request::Canonicalize { base, path },
                ) => base@ == self@.base && path@ == paths[current],
                (StageView::Done, Request::Done(out)) => views(out@) == self@.out,
                _ => false,
            },
    {
        match &self.stage {
            Stage::Reading(directory) => Request::Read(slice_to_vec(directory.path.as_slice())),
            Stage::Resolving { paths, current, .. } => {
                assert(views(paths@)[*current as int] == paths@[*current as int]@);
                Request::Canonicalize {
                    base: slice_to_vec(self.base.as_slice()),
                    path: slice_to_vec(paths[*current].as_slice()),
                }
            },
            Stage::Done => Request::Done(copy_list(&self.out)),
        }
    }

    fn finish(self, directory: Directory) -> (resolver: Resolver)
        requires
            self@.seen.no_duplicates(),
            self@.seen.len() > 0,
            forall|i: int|
                0 <= i < self@.dirs.len() ==> 0 < (#[trigger] self@.dirs[i]).0 < self@.seen.len(),
            self@.others() == self@.found().add(
                as_alternate(directory.depth as int, directory.path@),
            ),
        ensures
            resolver@ == self@.finished(directory.depth as int, directory.path@),
            resolver@.wf(),
    {
        let mut out = self.out;
        let mut dirs = self.dirs;
        if directory.depth != 0 {
            out.push(directory.path);
        }
        assert(views(out@) =~= self@.finished(directory.depth as int, directory.path@).out);
        let stage = match dirs.pop() {
            None => Stage::Done,
            Some(next) => Stage::Reading(next),
        };
        let resolver = Resolver { base: self.base, dirs, out, seen: self.seen, stage };
        proof {
            broadcast use group_to_multiset_ensures;

            let expected = self@.finished(directory.depth as int, directory.path@);
            if self.dirs@.len() > 0 {
                assert(resolver@.dirs =~= expected.dirs);
                assert(self@.dirs.last() == (
                    self.dirs@.last().depth as int,
                    self.dirs@.last().path@,
                ));
                assert(self@.dirs[self@.dirs.len() - 1] == self@.dirs.last());
                assert forall|i: int| 0 <= i < resolver@.dirs.len() implies 0 < (
                #[trigger] resolver@.dirs[i]).0 < resolver@.seen.len() by {
                    assert(resolver@.dirs[i] == self@.dirs[i]);
                }
            }
            assert(resolver@ =~= expected);
            if directory.depth != 0 {
                assert(expected.out == self@.out.push(directory.path@));
            }
            assert(expected.out.to_multiset() =~= self@.out.to_multiset().add(
                as_alternate(directory.depth as int, directory.path@),
            ));
            if self.dirs@.len() > 0 {
                let last = self@.waiting().last();
                assert(self@.waiting() =~= expected.waiting().push(last));
                assert(self@.waiting().to_multiset() =~= expected.waiting().to_multiset().insert(last));
                assert(expected.others() =~= expected.found().add(
                    as_alternate(self@.dirs.last().0, self@.dirs.last().1),
                ));
            } else {
                assert(self@.waiting() =~= Seq::empty());
                assert(expected.others() =~= expected.out.to_multiset());
            }
        }
        resolver
    }

    /// Takes in the alternates of the object database that was to be read.
    pub fn with_paths(self, paths: Vec<Vec<u8>>) -> (resolver: Resolver)
        requires
            self@.wf(),
        ensures
            resolver@ == self@.with_paths(views(paths@)),
            resolver@.wf(),
    {
        match self.stage {
            Stage::Reading(directory) => {
                if paths.len() == 0 {
                    let rest = Resolver {
                        base: self.base,
                        dirs: self.dirs,
                        out: self.out,
                        seen: self.seen,
                        stage: Stage::Done,
                    };
                    assert(rest@.finished(directory.depth as int, directory.path@)
                        == self@.finished(directory.depth as int, directory.path@));
                    rest.finish(directory)
                } else {
                    Resolver {
                        base: self.base,
                        dirs: self.dirs,
                        out: self.out,
                        seen: self.seen,
                        stage: Stage::Resolving { directory, paths, current: 0 },
                    }
                }
            },
            stage => Resolver {
                base: self.base,
                dirs: self.dirs,
                out: self.out,
                seen: self.seen,
                stage,
            },
        }
    }

    /// Takes in the file with alternates of the object database that was to be read, or that there
    /// is none.
    pub fn read(self, input: Option<Vec<u8>>) -> (resolver: Result<Resolver, Error>)
        requires
            self@.wf(),
        ensures
            match (input, resolver) {
                (None, Ok(resolver)) => resolver@.wf() && resolver@ == self@.with_paths(
                    Seq::empty(),
                ),
                (None, Err(_)) => false,
                (Some(input), Ok(resolver)) => resolver@.wf() && exists|paths: Seq<Seq<u8>>|
                    resolver@ == #[trigger] self@.with_paths(paths) && is_content(input@, paths),
                (Some(input), Err(Error::Parse(parse::Error::Unquote(_)))) => exists|place: int|
                    #[trigger] unquoting_fails_at(entries_of(input@), place),
                (Some(input), Err(Error::Parse(parse::Error::PathConversion(line)))) => exists|
                    place: int,
                |
                    #[trigger] conversion_may_fail_at(entries_of(input@), place) && line@
                        == entries_of(input@)[place],
                (Some(_), Err(_)) => false,
            },
    {
        match input {
            None => {
                let paths: Vec<Vec<u8>> = Vec::new();
                assert(views(paths@) =~= Seq::empty());
                Ok(self.with_paths(paths))
            },
            Some(input) => match content(input.as_slice()) {
                Err(err) => Err(Error::Parse(err)),
                Ok(paths) => Ok(self.with_paths(paths)),
            },
        }
    }

    /// Takes in the canonical path of the alternate that was to be made canonical. It is an error if
    /// that was seen before, as it would lead to a cycle.
    pub fn resolved(self, canonical: Vec<u8>) -> (resolver: Result<Resolver, Error>)
        requires
            self@.wf(),
        ensures
            match resolver {
                Ok(resolver) => !self@.is_cycle(canonical@) && resolver@ == self@.with_path(
                    canonical@,
                ) && resolver@.wf(),
                Err(Error::Cycle(seen)) => self@.is_cycle(canonical@) && views(seen@) == self@.seen,
                Err(_) => false,
            },
    {
        match self.stage {
            Stage::Resolving { directory, paths, current } => {
                if contains(&self.seen, canonical.as_slice()) {
                    return Err(Error::Cycle(self.seen));
                }
                let mut seen = self.seen;
                let mut dirs = self.dirs;
                assert(directory.depth < seen.len());
                let path = slice_to_vec(canonical.as_slice());
                seen.push(canonical);
                dirs.push(Directory { depth: directory.depth + 1, path });
                let ghost grown = ResolverView {
                    seen: self@.seen.push(canonical@),
                    dirs: self@.dirs.push((directory.depth + 1, canonical@)),
                    ..self@
                };
                proof {
                    broadcast use group_to_multiset_ensures;

                    assert(grown.seen.skip(1) =~= self@.seen.skip(1).push(canonical@));
                    assert(grown.waiting() =~= self@.waiting().push(canonical@));
                    assert(grown.others() =~= grown.found().add(
                        as_alternate(directory.depth as int, directory.path@),
                    ));
                    assert(views(seen@) =~= grown.seen);
                    assert(view_dirs(dirs@) =~= grown.dirs);
                    assert(grown.seen.no_duplicates());
                    assert forall|i: int| 0 <= i < grown.dirs.len() implies 0 < (
                    #[trigger] grown.dirs[i]).0 < grown.seen.len() by {
                        if i < self@.dirs.len() {
                            assert(grown.dirs[i] == self@.dirs[i]);
                        }
                    }
                }
                if current < paths.len() - 1 {
                    Ok(
                        Resolver {
                            base: self.base,
                            dirs,
                            out: self.out,
                            seen,
                            stage: Stage::Resolving { directory, paths, current: current + 1 },
                        },
                    )
                } else {
                    let rest = Resolver {
                        base: self.base,
                        dirs,
                        out: self.out,
                        seen,
                        stage: Stage::Done,
                    };
                    assert(rest@.finished(directory.depth as int, directory.path@)
                        == grown.finished(directory.depth as int, directory.path@));
                    Ok(rest.finish(directory))
                }
            },
            stage => Ok(
                Resolver {
                    base: self.base,
                    dirs: self.dirs,
                    out: self.out,
                    seen: self.seen,
                    stage,
                },
            ),
        }
    }
}

/// Once everything is resolved, the alternates are exactly the canonical paths that were seen, but for
/// the object database that was asked for, each of them once.
pub proof fn law_every_alternate_is_found_once(resolver: ResolverView)
    requires
        resolver.wf(),
        resolver.stage is Done,
    ensures
        resolver.out.to_multiset() == resolver.seen.skip(1).to_multiset(),
        resolver.out.no_duplicates(),
        resolver.out.len() + 1 == resolver.seen.len(),
        forall|path: Seq<u8>|
            #[trigger] resolver.out.contains(path) <==> resolver.seen.skip(1).contains(path),
        !resolver.out.contains(resolver.seen[0]),
{
    broadcast use group_to_multiset_ensures;

    let others = resolver.seen.skip(1);
    assert(others.no_duplicates());
    others.lemma_multiset_has_no_duplicates();
    resolver.out.lemma_multiset_has_no_duplicates_conv();
    assert(resolver.out.len() == resolver.out.to_multiset().len());
    assert(others.len() == others.to_multiset().len());
    assert forall|path: Seq<u8>| #[trigger] resolver.out.contains(path) <==> others.contains(path) by {
        assert(resolver.out.contains(path) <==> resolver.out.to_multiset().count(path) > 0);
        assert(others.contains(path) <==> others.to_multiset().count(path) > 0);
    }
}

/// An object database without alternates has none.
pub proof fn law_no_alternates_is_no_error(path: Seq<u8>, canonical: Seq<u8>)
    ensures
        started(path, canonical).with_paths(Seq::empty()).stage == StageView::Done,
        started(path, canonical).with_paths(Seq::empty()).out.len() == 0,
{
}

/// An object database that names itself, by whatever path, is a cycle.
pub proof fn law_naming_itself_is_a_cycle(path: Seq<u8>, canonical: Seq<u8>, paths: Seq<Seq<u8>>)
    requires
        paths.len() > 0,
    ensures
        started(path, canonical).with_paths(paths).is_cycle(canonical),
{
    assert(seq![canonical][0] == canonical);
}

} // verus!
