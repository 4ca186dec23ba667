//! Laws on alternates.

use vstd::prelude::*;
use vstd::utf8::valid_utf8;

use crate::alternate::chain;
use crate::alternate::parse;
use crate::alternate::parse::conversion_may_fail_at;
use crate::alternate::parse::entries_of;
use crate::alternate::parse::entry_text;
use crate::alternate::parse::is_content;
use crate::alternate::parse::is_entry;
use crate::alternate::parse::unquoting_fails_at;
use crate::alternate::started;
use crate::alternate::Error;
use crate::alternate::ResolverView;
use crate::alternate::StageView;
use crate::bytes::fields_of;
use crate::bytes::lemma_fields_join;
use crate::bytes::views;
use crate::foreign::lossy_text;
use crate::foreign::unquoted;
use crate::laws::bytes::law_fields_end_at_separators;

verus! {

/// A line names an object database unless it is empty or begins with a hash, and each line feed ends one.
pub proof fn law_lines_name_object_databases(line: Seq<u8>, left: Seq<u8>, right: Seq<u8>)
    requires
        !line.contains(10),
    ensures
        line.len() == 0 ==> entries_of(line).len() == 0,
        line.len() > 0 && line[0] == 0x23 ==> entries_of(line).len() == 0,
        line.len() > 0 && line[0] != 0x23 ==> entries_of(line) == seq![line],
        entries_of(left.push(10) + right) == entries_of(left) + entries_of(right),
{
    let keep = |line: Seq<u8>| is_entry(line);
    law_fields_end_at_separators(line, right, 10);
    lemma_fields_join(left, right, 10);
    Seq::filter_distributes_over_add(fields_of(left, 10), fields_of(right, 10), keep);
    reveal_with_fuel(Seq::filter, 2);
    assert(seq![line].drop_last() =~= Seq::empty());
    assert(seq![line].filter(keep) =~= (if is_entry(line) {
        seq![line]
    } else {
        Seq::empty()
    }));
}

/// A line that begins with a double quote names what unquoting makes of it, and any other names itself.
pub proof fn law_quoted_names_are_unquoted(line: Seq<u8>)
    ensures
        line.len() > 0 && line[0] == 0x22 ==> entry_text(line) == unquoted(line),
        line.len() == 0 || line[0] != 0x22 ==> entry_text(line) == Some(line),
{
}

/// The contents of a file are the names in its lines, one for each.
pub proof fn law_contents_are_the_names(input: Seq<u8>, paths: Seq<Seq<u8>>, i: int)
    requires
        is_content(input, paths),
        0 <= i < entries_of(input).len(),
    ensures
        paths.len() == entries_of(input).len(),
        entries_of(input)[i][0] == 0x22 ==> unquoted(entries_of(input)[i]) == Some(paths[i]),
        entries_of(input)[i][0] != 0x22 ==> paths[i] == entries_of(input)[i],
{
    crate::alternate::parse::law_comments_and_empty_lines_name_nothing(input, i);
    assert(entry_text(entries_of(input)[i]) == Some(paths[i]));
}

/// The line that can't be unquoted is one that is quoted, and it is the first such line: no line fails in two places, and
/// none fails to be a path behind it.
pub proof fn law_the_first_malformed_line_is_told(
    lines: Seq<Seq<u8>>,
    place: int,
    other: int,
    earlier: int,
)
    ensures
        unquoting_fails_at(lines, place) ==> 0 <= place < lines.len() && lines[place].len() > 0
            && lines[place][0] == 0x22 && unquoted(lines[place]) is None,
        unquoting_fails_at(lines, place) && unquoting_fails_at(lines, other) ==> place == other,
        unquoting_fails_at(lines, place) && conversion_may_fail_at(lines, other) ==> other < place,
        unquoting_fails_at(lines, place) && 0 <= earlier < place && lines[earlier].len() > 0
            && lines[earlier][0] == 0x22 ==> unquoted(lines[earlier]) is Some,
        conversion_may_fail_at(lines, place) ==> 0 <= place < lines.len() && (lines[place].len() > 0
            && lines[place][0] == 0x22 ==> (unquoted(lines[place]) matches Some(text) && !valid_utf8(
            text,
        ))) && (lines[place].len() == 0 || lines[place][0] != 0x22 ==> !valid_utf8(lines[place])),
{
    if unquoting_fails_at(lines, place) && unquoting_fails_at(lines, other) {
        assert(entry_text(lines[place]) is None);
        assert(entry_text(lines[other]) is None);
    }
    if unquoting_fails_at(lines, place) && conversion_may_fail_at(lines, other) {
        assert(entry_text(lines[place]) is None);
    }
    if unquoting_fails_at(lines, place) && 0 <= earlier < place {
        assert(entry_text(lines[earlier]) is Some);
    }
}

/// A resolution begins with the object database that was asked for: its file is read first, it counts as
/// seen, and relative paths are relative to it.
pub proof fn law_resolutions_begin_with_what_was_asked_for(path: Seq<u8>, canonical: Seq<u8>)
    ensures
        started(path, canonical).stage == (StageView::Reading { depth: 0, path }),
        started(path, canonical).seen == seq![canonical],
        started(path, canonical).base == path,
        started(path, canonical).out.len() == 0,
        started(path, canonical).dirs.len() == 0,
{
}

/// Whether a resolution has just finished an object database: it is an alternate unless it is the one that
/// was asked for, and the one that waits since the shortest time is read next, or nothing is left.
pub open spec fn has_finished(
    before: ResolverView,
    waiting: Seq<(int, Seq<u8>)>,
    depth: int,
    path: Seq<u8>,
    after: ResolverView,
) -> bool {
    &&& depth == 0 ==> after.out == before.out
    &&& depth != 0 ==> after.out == before.out.push(path)
    &&& waiting.len() == 0 ==> after.stage == StageView::Done && after.dirs.len() == 0
    &&& waiting.len() > 0 ==> after.stage == (StageView::Reading {
        depth: waiting[waiting.len() - 1].0,
        path: waiting[waiting.len() - 1].1,
    }) && after.dirs == waiting.take(waiting.len() - 1)
}

/// What is read of an object database is resolved path by path, from the first on, and an object database
/// without alternates is finished.
pub proof fn law_files_are_resolved_from_the_first_path(
    resolver: ResolverView,
    depth: int,
    path: Seq<u8>,
    paths: Seq<Seq<u8>>,
)
    requires
        resolver.stage == (StageView::Reading { depth, path }),
    ensures
        resolver.with_paths(paths).seen == resolver.seen,
        resolver.with_paths(paths).base == resolver.base,
        paths.len() > 0 ==> resolver.with_paths(paths).stage == (StageView::Resolving {
            depth,
            path,
            paths,
            current: 0,
        }) && resolver.with_paths(paths).dirs == resolver.dirs && resolver.with_paths(paths).out
            == resolver.out,
        paths.len() == 0 ==> has_finished(
            resolver,
            resolver.dirs,
            depth,
            path,
            resolver.with_paths(paths),
        ),
{
    if resolver.dirs.len() > 0 {
        assert(resolver.dirs.drop_last() =~= resolver.dirs.take(resolver.dirs.len() - 1));
    }
}

/// Each path of a file is resolved before the object database is finished, at any depth: the canonical path
/// is seen from then on and waits to be read, one step deeper, and the next path of the same file follows.
pub proof fn law_each_path_of_a_file_is_resolved(
    resolver: ResolverView,
    depth: int,
    path: Seq<u8>,
    paths: Seq<Seq<u8>>,
    current: int,
    canonical: Seq<u8>,
)
    requires
        resolver.stage == (StageView::Resolving { depth, path, paths, current }),
    ensures
        resolver.with_path(canonical).seen == resolver.seen.push(canonical),
        resolver.with_path(canonical).base == resolver.base,
        current + 1 < paths.len() ==> resolver.with_path(canonical).stage == (StageView::Resolving {
            depth,
            path,
            paths,
            current: current + 1,
        }) && resolver.with_path(canonical).dirs == resolver.dirs.push((depth + 1, canonical))
            && resolver.with_path(canonical).out == resolver.out,
        current + 1 >= paths.len() ==> has_finished(
            resolver,
            resolver.dirs.push((depth + 1, canonical)),
            depth,
            path,
            resolver.with_path(canonical),
        ),
{
    let waiting = resolver.dirs.push((depth + 1, canonical));
    assert(waiting.drop_last() =~= waiting.take(waiting.len() - 1));
}

/// It is a cycle exactly if the canonical path was seen before.
pub proof fn law_seeing_again_is_a_cycle(
    resolver: ResolverView,
    depth: int,
    path: Seq<u8>,
    paths: Seq<Seq<u8>>,
    current: int,
    canonical: Seq<u8>,
)
    requires
        resolver.stage == (StageView::Resolving { depth, path, paths, current }),
    ensures
        resolver.is_cycle(canonical) <==> exists|i: int|
            0 <= i < resolver.seen.len() && #[trigger] resolver.seen[i] == canonical,
{
}

/// Whether the canonical paths of all paths in the file of an object database are known as alternates.
pub open spec fn is_followed(
    seen: Seq<Seq<u8>>,
    files: spec_fn(Seq<u8>) -> Seq<Seq<u8>>,
    canonical: spec_fn(Seq<u8>) -> Seq<u8>,
    path: Seq<u8>,
    count: int,
) -> bool {
    forall|i: int| 0 <= i < count ==> seen.skip(1).contains(canonical(#[trigger] files(path)[i]))
}

/// Whether a resolution has lost nothing: where the file of each object database is known, and the canonical
/// path of each path, then all paths in the files of those object databases that are finished are known as
/// alternates, and of the current one all that were resolved.
pub open spec fn has_lost_nothing(
    resolver: ResolverView,
    files: spec_fn(Seq<u8>) -> Seq<Seq<u8>>,
    canonical: spec_fn(Seq<u8>) -> Seq<u8>,
) -> bool {
    &&& resolver.seen.len() > 0
    &&& forall|k: int|
        0 <= k < resolver.out.len() ==> is_followed(
            resolver.seen,
            files,
            canonical,
            #[trigger] resolver.out[k],
            files(resolver.out[k]).len() as int,
        )
    &&& match resolver.stage {
        StageView::Reading { depth, path } => depth == 0 ==> path == resolver.base,
        StageView::Resolving { depth, path, paths, current } => {
            &&& depth == 0 ==> path == resolver.base
            &&& paths == files(path)
            &&& 0 <= current < paths.len()
            &&& is_followed(resolver.seen, files, canonical, path, current)
        },
        StageView::Done => true,
    }
    &&& (resolver.stage matches StageView::Reading { depth, .. } && depth == 0) || (
    resolver.stage matches StageView::Resolving { depth, .. } && depth == 0) || is_followed(
        resolver.seen,
        files,
        canonical,
        resolver.base,
        files(resolver.base).len() as int,
    )
    &&& forall|k: int| 0 <= k < resolver.dirs.len() ==> (#[trigger] resolver.dirs[k]).0 > 0
}

proof fn lemma_followed_stays(
    seen: Seq<Seq<u8>>,
    more: Seq<u8>,
    files: spec_fn(Seq<u8>) -> Seq<Seq<u8>>,
    canonical: spec_fn(Seq<u8>) -> Seq<u8>,
    path: Seq<u8>,
    count: int,
)
    requires
        seen.len() > 0,
        is_followed(seen, files, canonical, path, count),
    ensures
        is_followed(seen.push(more), files, canonical, path, count),
{
    assert(seen.push(more).skip(1) =~= seen.skip(1).push(more));
    assert forall|i: int| 0 <= i < count implies seen.push(more).skip(1).contains(
        canonical(#[trigger] files(path)[i]),
    ) by {
        let wanted = canonical(files(path)[i]);
        let place = choose|k: int| 0 <= k < seen.skip(1).len() && seen.skip(1)[k] == wanted;
        assert(seen.push(more).skip(1)[place] == wanted);
    }
}

/// A resolution loses nothing when the file of an object database is read.
pub proof fn law_reading_loses_nothing(
    resolver: ResolverView,
    files: spec_fn(Seq<u8>) -> Seq<Seq<u8>>,
    canonical: spec_fn(Seq<u8>) -> Seq<u8>,
    depth: int,
    path: Seq<u8>,
)
    requires
        has_lost_nothing(resolver, files, canonical),
        resolver.stage == (StageView::Reading { depth, path }),
    ensures
        has_lost_nothing(resolver.with_paths(files(path)), files, canonical),
{
    let after = resolver.with_paths(files(path));
    if files(path).len() == 0 {
        assert forall|k: int| 0 <= k < after.out.len() implies is_followed(
            after.seen,
            files,
            canonical,
            #[trigger] after.out[k],
            files(after.out[k]).len() as int,
        ) by {
            if k < resolver.out.len() {
                assert(after.out[k] == resolver.out[k]);
            }
        }
        if resolver.dirs.len() > 0 {
            assert(resolver.dirs.last().0 > 0);
            assert forall|k: int| 0 <= k < after.dirs.len() implies (#[trigger] after.dirs[k]).0 > 0 by {
                assert(after.dirs[k] == resolver.dirs[k]);
            }
        }
    }
}

/// A resolution loses nothing when a path is resolved.
pub proof fn law_resolving_loses_nothing(
    resolver: ResolverView,
    files: spec_fn(Seq<u8>) -> Seq<Seq<u8>>,
    canonical: spec_fn(Seq<u8>) -> Seq<u8>,
    depth: int,
    path: Seq<u8>,
    paths: Seq<Seq<u8>>,
    current: int,
)
    requires
        has_lost_nothing(resolver, files, canonical),
        resolver.stage == (StageView::Resolving { depth, path, paths, current }),
        0 <= depth,
    ensures
        has_lost_nothing(resolver.with_path(canonical(paths[current])), files, canonical),
{
    let found = canonical(paths[current]);
    let after = resolver.with_path(found);
    let seen = resolver.seen.push(found);
    assert(after.seen == seen);
    lemma_followed_stays(resolver.seen, found, files, canonical, path, current);
    assert(seen.skip(1) =~= resolver.seen.skip(1).push(found));
    assert(seen.skip(1)[seen.skip(1).len() - 1] == found);
    assert(is_followed(seen, files, canonical, path, current + 1));
    if depth != 0 {
        lemma_followed_stays(
            resolver.seen,
            found,
            files,
            canonical,
            resolver.base,
            files(resolver.base).len() as int,
        );
    }
    assert forall|k: int| 0 <= k < after.out.len() implies is_followed(
        after.seen,
        files,
        canonical,
        #[trigger] after.out[k],
        files(after.out[k]).len() as int,
    ) by {
        if k < resolver.out.len() {
            assert(after.out[k] == resolver.out[k]);
            lemma_followed_stays(
                resolver.seen,
                found,
                files,
                canonical,
                resolver.out[k],
                files(resolver.out[k]).len() as int,
            );
        }
    }
    let waiting = resolver.dirs.push((depth + 1, found));
    assert forall|k: int| 0 <= k < waiting.len() implies (#[trigger] waiting[k]).0 > 0 by {
        if k < resolver.dirs.len() {
            assert(waiting[k] == resolver.dirs[k]);
        }
    }
    assert(waiting.last() == waiting[waiting.len() - 1]);
    assert forall|k: int| 0 <= k < after.dirs.len() implies (#[trigger] after.dirs[k]).0 > 0 by {
        assert(after.dirs[k] == waiting[k]);
    }
}

/// A resolution starts without having lost anything, and once it is done, the canonical path of each path in
/// the file of the object database that was asked for, and in that of each alternate, is an alternate.
pub proof fn law_all_alternates_are_found(
    asked: Seq<u8>,
    asked_canonical: Seq<u8>,
    resolver: ResolverView,
    files: spec_fn(Seq<u8>) -> Seq<Seq<u8>>,
    canonical: spec_fn(Seq<u8>) -> Seq<u8>,
    path: Seq<u8>,
    i: int,
)
    requires
        resolver.wf(),
        resolver.stage is Done,
        has_lost_nothing(resolver, files, canonical),
        path == resolver.base || resolver.out.contains(path),
        0 <= i < files(path).len(),
    ensures
        has_lost_nothing(started(asked, asked_canonical), files, canonical),
        resolver.out.contains(canonical(files(path)[i])),
{
    crate::alternate::law_every_alternate_is_found_once(resolver);
    if path != resolver.base {
        let k = choose|k: int| 0 <= k < resolver.out.len() && resolver.out[k] == path;
        assert(is_followed(
            resolver.seen,
            files,
            canonical,
            resolver.out[k],
            files(resolver.out[k]).len() as int,
        ));
    }
    assert(resolver.seen.skip(1).contains(canonical(files(path)[i])));
}

/// What the errors say.
pub proof fn law_errors_on_alternates_say_why(
    reason: String,
    line: Vec<u8>,
    err: parse::Error,
    paths: Vec<Vec<u8>>,
)
    ensures
        Error::Io(reason).text() == reason@,
        Error::Realpath(reason).text() == reason@,
        Error::Parse(err).text() == err.text(),
        Error::Cycle(paths).text() == "Alternates form a cycle: "@ + chain(views(paths@)) + " -> "@
            + lossy_text(paths@[0]@),
        parse::Error::PathConversion(line).text()
            == "Could not obtain an object path for the alternate directory '"@ + lossy_text(line@)
            + "'"@,
        parse::Error::Unquote(reason).text() == "Could not unquote alternate path"@,
{
}

/// A chain of paths shows each in single quotes, with arrows between them.
pub proof fn law_chains_show_each_path(paths: Seq<Seq<u8>>, path: Seq<u8>)
    ensures
        chain(seq![path]) == "'"@ + lossy_text(path) + "'"@,
        paths.len() > 0 ==> chain(paths.push(path)) == chain(paths) + " -> "@ + ("'"@ + lossy_text(
            path,
        ) + "'"@),
{
    assert(paths.push(path).drop_last() =~= paths);
}

} // verus!
