//! The format of a file with alternates.

use vstd::prelude::*;
use vstd::slice::slice_to_vec;
use vstd::string::StringExecFns;
use vstd::utf8::valid_utf8;

use crate::bytes::fields_of;
use crate::bytes::lemma_fields_join;
use crate::bytes::split;
use crate::bytes::views;
use crate::bytes::NEWLINE;
use crate::foreign::lossy_text;
use crate::foreign::path_from_bytes;
use crate::foreign::show_lossy;
use crate::foreign::unquote;
use crate::foreign::unquoted;

verus! {

/// The byte that begins a comment.
pub const HASH: u8 = 35;

/// The byte that begins quoted text.
pub const QUOTE: u8 = 34;

/// What keeps a file with alternates from being read.
#[derive(Debug, Eq, PartialEq)]
pub enum Error {
    /// This line can't be a path on this machine.
    PathConversion(Vec<u8>),
    /// A quoted line is malformed, and how.
    Unquote(String),
}

impl Error {
    /// What the error says.
    pub open spec fn text(&self) -> Seq<char> {
        match self {
            Error::PathConversion(line) =>
                "Could not obtain an object path for the alternate directory '"@ + lossy_text(line@)
                    + "'"@,
            Error::Unquote(_) => "Could not unquote alternate path"@,
        }
    }

    /// What the error says.
    pub fn message(&self) -> (text: String)
        ensures
            text@ == self.text(),
    {
        match self {
            Error::PathConversion(line) => {
                let shown = show_lossy(line.as_slice());
                "Could not obtain an object path for the alternate directory '".to_owned().concat(
                    shown.as_str(),
                ).concat("'")
            },
            Error::Unquote(_) => "Could not unquote alternate path".to_owned(),
        }
    }
}

/// Whether a line names an object database.
pub open spec fn is_entry(line: Seq<u8>) -> bool {
    line.len() > 0 && line[0] != HASH
}

/// The lines that name an object database.
pub open spec fn entries_of(input: Seq<u8>) -> Seq<Seq<u8>> {
    fields_of(input, NEWLINE).filter(|line: Seq<u8>| is_entry(line))
}

/// The name in a line, which may be quoted.
pub open spec fn entry_text(line: Seq<u8>) -> Option<Seq<u8>> {
    if line.len() > 0 && line[0] == QUOTE {
        unquoted(line)
    } else {
        Some(line)
    }
}

/// The lines that name an object database.
pub fn entries(input: &[u8]) -> (list: Vec<Vec<u8>>)
    ensures
        views(list@) == entries_of(input@),
{
    let lines = split(input, NEWLINE);
    let ghost all = fields_of(input@, NEWLINE);
    let ghost keep = |line: Seq<u8>| is_entry(line);
    let mut list: Vec<Vec<u8>> = Vec::new();
    let mut i: usize = 0;
    proof {
        reveal(Seq::filter);
        assert(views(list@) =~= all.take(0).filter(keep));
    }
    while i < lines.len()
        invariant
            i <= lines.len(),
            all == views(lines@),
            keep == (|line: Seq<u8>| is_entry(line)),
            views(list@) == all.take(i as int).filter(keep),
        decreases lines.len() - i,
    {
        let ghost before = list@;
        proof {
            reveal(Seq::filter);
            assert(all.take(i + 1).drop_last() =~= all.take(i as int));
            assert(all.take(i + 1).last() == lines@[i as int]@);
        }
        if lines[i].len() > 0 && lines[i][0] != HASH {
            let line = slice_to_vec(lines[i].as_slice());
            list.push(line);
            assert(views(list@) =~= views(before).push(line@));
        }
        i += 1;
    }
    assert(all.take(i as int) =~= all);
    list
}

/// The path that a line names, from the name in it. Well-formed UTF-8 is always a path; other names
/// may be one, as the machine has it.
pub fn entry_path(line: &[u8], text: Result<Vec<u8>, String>) -> (path: Result<Vec<u8>, Error>)
    ensures
        match (text, path) {
            (Err(reason), Err(err)) => err == Error::Unquote(reason),
            (Ok(text), Ok(path)) => path@ == text@,
            (Ok(text), Err(Error::PathConversion(bytes))) => bytes@ == line@ && !valid_utf8(
                text@,
            ),
            _ => false,
        },
{
    match text {
        Err(reason) => Err(Error::Unquote(reason)),
        Ok(text) => match path_from_bytes(text.as_slice()) {
            Some(path) => Ok(path),
            None => Err(Error::PathConversion(slice_to_vec(line))),
        },
    }
}

/// Whether these are the paths in a file with alternates: the names in its lines, in their order.
pub open spec fn is_content(input: Seq<u8>, paths: Seq<Seq<u8>>) -> bool {
    &&& paths.len() == entries_of(input).len()
    &&& forall|i: int|
        0 <= i < paths.len() ==> entry_text(#[trigger] entries_of(input)[i]) == Some(paths[i])
}

/// Whether the given line is the first that can't be unquoted.
pub open spec fn unquoting_fails_at(lines: Seq<Seq<u8>>, place: int) -> bool {
    &&& 0 <= place < lines.len()
    &&& entry_text(lines[place]) is None
    &&& forall|i: int| 0 <= i < place ==> entry_text(#[trigger] lines[i]) is Some
}

/// Whether the given line can be unquoted, like all before it, and isn't well-formed UTF-8 then.
pub open spec fn conversion_may_fail_at(lines: Seq<Seq<u8>>, place: int) -> bool {
    &&& 0 <= place < lines.len()
    &&& entry_text(lines[place]) is Some
    &&& !valid_utf8(entry_text(lines[place]).unwrap())
    &&& forall|i: int| 0 <= i < place ==> entry_text(#[trigger] lines[i]) is Some
}

/// The paths in a file with alternates, in its order, or the first error in it. Without quotes out
/// of place and with names in well-formed UTF-8 there is no error.
pub fn content(input: &[u8]) -> (paths: Result<Vec<Vec<u8>>, Error>)
    ensures
        match paths {
            Ok(paths) => is_content(input@, views(paths@)),
            Err(Error::Unquote(_)) => exists|place: int|
                #[trigger] unquoting_fails_at(entries_of(input@), place),
            Err(Error::PathConversion(line)) => exists|place: int|
                #[trigger] conversion_may_fail_at(entries_of(input@), place) && line@ == entries_of(
                    input@,
                )[place],
        },
{
    let list = entries(input);
    let ghost all = entries_of(input@);
    let mut paths: Vec<Vec<u8>> = Vec::new();
    let mut i: usize = 0;
    while i < list.len()
        invariant
            i <= list.len(),
            all == views(list@),
            all == entries_of(input@),
            paths@.len() == i,
            forall|k: int| 0 <= k < i ==> entry_text(#[trigger] all[k]) == Some(paths@[k]@),
        decreases list.len() - i,
    {
        let line = list[i].as_slice();
        assert(all[i as int] == line@);
        let text = if line.len() > 0 && line[0] == QUOTE {
            unquote(line)
        } else {
            Ok(slice_to_vec(line))
        };
        assert(text is Err ==> unquoting_fails_at(all, i as int));
        assert(text matches Ok(text) && !valid_utf8(text@) ==> conversion_may_fail_at(
            all,
            i as int,
        ));
        match entry_path(line, text) {
            Ok(path) => paths.push(path),
            Err(err) => return Err(err),
        }
        i += 1;
    }
    assert(forall|k: int| 0 <= k < paths@.len() ==> views(paths@)[k] == paths@[k]@);
    Ok(paths)
}

/// The lines of a file are independent of each other: where two files have contents, these put together
/// with a line break between them have the contents of the one and then those of the other, and no
/// others. Without an error in either there is none in both together, if the names are well-formed
/// UTF-8.
pub proof fn law_contents_are_joined(
    first: Seq<u8>,
    second: Seq<u8>,
    first_paths: Seq<Seq<u8>>,
    second_paths: Seq<Seq<u8>>,
)
    requires
        is_content(first, first_paths),
        is_content(second, second_paths),
    ensures
        is_content(first.push(NEWLINE) + second, first_paths + second_paths),
        forall|paths: Seq<Seq<u8>>|
            #[trigger] is_content(first.push(NEWLINE) + second, paths) ==> paths == first_paths
                + second_paths,
        forall|place: int|
            !#[trigger] unquoting_fails_at(entries_of(first.push(NEWLINE) + second), place),
        forall|place: int|
            #[trigger] conversion_may_fail_at(entries_of(first.push(NEWLINE) + second), place)
                ==> !valid_utf8((first_paths + second_paths)[place]),
{
    let keep = |line: Seq<u8>| is_entry(line);
    let whole = first.push(NEWLINE) + second;
    let paths = first_paths + second_paths;
    lemma_fields_join(first, second, NEWLINE);
    Seq::filter_distributes_over_add(fields_of(first, NEWLINE), fields_of(second, NEWLINE), keep);
    assert(entries_of(whole) == entries_of(first) + entries_of(second));
    assert forall|i: int| 0 <= i < paths.len() implies entry_text(#[trigger] entries_of(whole)[i])
        == Some(paths[i]) by {
        if i < first_paths.len() {
            assert(entries_of(whole)[i] == entries_of(first)[i]);
        } else {
            assert(entries_of(whole)[i] == entries_of(second)[i - first_paths.len()]);
        }
    }
    assert forall|others: Seq<Seq<u8>>| #[trigger] is_content(whole, others) implies others
        == paths by {
        assert forall|i: int| 0 <= i < others.len() implies others[i] == paths[i] by {
            assert(entry_text(entries_of(whole)[i]) == Some(paths[i]));
        }
        assert(others =~= paths);
    }
}

/// Comments and empty lines name nothing.
pub proof fn law_comments_and_empty_lines_name_nothing(input: Seq<u8>, place: int)
    requires
        0 <= place < entries_of(input).len(),
    ensures
        entries_of(input)[place].len() > 0,
        entries_of(input)[place][0] != HASH,
{
    let keep = |line: Seq<u8>| is_entry(line);
    fields_of(input, NEWLINE).lemma_filter_pred(keep, place);
}

} // verus!
