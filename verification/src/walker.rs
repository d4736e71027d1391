//! The directory as it was listed, and the walk over it.
//!
//! A directory is handed over as a [`Folder`]: what listing it gave, entry by
//! entry, in the order in which the entries came. The walk visits the entries
//! in that order and, where it is recursive, enters every folder before it
//! goes on behind it, but for the folders that it leaves out.

use crate::file_ops::{includable, is_human_readable};
use crate::text::{contains_string, fold_names, folded, lowercase, to_lowercase, views};
use vstd::prelude::*;

verus! {

/// What listing one directory gave.
#[derive(Debug)]
pub struct Folder {
    /// The entries that were read, in the order in which they came.
    pub entries: Vec<Entry>,
    /// The message of the error that ended the listing, if one did. The
    /// entries read before it are still in `entries`.
    pub failure: Option<String>,
}

/// One entry of a directory.
#[derive(Debug)]
pub enum Entry {
    /// A regular file; `content` is `None` where it could not be read as
    /// UTF-8 text, or was not read because the walk passes the file by.
    File { name: String, content: Option<String> },
    /// A subdirectory and what listing it gave; the listing may be left
    /// empty where the walk does not enter the folder.
    Folder { name: String, folder: Folder },
    /// Anything that is neither a regular file nor a directory.
    Other { name: String },
}

/// The rules of one walk, as the walk's model sees them.
pub struct Rules {
    /// The allowed extensions, without a leading dot.
    pub extensions: Seq<Seq<char>>,
    /// Whether subdirectories are entered.
    pub recursive: bool,
    /// The names of the folders to leave out, in lowercase.
    pub ignored: Seq<Seq<char>>,
}

/// Whether a folder of this name is left out of a recursive walk: the name
/// begins with a dot, or its lowercase form is among the ignored names.
pub open spec fn skipped(name: Seq<char>, ignored: Seq<Seq<char>>) -> bool {
    (name.len() > 0 && name[0] == '.') || ignored.contains(lowercase(name))
}

/// Whether a recursive walk leaves out a folder of this name. `ignored`
/// holds the ignored names in lowercase.
pub fn is_skipped(name: &str, ignored: &Vec<String>) -> (skip: bool)
    ensures
        skip == skipped(name@, views(ignored@)),
{
    if !name.is_empty() && name.get_char(0) == '.' {
        return true;
    }
    let lower = to_lowercase(name);
    contains_string(ignored, &lower)
}

/// What kind of entry a directory holds.
#[derive(Debug, PartialEq, Eq, Clone, Copy)]
pub enum Kind {
    /// A regular file.
    File,
    /// A directory.
    Folder,
    /// Anything else.
    Other,
}

/// What the walk does with an entry.
#[derive(Debug, PartialEq, Eq, Clone, Copy)]
pub enum Visit {
    /// It reads the file and emits it.
    Read,
    /// It enters the folder.
    Descend,
    /// It passes the entry by.
    Pass,
}

/// What the walk does with an entry of this kind and name.
pub open spec fn visit_of(kind: Kind, name: Seq<char>, rules: Rules) -> Visit {
    match kind {
        Kind::File => if includable(name, rules.extensions) {
            Visit::Read
        } else {
            Visit::Pass
        },
        Kind::Folder => if rules.recursive && !skipped(name, rules.ignored) {
            Visit::Descend
        } else {
            Visit::Pass
        },
        Kind::Other => Visit::Pass,
    }
}

/// Says what the walk does with an entry, for a caller that reads a
/// directory step by step: the content of a file is needed only where this
/// says `Read`, and the listing of a folder only where it says `Descend`.
/// `ignored` holds the ignored names in lowercase.
pub fn visit(
    kind: Kind,
    name: &str,
    valid_exts: &Vec<String>,
    recursive: bool,
    ignored: &Vec<String>,
) -> (visit: Visit)
    ensures
        visit == visit_of(
            kind,
            name@,
            Rules { extensions: views(valid_exts@), recursive, ignored: views(ignored@) },
        ),
{
    match kind {
        Kind::File => if is_human_readable(name, valid_exts) {
            Visit::Read
        } else {
            Visit::Pass
        },
        Kind::Folder => if recursive && !is_skipped(name, ignored) {
            Visit::Descend
        } else {
            Visit::Pass
        },
        Kind::Other => Visit::Pass,
    }
}

/// A file that the walk comes by, before any filter: its path relative to
/// the root, its name, and its content where it could be read.
pub struct Yielded {
    pub path: Seq<char>,
    pub name: Seq<char>,
    pub content: Option<Seq<char>>,
}

/// The files that a walk, or a part of one, comes by, in order, and the
/// listing that ended it early.
pub struct Walk {
    pub files: Seq<Yielded>,
    pub failure: Option<(Seq<char>, Seq<char>)>,
}

/// No file, nothing failed.
pub open spec fn no_files() -> Walk {
    Walk { files: Seq::empty(), failure: None }
}

/// The files that one entry yields: a file yields itself, whatever its
/// extension; a folder yields what lies in it where the walk enters it.
pub open spec fn yielded_entry(entry: Entry, prefix: Seq<char>, rules: Rules) -> Walk
    decreases entry, 0nat,
{
    match entry {
        Entry::File { name, content } => Walk {
            files: seq![
                Yielded {
                    path: prefix + name@,
                    name: name@,
                    content: match content {
                        Some(text) => Some(text@),
                        None => None,
                    },
                },
            ],
            failure: None,
        },
        Entry::Folder { name, folder } => {
            if rules.recursive && !skipped(name@, rules.ignored) {
                yielded_folder(folder, prefix + name@ + "\\"@, rules)
            } else {
                no_files()
            }
        },
        Entry::Other { .. } => no_files(),
    }
}

/// The files that the first `n` entries of a listing yield.
pub open spec fn yielded_first(entries: Seq<Entry>, n: nat, prefix: Seq<char>, rules: Rules) -> Walk
    decreases entries, n,
{
    if n == 0 || n > entries.len() {
        no_files()
    } else {
        let before = yielded_first(entries, (n - 1) as nat, prefix, rules);
        if before.failure is Some {
            before
        } else {
            let here = yielded_entry(entries[n - 1], prefix, rules);
            Walk { files: before.files + here.files, failure: here.failure }
        }
    }
}

/// The files that a directory yields, and the failure of its own listing
/// if nothing beneath it failed first.
pub open spec fn yielded_folder(folder: Folder, prefix: Seq<char>, rules: Rules) -> Walk
    decreases folder, 0nat,
{
    let listed = yielded_first(folder.entries@, folder.entries@.len(), prefix, rules);
    if listed.failure is None && folder.failure is Some {
        Walk { files: listed.files, failure: Some((prefix, folder.failure->0@)) }
    } else {
        listed
    }
}

/// The relative paths of a sequence of files, in order.
pub open spec fn paths_of(files: Seq<Yielded>) -> Seq<Seq<char>> {
    Seq::new(files.len(), |i: int| files[i].path)
}

/// A listing that failed while the files were only walked.
#[derive(Debug, Clone)]
pub struct ListingError {
    /// The failing directory's path relative to the root, every segment
    /// followed by a backslash; empty for the root itself.
    pub folder: String,
    /// The message of the error that ended the listing.
    pub cause: String,
}

/// Once a prefix of a listing has failed, every longer prefix yields the
/// same.
proof fn lemma_walk_failure_stays(
    entries: Seq<Entry>,
    n: nat,
    m: nat,
    prefix: Seq<char>,
    rules: Rules,
)
    requires
        n <= m <= entries.len(),
        yielded_first(entries, n, prefix, rules).failure is Some,
    ensures
        yielded_first(entries, m, prefix, rules) == yielded_first(entries, n, prefix, rules),
    decreases m,
{
    if n < m {
        lemma_walk_failure_stays(entries, n, (m - 1) as nat, prefix, rules);
    }
}

/// Walks one directory, appending to `paths` the relative path of every
/// file that the walk comes by.
fn walk_recursive(
    dir: &Folder,
    prefix: &str,
    recursive: bool,
    ignored: &Vec<String>,
    paths: &mut Vec<String>,
) -> (res: Result<(), ListingError>)
    ensures
        views(final(paths)@) == views(old(paths)@) + paths_of(
            yielded_folder(
                *dir,
                prefix@,
                Rules { extensions: Seq::empty(), recursive, ignored: views(ignored@) },
            ).files,
        ),
        match res {
            Ok(_) => yielded_folder(
                *dir,
                prefix@,
                Rules { extensions: Seq::empty(), recursive, ignored: views(ignored@) },
            ).failure is None,
            Err(e) => yielded_folder(
                *dir,
                prefix@,
                Rules { extensions: Seq::empty(), recursive, ignored: views(ignored@) },
            ).failure == Some((e.folder@, e.cause@)),
        },
    decreases dir,
{
    let ghost rules = Rules { extensions: Seq::empty(), recursive, ignored: views(ignored@) };
    let mut i: usize = 0;
    assert(views(paths@) + paths_of(Seq::<Yielded>::empty()) =~= views(paths@));
    while i < dir.entries.len()
        invariant
            i <= dir.entries.len(),
            rules == (Rules { extensions: Seq::empty(), recursive, ignored: views(ignored@) }),
            views(paths@) == views(old(paths)@) + paths_of(
                yielded_first(dir.entries@, i as nat, prefix@, rules).files,
            ),
            yielded_first(dir.entries@, i as nat, prefix@, rules).failure is None,
        decreases dir.entries.len() - i,
    {
        let ghost so_far = yielded_first(dir.entries@, i as nat, prefix@, rules);
        let ghost here = yielded_entry(dir.entries@[i as int], prefix@, rules);
        match &dir.entries[i] {
            Entry::File { name, content } => {
                let ghost before = paths@;
                let mut path = String::from_str(prefix);
                path.append(name.as_str());
                paths.push(path);
                assert(views(paths@) =~= views(before).push(prefix@ + name@));
                assert(paths_of(so_far.files + here.files) =~= paths_of(so_far.files).push(
                    prefix@ + name@,
                ));
            },
            Entry::Folder { name, folder } => {
                if recursive && !is_skipped(name.as_str(), ignored) {
                    let mut inner = String::from_str(prefix);
                    inner.append(name.as_str());
                    inner.append("\\");
                    let walked = walk_recursive(folder, inner.as_str(), recursive, ignored, paths);
                    assert(views(paths@) =~= views(old(paths)@) + paths_of(
                        so_far.files + here.files,
                    ));
                    if let Err(e) = walked {
                        proof {
                            lemma_walk_failure_stays(
                                dir.entries@,
                                (i + 1) as nat,
                                dir.entries@.len(),
                                prefix@,
                                rules,
                            );
                        }
                        return Err(e);
                    }
                } else {
                    assert(so_far.files + here.files =~= so_far.files);
                }
            },
            Entry::Other { .. } => {
                assert(so_far.files + here.files =~= so_far.files);
            },
        }
        assert(views(paths@) =~= views(old(paths)@) + paths_of(so_far.files + here.files));
        i += 1;
    }
    match &dir.failure {
        Some(cause) => Err(ListingError { folder: String::from_str(prefix), cause: cause.clone() }),
        None => Ok(()),
    }
}

/// The files that walking `dir` as the root yields under the rules of a
/// call. The extensions play no part in it.
pub open spec fn walk_of(dir: Folder, recursive: bool, ignored_folders: Seq<String>) -> Walk {
    yielded_folder(
        dir,
        Seq::empty(),
        Rules { extensions: Seq::empty(), recursive, ignored: folded(views(ignored_folders)) },
    )
}

/// Walks the directory `dir` and returns the path of every file that the
/// walk comes by, relative to `dir` and with backslashes between the
/// segments, in the order of the listings. Without `recursive` these are
/// the files that `dir` holds itself. With it, every folder is entered
/// before the walk goes on behind it, but for those whose name begins with
/// a dot or equals one of `ignored_folders` but for case: nothing beneath
/// them is yielded. No extension is looked at. A listing that failed fails
/// the walk.
pub fn walk(dir: &Folder, recursive: bool, ignored_folders: &Vec<String>) -> (res: Result<
    Vec<String>,
    ListingError,
>)
    ensures
        match res {
            Ok(paths) => {
                &&& walk_of(*dir, recursive, ignored_folders@).failure is None
                &&& views(paths@) == paths_of(walk_of(*dir, recursive, ignored_folders@).files)
            },
            Err(e) => walk_of(*dir, recursive, ignored_folders@).failure == Some(
                (e.folder@, e.cause@),
            ),
        },
{
    let ignored = fold_names(ignored_folders);
    let root = String::new();
    let mut paths: Vec<String> = Vec::new();
    match walk_recursive(dir, root.as_str(), recursive, &ignored, &mut paths) {
        Ok(_) => {
            assert(views(paths@) =~= paths_of(walk_of(*dir, recursive, ignored_folders@).files));
            Ok(paths)
        },
        Err(e) => Err(e),
    }
}

} // verus!
