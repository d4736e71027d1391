//! What holds of every walk and of every appended section.

use crate::file_ops::{
    commands_section, emitted_entry, emitted_first, emitted_folder, footer, includable,
    lemma_failure_stays, nothing, rendered, rules_of, tag_block, tags_output, walked, Emitted,
};
use crate::text::views;
use crate::walker::{
    skipped, visit_of, walk_of, yielded_entry, yielded_first, yielded_folder, Entry, Folder, Kind,
    Rules, Visit, Walk, Yielded,
};
use vstd::prelude::*;

verus! {

/// Whether an entry is a file that the walk emits: its name passes the
/// filter and its content could be read.
pub open spec fn is_matching_file(entry: Entry, extensions: Seq<Seq<char>>) -> bool {
    match entry {
        Entry::File { name, content } => includable(name@, extensions) && content is Some,
        _ => false,
    }
}

/// The tag block of a file entry under its own name.
pub open spec fn block_of(entry: Entry) -> Seq<char> {
    match entry {
        Entry::File { name, content } => tag_block(name@, content->0@),
        _ => Seq::empty(),
    }
}

/// The tag blocks of the first `n` entries, one after the other.
pub open spec fn blocks_of(entries: Seq<Entry>, n: nat) -> Seq<char>
    decreases n,
{
    if n == 0 || n > entries.len() {
        Seq::empty()
    } else {
        blocks_of(entries, (n - 1) as nat) + block_of(entries[n - 1])
    }
}

proof fn lemma_matching_files(entries: Seq<Entry>, n: nat, rules: Rules)
    requires
        n <= entries.len(),
        forall|i: int| 0 <= i < n ==> is_matching_file(#[trigger] entries[i], rules.extensions),
    ensures
        emitted_first(entries, n, Seq::empty(), rules) == (Emitted {
            text: blocks_of(entries, n),
            failure: None,
        }),
    decreases n,
{
    if n > 0 {
        lemma_matching_files(entries, (n - 1) as nat, rules);
        let last = entries[n - 1];
        assert(is_matching_file(last, rules.extensions));
        match last {
            Entry::File { name, content } => {
                assert(Seq::<char>::empty() + name@ =~= name@);
            },
            _ => {},
        }
        assert(emitted_entry(last, Seq::empty(), rules) == (Emitted {
            text: block_of(last),
            failure: None,
        }));
    }
}

/// A directory that holds nothing but readable files with allowed
/// extensions gives one tag block per file, in the order of the listing:
/// the file's name in the tags and its content, unchanged, between them.
pub proof fn law_one_block_per_matching_file(
    dir: Folder,
    valid_exts: Seq<String>,
    recursive: bool,
    ignored_folders: Seq<String>,
)
    requires
        dir.failure is None,
        forall|i: int|
            0 <= i < dir.entries@.len() ==> is_matching_file(
                #[trigger] dir.entries@[i],
                views(valid_exts),
            ),
    ensures
        walked(dir, valid_exts, recursive, ignored_folders).failure is None,
        tags_output(dir, valid_exts, recursive, ignored_folders) == blocks_of(
            dir.entries@,
            dir.entries@.len(),
        ) + footer(),
{
    lemma_matching_files(
        dir.entries@,
        dir.entries@.len(),
        rules_of(valid_exts, recursive, ignored_folders),
    );
}

proof fn lemma_no_matching_files(entries: Seq<Entry>, n: nat, rules: Rules)
    requires
        n <= entries.len(),
        !rules.recursive,
        forall|i: int| 0 <= i < n ==> !is_matching_file(#[trigger] entries[i], rules.extensions),
    ensures
        emitted_first(entries, n, Seq::empty(), rules) == nothing(),
    decreases n,
{
    if n > 0 {
        lemma_no_matching_files(entries, (n - 1) as nat, rules);
        assert(!is_matching_file(entries[n - 1], rules.extensions));
        assert(emitted_entry(entries[n - 1], Seq::empty(), rules) == nothing());
        assert(emitted_first(entries, n, Seq::empty(), rules).text =~= Seq::<char>::empty());
    }
}

/// Without recursion, a directory in which no file matches, an empty one
/// among them, still gives an artifact: the footer and nothing else.
pub proof fn law_footer_alone_without_matching_files(
    dir: Folder,
    valid_exts: Seq<String>,
    ignored_folders: Seq<String>,
)
    requires
        dir.failure is None,
        forall|i: int|
            0 <= i < dir.entries@.len() ==> !is_matching_file(
                #[trigger] dir.entries@[i],
                views(valid_exts),
            ),
    ensures
        walked(dir, valid_exts, false, ignored_folders).failure is None,
        tags_output(dir, valid_exts, false, ignored_folders) == footer(),
{
    lemma_no_matching_files(
        dir.entries@,
        dir.entries@.len(),
        rules_of(valid_exts, false, ignored_folders),
    );
    assert(Seq::<char>::empty() + footer() =~= footer());
}

/// A folder that the walk leaves out gives nothing, whatever lies in it.
pub proof fn law_skipped_folder_gives_nothing(
    name: String,
    folder: Folder,
    prefix: Seq<char>,
    rules: Rules,
)
    requires
        skipped(name@, rules.ignored),
    ensures
        emitted_entry(Entry::Folder { name, folder }, prefix, rules) == nothing(),
{
}

/// Whether two entries are the same but for what lies in folders that the
/// walk leaves out.
pub open spec fn alike_entry(a: Entry, b: Entry, ignored: Seq<Seq<char>>) -> bool
    decreases a, 0nat,
{
    match a {
        Entry::File { name, content } => {
            &&& b is File
            &&& b->File_name@ == name@
            &&& b->File_content is Some == content is Some
            &&& content is Some ==> b->File_content->0@ == content->0@
        },
        Entry::Folder { name, folder } => {
            &&& b is Folder
            &&& b->Folder_name@ == name@
            &&& skipped(name@, ignored) || alike_folder(folder, b->folder, ignored)
        },
        Entry::Other { .. } => b is Other,
    }
}

/// Whether two listings are the same but for what lies in folders that the
/// walk leaves out, at whatever depth.
pub open spec fn alike_folder(a: Folder, b: Folder, ignored: Seq<Seq<char>>) -> bool
    decreases a, 1nat,
{
    &&& a.failure is Some == b.failure is Some
    &&& a.failure is Some ==> a.failure->0@ == b.failure->0@
    &&& a.entries@.len() == b.entries@.len()
    &&& forall|i: int|
        0 <= i < a.entries@.len() ==> alike_entry(
            #[trigger] a.entries@[i],
            b.entries@[i],
            ignored,
        )
}

proof fn lemma_alike_entry(a: Entry, b: Entry, prefix: Seq<char>, rules: Rules)
    requires
        alike_entry(a, b, rules.ignored),
    ensures
        emitted_entry(a, prefix, rules) == emitted_entry(b, prefix, rules),
    decreases a, 0nat,
{
    match a {
        Entry::Folder { name, folder } => {
            if rules.recursive && !skipped(name@, rules.ignored) {
                lemma_alike_folder(folder, b->folder, prefix + name@ + "\\"@, rules);
            }
        },
        _ => {},
    }
}

proof fn lemma_alike_first(a: Folder, b: Folder, n: nat, prefix: Seq<char>, rules: Rules)
    requires
        alike_folder(a, b, rules.ignored),
        n <= a.entries@.len(),
    ensures
        emitted_first(a.entries@, n, prefix, rules) == emitted_first(b.entries@, n, prefix, rules),
    decreases a, 0nat, n,
{
    if n > 0 {
        lemma_alike_first(a, b, (n - 1) as nat, prefix, rules);
        assert(alike_entry(a.entries@[n - 1], b.entries@[n - 1], rules.ignored));
        lemma_alike_entry(a.entries@[n - 1], b.entries@[n - 1], prefix, rules);
    }
}

proof fn lemma_alike_folder(a: Folder, b: Folder, prefix: Seq<char>, rules: Rules)
    requires
        alike_folder(a, b, rules.ignored),
    ensures
        emitted_folder(a, prefix, rules) == emitted_folder(b, prefix, rules),
    decreases a, 1nat,
{
    lemma_alike_first(a, b, a.entries@.len(), prefix, rules);
}

/// Nothing beneath a folder whose name begins with a dot, or is among the
/// ignored names but for case, reaches the artifact, at whatever depth the
/// folder lies: two directories that differ only beneath such folders give
/// the same walk.
pub proof fn law_nothing_beneath_skipped_folders(
    a: Folder,
    b: Folder,
    valid_exts: Seq<String>,
    recursive: bool,
    ignored_folders: Seq<String>,
)
    requires
        alike_folder(a, b, rules_of(valid_exts, recursive, ignored_folders).ignored),
    ensures
        walked(a, valid_exts, recursive, ignored_folders) == walked(
            b,
            valid_exts,
            recursive,
            ignored_folders,
        ),
{
    lemma_alike_folder(a, b, Seq::empty(), rules_of(valid_exts, recursive, ignored_folders));
}

/// Whether two entries are the same wherever the walk looks: files that it
/// reads have the same content, folders that it enters hold the same, and
/// all else may differ but for its kind and name.
pub open spec fn same_entry_where_visited(a: Entry, b: Entry, rules: Rules) -> bool
    decreases a, 0nat,
{
    match a {
        Entry::File { name, content } => {
            &&& b is File
            &&& b->File_name@ == name@
            &&& visit_of(Kind::File, name@, rules) == Visit::Read ==> {
                &&& b->File_content is Some == content is Some
                &&& content is Some ==> b->File_content->0@ == content->0@
            }
        },
        Entry::Folder { name, folder } => {
            &&& b is Folder
            &&& b->Folder_name@ == name@
            &&& visit_of(Kind::Folder, name@, rules) == Visit::Descend
                ==> same_folder_where_visited(folder, b->folder, rules)
        },
        Entry::Other { .. } => b is Other,
    }
}

/// Whether two listings are the same wherever the walk looks.
pub open spec fn same_folder_where_visited(a: Folder, b: Folder, rules: Rules) -> bool
    decreases a, 1nat,
{
    &&& a.failure is Some == b.failure is Some
    &&& a.failure is Some ==> a.failure->0@ == b.failure->0@
    &&& a.entries@.len() == b.entries@.len()
    &&& forall|i: int|
        0 <= i < a.entries@.len() ==> same_entry_where_visited(
            #[trigger] a.entries@[i],
            b.entries@[i],
            rules,
        )
}

proof fn lemma_same_entry(a: Entry, b: Entry, prefix: Seq<char>, rules: Rules)
    requires
        same_entry_where_visited(a, b, rules),
    ensures
        emitted_entry(a, prefix, rules) == emitted_entry(b, prefix, rules),
    decreases a, 0nat,
{
    match a {
        Entry::Folder { name, folder } => {
            if rules.recursive && !skipped(name@, rules.ignored) {
                lemma_same_folder(folder, b->folder, prefix + name@ + "\\"@, rules);
            }
        },
        _ => {},
    }
}

proof fn lemma_same_first(a: Folder, b: Folder, n: nat, prefix: Seq<char>, rules: Rules)
    requires
        same_folder_where_visited(a, b, rules),
        n <= a.entries@.len(),
    ensures
        emitted_first(a.entries@, n, prefix, rules) == emitted_first(b.entries@, n, prefix, rules),
    decreases a, 0nat, n,
{
    if n > 0 {
        lemma_same_first(a, b, (n - 1) as nat, prefix, rules);
        assert(same_entry_where_visited(a.entries@[n - 1], b.entries@[n - 1], rules));
        lemma_same_entry(a.entries@[n - 1], b.entries@[n - 1], prefix, rules);
    }
}

proof fn lemma_same_folder(a: Folder, b: Folder, prefix: Seq<char>, rules: Rules)
    requires
        same_folder_where_visited(a, b, rules),
    ensures
        emitted_folder(a, prefix, rules) == emitted_folder(b, prefix, rules),
    decreases a, 1nat,
{
    lemma_same_first(a, b, a.entries@.len(), prefix, rules);
}

/// The walk depends on nothing but what `visit` asks for: two directories
/// that agree on the content of every file that is read and on the listing
/// of every folder that is entered give the same walk. A caller may so
/// leave unread whatever the walk passes by.
pub proof fn law_walk_reads_only_what_it_visits(
    a: Folder,
    b: Folder,
    valid_exts: Seq<String>,
    recursive: bool,
    ignored_folders: Seq<String>,
)
    requires
        same_folder_where_visited(a, b, rules_of(valid_exts, recursive, ignored_folders)),
    ensures
        walked(a, valid_exts, recursive, ignored_folders) == walked(
            b,
            valid_exts,
            recursive,
            ignored_folders,
        ),
{
    lemma_same_folder(a, b, Seq::empty(), rules_of(valid_exts, recursive, ignored_folders));
}

proof fn lemma_emitted_prefix(a: Seq<Entry>, b: Seq<Entry>, n: nat, prefix: Seq<char>, rules: Rules)
    requires
        n <= a.len(),
        n <= b.len(),
        forall|i: int| 0 <= i < n ==> a[i] == b[i],
    ensures
        emitted_first(a, n, prefix, rules) == emitted_first(b, n, prefix, rules),
    decreases n,
{
    if n > 0 {
        lemma_emitted_prefix(a, b, (n - 1) as nat, prefix, rules);
    }
}

/// A walk ends at the first listing that failed: where the first `n`
/// entries of a directory hold such a listing, nothing that the directory
/// lists behind them plays a part, nor does a failure of its own listing.
pub proof fn law_walk_ends_at_the_first_failure(
    a: Folder,
    b: Folder,
    n: nat,
    prefix: Seq<char>,
    rules: Rules,
)
    requires
        n <= a.entries@.len(),
        b.entries@ == a.entries@.subrange(0, n as int),
        emitted_first(a.entries@, n, prefix, rules).failure is Some,
    ensures
        emitted_folder(a, prefix, rules) == emitted_folder(b, prefix, rules),
{
    lemma_emitted_prefix(a.entries@, b.entries@, n, prefix, rules);
    lemma_failure_stays(a.entries@, n, a.entries@.len(), prefix, rules);
}

proof fn lemma_rendered_prefix(x: Seq<Yielded>, y: Seq<Yielded>, n: nat, extensions: Seq<Seq<char>>)
    requires
        n <= x.len(),
    ensures
        rendered(x + y, n, extensions) == rendered(x, n, extensions),
    decreases n,
{
    if n > 0 {
        lemma_rendered_prefix(x, y, (n - 1) as nat, extensions);
        assert((x + y)[n - 1] == x[n - 1]);
    }
}

proof fn lemma_rendered_concat(x: Seq<Yielded>, y: Seq<Yielded>, k: nat, extensions: Seq<Seq<char>>)
    requires
        k <= y.len(),
    ensures
        rendered(x + y, x.len() + k, extensions) == rendered(x, x.len(), extensions) + rendered(
            y,
            k,
            extensions,
        ),
    decreases k,
{
    if k == 0 {
        lemma_rendered_prefix(x, y, x.len(), extensions);
        assert(rendered(x, x.len(), extensions) + Seq::<char>::empty() =~= rendered(
            x,
            x.len(),
            extensions,
        ));
    } else {
        lemma_rendered_concat(x, y, (k - 1) as nat, extensions);
        assert((x + y)[x.len() + k - 1] == y[k - 1]);
        assert(rendered(x + y, x.len() + k, extensions) =~= rendered(x, x.len(), extensions)
            + rendered(y, k, extensions));
    }
}

/// Whether the tags of `emitted` are those of the files of `walk`: a block
/// for each file that passes the filter and could be read, in order, and
/// the same failure.
pub open spec fn follows(emitted: Emitted, walk: Walk, extensions: Seq<Seq<char>>) -> bool {
    &&& emitted.failure == walk.failure
    &&& emitted.text == rendered(walk.files, walk.files.len(), extensions)
}

/// Whether two sets of rules are the same but for the extensions.
pub open spec fn same_walk_rules(r: Rules, w: Rules) -> bool {
    r.recursive == w.recursive && r.ignored == w.ignored
}

proof fn lemma_entry_follows(entry: Entry, prefix: Seq<char>, r: Rules, w: Rules)
    requires
        same_walk_rules(r, w),
    ensures
        follows(emitted_entry(entry, prefix, r), yielded_entry(entry, prefix, w), r.extensions),
    decreases entry, 0nat,
{
    match entry {
        Entry::File { name, content } => {
            let files = yielded_entry(entry, prefix, w).files;
            assert(files.len() == 1);
            assert(rendered(files, 0, r.extensions) =~= Seq::<char>::empty());
            assert(rendered(files, 1, r.extensions) =~= emitted_entry(entry, prefix, r).text);
        },
        Entry::Folder { name, folder } => {
            if r.recursive && !skipped(name@, r.ignored) {
                lemma_folder_follows(folder, prefix + name@ + "\\"@, r, w);
            }
        },
        Entry::Other { .. } => {},
    }
}

proof fn lemma_first_follows(folder: Folder, n: nat, prefix: Seq<char>, r: Rules, w: Rules)
    requires
        same_walk_rules(r, w),
        n <= folder.entries@.len(),
    ensures
        follows(
            emitted_first(folder.entries@, n, prefix, r),
            yielded_first(folder.entries@, n, prefix, w),
            r.extensions,
        ),
    decreases folder, 0nat, n,
{
    if n > 0 {
        lemma_first_follows(folder, (n - 1) as nat, prefix, r, w);
        let before = yielded_first(folder.entries@, (n - 1) as nat, prefix, w);
        if before.failure is None {
            let here = yielded_entry(folder.entries@[n - 1], prefix, w);
            lemma_entry_follows(folder.entries@[n - 1], prefix, r, w);
            lemma_rendered_concat(before.files, here.files, here.files.len(), r.extensions);
        }
    }
}

proof fn lemma_folder_follows(folder: Folder, prefix: Seq<char>, r: Rules, w: Rules)
    requires
        same_walk_rules(r, w),
    ensures
        follows(emitted_folder(folder, prefix, r), yielded_folder(folder, prefix, w), r.extensions),
    decreases folder, 1nat,
{
    lemma_first_follows(folder, folder.entries@.len(), prefix, r, w);
}

/// The tags follow the walk: the text of an artifact holds one tag block
/// for each file that the walk yields, that has an allowed extension and
/// that could be read, in the order of the walk and named by the path that
/// the walk gives it; and a walk fails for the artifact where it fails for
/// the paths.
pub proof fn law_tags_follow_the_walk(
    dir: Folder,
    valid_exts: Seq<String>,
    recursive: bool,
    ignored_folders: Seq<String>,
)
    ensures
        follows(
            walked(dir, valid_exts, recursive, ignored_folders),
            walk_of(dir, recursive, ignored_folders),
            views(valid_exts),
        ),
{
    lemma_folder_follows(
        dir,
        Seq::empty(),
        rules_of(valid_exts, recursive, ignored_folders),
        Rules {
            extensions: Seq::empty(),
            recursive,
            ignored: rules_of(valid_exts, recursive, ignored_folders).ignored,
        },
    );
}

/// Whether `pattern` stands in `text` at the index `at`.
pub open spec fn occurs_at(text: Seq<char>, pattern: Seq<char>, at: int) -> bool {
    0 <= at && at + pattern.len() <= text.len() && text.subrange(
        at,
        at + pattern.len() as int,
    ) == pattern
}

/// Appending the same commands twice gives two labelled sections, one
/// behind the other: nothing is merged.
pub proof fn law_append_twice_gives_two_sections(artifact: Seq<char>, additional_commands: Seq<char>)
    ensures
        occurs_at(
            artifact + commands_section(additional_commands) + commands_section(
                additional_commands,
            ),
            "[Additional Commands]"@,
            artifact.len() as int + 1,
        ),
        occurs_at(
            artifact + commands_section(additional_commands) + commands_section(
                additional_commands,
            ),
            "[Additional Commands]"@,
            artifact.len() as int + commands_section(additional_commands).len() as int + 1,
        ),
{
    reveal_strlit("[Additional Commands]");
    reveal_strlit("\n[Additional Commands]\n");
    reveal_strlit("\n\n");
    let section = commands_section(additional_commands);
    let label = "[Additional Commands]"@;
    let twice = artifact + section + section;
    let first: int = artifact.len() as int + 1;
    let second: int = artifact.len() as int + section.len() as int + 1;
    let n: int = label.len() as int;
    assert(section.subrange(1, 1 + n) =~= label);
    assert(twice.subrange(first, first + n) =~= section.subrange(1, 1 + n));
    assert(twice.subrange(second, second + n) =~= section.subrange(1, 1 + n));
}

} // verus!
