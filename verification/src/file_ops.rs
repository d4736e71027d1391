//! The tagged text that a walk emits, and what is appended to it.
//!
//! Every file that the walk comes by, that has an allowed extension and that
//! could be read, is wrapped in a pair of tags named after its path relative
//! to the root. The text ends with a fixed footer, behind which the section
//! of additional commands may follow.

use crate::text::{contains_string, extension, extension_of, fold_names, folded, views};
use crate::walker::{is_skipped, skipped, Entry, Folder, Rules, Yielded};
use vstd::prelude::*;

verus! {

/// Whether a file of this name passes the extension filter: it has an
/// extension, and the list holds exactly that extension.
pub open spec fn includable(name: Seq<char>, extensions: Seq<Seq<char>>) -> bool {
    extension_of(name) is Some && extensions.contains(extension_of(name)->0)
}

/// Whether a file name has one of the allowed extensions. The comparison is
/// exact; a name without an extension never passes.
pub fn is_human_readable(name: &str, valid_exts: &Vec<String>) -> (readable: bool)
    ensures
        readable == includable(name@, views(valid_exts@)),
{
    match extension(name) {
        Some(ext) => contains_string(valid_exts, &ext),
        None => false,
    }
}

impl Entry {
    /// Whether the entry is includable: it is a regular file, and its name
    /// has one of the allowed extensions.
    pub fn is_includable(&self, allowed_extensions: &Vec<String>) -> (includable: bool)
        ensures
            includable == (self is File && self::includable(
                self->File_name@,
                views(allowed_extensions@),
            )),
    {
        match self {
            Entry::File { name, .. } => is_human_readable(name.as_str(), allowed_extensions),
            _ => false,
        }
    }
}

/// One file between its tags: the opening tag on a line, the content on the
/// next, the closing tag on a third, and an empty line.
pub open spec fn tag_block(path: Seq<char>, content: Seq<char>) -> Seq<char> {
    "<"@ + path + ">\n"@ + content + "\n</"@ + path + ">\n\n"@
}

/// The guidance that ends every artifact.
pub open spec fn footer() -> Seq<char> {
    "* The above is the current state of my project.\n* Each node above is an XML-wrapped code snippet using relative Windows-style file path tags.\n* Provide context above and below code changes to be explicit on where any change should occur.\n* Under text under [Additional Commands] should be read very carefully and followed absolutely\n"@
}

/// What a walk, or a part of one, gives: the text emitted, and the listing
/// that ended it early, as the directory's path and the error's message.
pub struct Emitted {
    pub text: Seq<char>,
    pub failure: Option<(Seq<char>, Seq<char>)>,
}

/// Nothing emitted, nothing failed.
pub open spec fn nothing() -> Emitted {
    Emitted { text: Seq::empty(), failure: None }
}

/// What one entry gives. `prefix` is the path of the directory that holds it,
/// relative to the root, every segment followed by a backslash.
pub open spec fn emitted_entry(entry: Entry, prefix: Seq<char>, rules: Rules) -> Emitted
    decreases entry, 0nat,
{
    match entry {
        Entry::File { name, content } => {
            if includable(name@, rules.extensions) && content is Some {
                Emitted { text: tag_block(prefix + name@, content->0@), failure: None }
            } else {
                nothing()
            }
        },
        Entry::Folder { name, folder } => {
            if rules.recursive && !skipped(name@, rules.ignored) {
                emitted_folder(folder, prefix + name@ + "\\"@, rules)
            } else {
                nothing()
            }
        },
        Entry::Other { .. } => nothing(),
    }
}

/// What the first `n` entries of a listing give: each entry in turn, until
/// one of them fails.
pub open spec fn emitted_first(entries: Seq<Entry>, n: nat, prefix: Seq<char>, rules: Rules) -> Emitted
    decreases entries, n,
{
    if n == 0 || n > entries.len() {
        nothing()
    } else {
        let before = emitted_first(entries, (n - 1) as nat, prefix, rules);
        if before.failure is Some {
            before
        } else {
            let here = emitted_entry(entries[n - 1], prefix, rules);
            Emitted { text: before.text + here.text, failure: here.failure }
        }
    }
}

/// What a directory gives: its entries in turn, and then the failure of its
/// own listing, if nothing beneath it failed first.
pub open spec fn emitted_folder(folder: Folder, prefix: Seq<char>, rules: Rules) -> Emitted
    decreases folder, 0nat,
{
    let listed = emitted_first(folder.entries@, folder.entries@.len(), prefix, rules);
    if listed.failure is None && folder.failure is Some {
        Emitted { text: listed.text, failure: Some((prefix, folder.failure->0@)) }
    } else {
        listed
    }
}

/// The text that the first `n` files of a walk give: a tag block for each
/// file that passes the filter and could be read, in order.
pub open spec fn rendered(files: Seq<Yielded>, n: nat, extensions: Seq<Seq<char>>) -> Seq<char>
    decreases n,
{
    if n == 0 || n > files.len() {
        Seq::empty()
    } else if includable(files[n - 1].name, extensions) && files[n - 1].content is Some {
        rendered(files, (n - 1) as nat, extensions) + tag_block(
            files[n - 1].path,
            files[n - 1].content->0,
        )
    } else {
        rendered(files, (n - 1) as nat, extensions)
    }
}

/// The rules that a call of `write_folder_tags` walks by.
pub open spec fn rules_of(
    valid_exts: Seq<String>,
    recursive: bool,
    ignored_folders: Seq<String>,
) -> Rules {
    Rules {
        extensions: views(valid_exts),
        recursive,
        ignored: folded(views(ignored_folders)),
    }
}

/// What walking `dir` as the root gives under the rules of a call.
pub open spec fn walked(
    dir: Folder,
    valid_exts: Seq<String>,
    recursive: bool,
    ignored_folders: Seq<String>,
) -> Emitted {
    emitted_folder(dir, Seq::empty(), rules_of(valid_exts, recursive, ignored_folders))
}

/// The artifact of a walk that did not fail: the emitted text and the footer.
pub open spec fn tags_output(
    dir: Folder,
    valid_exts: Seq<String>,
    recursive: bool,
    ignored_folders: Seq<String>,
) -> Seq<char> {
    walked(dir, valid_exts, recursive, ignored_folders).text + footer()
}

/// A listing that failed during the walk.
#[derive(Debug, Clone)]
pub struct WalkError {
    /// The failing directory's path relative to the root, every segment
    /// followed by a backslash; empty for the root itself.
    pub folder: String,
    /// The message of the error that ended the listing.
    pub cause: String,
    /// The text that had been emitted when the listing failed.
    pub written: String,
}

/// Appends one file between its tags to `output`.
fn write_tags(output: &mut String, path: &str, content: &str)
    ensures
        final(output)@ == old(output)@ + tag_block(path@, content@),
{
    output.append("<");
    output.append(path);
    output.append(">\n");
    output.append(content);
    output.append("\n</");
    output.append(path);
    output.append(">\n\n");
    assert(final(output)@ =~= old(output)@ + tag_block(path@, content@));
}

/// Appends what a file entry gives: its content between tags where the name
/// passes the filter and the content could be read, nothing otherwise.
fn write_file(
    output: &mut String,
    prefix: &str,
    name: &String,
    content: &Option<String>,
    valid_exts: &Vec<String>,
)
    ensures
        final(output)@ == old(output)@ + (if includable(name@, views(valid_exts@)) && content is Some {
            tag_block(prefix@ + name@, content->0@)
        } else {
            Seq::empty()
        }),
{
    if is_human_readable(name.as_str(), valid_exts) {
        if let Some(text) = content {
            let mut path = String::from_str(prefix);
            path.append(name.as_str());
            write_tags(output, path.as_str(), text.as_str());
            return;
        }
    }
    assert(old(output)@ + Seq::<char>::empty() =~= old(output)@);
}

/// Once a prefix of a listing has failed, every longer prefix gives the same.
pub proof fn lemma_failure_stays(entries: Seq<Entry>, n: nat, m: nat, prefix: Seq<char>, rules: Rules)
    requires
        n <= m <= entries.len(),
        emitted_first(entries, n, prefix, rules).failure is Some,
    ensures
        emitted_first(entries, m, prefix, rules) == emitted_first(entries, n, prefix, rules),
    decreases m,
{
    if n < m {
        lemma_failure_stays(entries, n, (m - 1) as nat, prefix, rules);
    }
}

/// Walks one directory and all that lies beneath it, appending to `output`
/// what the walk emits. `prefix` is the directory's path relative to the
/// root, every segment followed by a backslash; `ignored` holds the ignored
/// names in lowercase. The walk ends at the first listing that failed, and
/// reports it as the directory's path and the error's message.
fn write_folder_tags_recursive(
    dir: &Folder,
    prefix: &str,
    valid_exts: &Vec<String>,
    output: &mut String,
    ignored: &Vec<String>,
) -> (res: Result<(), (String, String)>)
    ensures
        final(output)@ == old(output)@ + emitted_folder(
            *dir,
            prefix@,
            Rules { extensions: views(valid_exts@), recursive: true, ignored: views(ignored@) },
        ).text,
        match res {
            Ok(_) => emitted_folder(
                *dir,
                prefix@,
                Rules { extensions: views(valid_exts@), recursive: true, ignored: views(ignored@) },
            ).failure is None,
            Err(e) => emitted_folder(
                *dir,
                prefix@,
                Rules { extensions: views(valid_exts@), recursive: true, ignored: views(ignored@) },
            ).failure == Some((e.0@, e.1@)),
        },
    decreases dir,
{
    let ghost rules = Rules {
        extensions: views(valid_exts@),
        recursive: true,
        ignored: views(ignored@),
    };
    let mut i: usize = 0;
    assert(old(output)@ + Seq::<char>::empty() =~= old(output)@);
    while i < dir.entries.len()
        invariant
            i <= dir.entries.len(),
            rules == (Rules {
                extensions: views(valid_exts@),
                recursive: true,
                ignored: views(ignored@),
            }),
            output@ == old(output)@ + emitted_first(dir.entries@, i as nat, prefix@, rules).text,
            emitted_first(dir.entries@, i as nat, prefix@, rules).failure is None,
        decreases dir.entries.len() - i,
    {
        let ghost before = output@;
        let ghost so_far = emitted_first(dir.entries@, i as nat, prefix@, rules);
        match &dir.entries[i] {
            Entry::File { name, content } => {
                write_file(output, prefix, name, content, valid_exts);
            },
            Entry::Folder { name, folder } => {
                if !is_skipped(name.as_str(), ignored) {
                    let mut inner = String::from_str(prefix);
                    inner.append(name.as_str());
                    inner.append("\\");
                    let walked = write_folder_tags_recursive(
                        folder,
                        inner.as_str(),
                        valid_exts,
                        output,
                        ignored,
                    );
                    let ghost here = emitted_entry(dir.entries@[i as int], prefix@, rules);
                    assert(output@ =~= old(output)@ + (so_far.text + here.text));
                    if let Err(e) = walked {
                        proof {
                            lemma_failure_stays(dir.entries@, (i + 1) as nat, dir.entries@.len(), prefix@, rules);
                        }
                        return Err(e);
                    }
                } else {
                    assert(before + Seq::<char>::empty() =~= before);
                }
            },
            Entry::Other { .. } => {
                assert(before + Seq::<char>::empty() =~= before);
            },
        }
        let ghost here = emitted_entry(dir.entries@[i as int], prefix@, rules);
        assert(output@ =~= old(output)@ + (so_far.text + here.text));
        i += 1;
    }
    match &dir.failure {
        Some(cause) => Err((String::from_str(prefix), cause.clone())),
        None => Ok(()),
    }
}

/// Produces the artifact for the directory `dir`: every file whose extension
/// is in `valid_exts` and whose content could be read, between tags named
/// after its path relative to `dir` with backslashes between the segments,
/// in the order of the listings, and then the footer. Subdirectories are
/// entered only where `recursive` is set, and then not those whose name
/// begins with a dot or equals one of `ignored_folders` but for case.
///
/// A listing that failed ends the walk: the error names the directory and
/// the cause, and holds the text emitted up to there, without the footer.
pub fn write_folder_tags(
    dir: &Folder,
    valid_exts: &Vec<String>,
    recursive: bool,
    ignored_folders: &Vec<String>,
) -> (res: Result<String, WalkError>)
    ensures
        match res {
            Ok(text) => {
                &&& walked(*dir, valid_exts@, recursive, ignored_folders@).failure is None
                &&& text@ == tags_output(*dir, valid_exts@, recursive, ignored_folders@)
            },
            Err(e) => {
                &&& walked(*dir, valid_exts@, recursive, ignored_folders@).failure == Some(
                    (e.folder@, e.cause@),
                )
                &&& e.written@ == walked(*dir, valid_exts@, recursive, ignored_folders@).text
            },
        },
{
    let mut output = String::new();
    let root = String::new();
    let ghost rules = rules_of(valid_exts@, recursive, ignored_folders@);
    if recursive {
        let ignored = fold_names(ignored_folders);
        assert(rules == (Rules {
            extensions: views(valid_exts@),
            recursive: true,
            ignored: views(ignored@),
        }));
        let walk = write_folder_tags_recursive(dir, root.as_str(), valid_exts, &mut output, &ignored);
        assert(output@ =~= emitted_folder(*dir, root@, rules).text);
        if let Err(e) = walk {
            return Err(WalkError { folder: e.0, cause: e.1, written: output });
        }
    } else {
        let mut i: usize = 0;
        while i < dir.entries.len()
            invariant
                i <= dir.entries.len(),
                !recursive,
                root@ == Seq::<char>::empty(),
                rules == rules_of(valid_exts@, recursive, ignored_folders@),
                output@ == emitted_first(dir.entries@, i as nat, root@, rules).text,
                emitted_first(dir.entries@, i as nat, root@, rules).failure is None,
            decreases dir.entries.len() - i,
        {
            let ghost before = output@;
            if let Entry::File { name, content } = &dir.entries[i] {
                write_file(&mut output, root.as_str(), name, content, valid_exts);
            } else {
                assert(before + Seq::<char>::empty() =~= before);
            }
            assert(emitted_first(dir.entries@, (i + 1) as nat, root@, rules).text == before
                + emitted_entry(dir.entries@[i as int], root@, rules).text);
            i += 1;
        }
        if let Some(cause) = &dir.failure {
            return Err(WalkError { folder: root, cause: cause.clone(), written: output });
        }
    }
    output.append(
        "* The above is the current state of my project.\n* Each node above is an XML-wrapped code snippet using relative Windows-style file path tags.\n* Provide context above and below code changes to be explicit on where any change should occur.\n* Under text under [Additional Commands] should be read very carefully and followed absolutely\n",
    );
    Ok(output)
}

/// The section that holds the additional commands: an empty line, the label
/// on a line of its own, the commands, and an empty line.
pub open spec fn commands_section(additional_commands: Seq<char>) -> Seq<char> {
    "\n[Additional Commands]\n"@ + additional_commands + "\n\n"@
}

/// Appends the additional commands to the artifact, under their label.
/// Nothing is merged: every call appends a section of its own.
pub fn append_additional_commands(artifact: &mut String, additional_commands: &str)
    ensures
        final(artifact)@ == old(artifact)@ + commands_section(additional_commands@),
{
    artifact.append("\n[Additional Commands]\n");
    artifact.append(additional_commands);
    artifact.append("\n\n");
    assert(final(artifact)@ =~= old(artifact)@ + commands_section(additional_commands@));
}

} // verus!
