//! What the form hands over once it has closed, and what is made of it.

use crate::cli::{builtin_extension_views, builtin_extensions};
use crate::file_ops::{
    append_additional_commands, commands_section, tags_output, walked, write_folder_tags,
    WalkError,
};
use crate::filetypes::FileTypeGroup;
use crate::gui::ModeSelector;
use crate::text::{
    blank, copy_strings, lines_of, lowercase, split_lines, to_lowercase, trim, trimmed, views,
};
use crate::walker::Folder;
use vstd::prelude::*;

verus! {

/// The selection that a run works on.
#[derive(Debug, Clone)]
pub struct SelectionRecord {
    /// The directory to walk; `None` where none was picked.
    pub directory: Option<String>,
    /// The allowed extensions; `None` where no file type was chosen.
    pub extensions: Option<Vec<String>>,
    /// Whether subdirectories are walked.
    pub recursive: bool,
    /// The names of the folders to leave out.
    pub ignored_folder_names: Vec<String>,
    /// The free text to append.
    pub user_text: String,
    /// The texts of the selected presets.
    pub preset_texts: Vec<String>,
    /// Whether the artifact goes to the clipboard.
    pub copy_to_clipboard: bool,
}

/// What to do with a selection.
#[derive(Debug, PartialEq, Eq, Clone, Copy)]
pub enum Step {
    /// Nothing was selected: the run ends cleanly, and nothing is written.
    Cancelled,
    /// The selected path is no directory: the run fails.
    NotADirectory,
    /// Walk the directory and write the artifact.
    Process,
}

/// The folder names among the first `n` lines: every line trimmed and in
/// lowercase, without those of which nothing is left.
pub open spec fn folder_names(lines: Seq<Seq<char>>, n: nat) -> Seq<Seq<char>>
    decreases n,
{
    if n == 0 || n > lines.len() {
        Seq::empty()
    } else if lowercase(trimmed(lines[n - 1])).len() > 0 {
        folder_names(lines, (n - 1) as nat).push(lowercase(trimmed(lines[n - 1])))
    } else {
        folder_names(lines, (n - 1) as nat)
    }
}

/// The folder names that a text holds, one on each line.
pub open spec fn ignored_names_of(text: Seq<char>) -> Seq<Seq<char>> {
    folder_names(lines_of(text), lines_of(text).len())
}

/// Reads the folder names to leave out from the text of the form: one name
/// on each line, trimmed and folded to lowercase; empty lines are dropped.
pub fn parse_ignored_folders(text: &str) -> (names: Vec<String>)
    ensures
        views(names@) == ignored_names_of(text@),
{
    let lines = split_lines(text);
    let mut names: Vec<String> = Vec::new();
    let mut i: usize = 0;
    while i < lines.len()
        invariant
            i <= lines.len(),
            views(names@) == folder_names(views(lines@), i as nat),
        decreases lines.len() - i,
    {
        let ghost before = names@;
        let name = to_lowercase(trim(lines[i].as_str()));
        if !name.as_str().is_empty() {
            names.push(name);
            assert(views(names@) =~= views(before).push(name@));
        }
        i += 1;
    }
    names
}

/// The first `n` preset texts, each trimmed and set between two line feeds.
pub open spec fn preset_blocks(texts: Seq<Seq<char>>, n: nat) -> Seq<char>
    decreases n,
{
    if n == 0 || n > texts.len() {
        Seq::empty()
    } else {
        preset_blocks(texts, (n - 1) as nat) + "\n"@ + trimmed(texts[n - 1]) + "\n"@
    }
}

/// All that is appended under the label: the preset texts, and then the
/// free text unless it is blank, each trimmed and set between two line
/// feeds.
pub open spec fn combined_commands(preset_texts: Seq<Seq<char>>, user_text: Seq<char>) -> Seq<
    char,
> {
    preset_blocks(preset_texts, preset_texts.len()) + (if blank(user_text) {
        Seq::empty()
    } else {
        "\n"@ + trimmed(user_text) + "\n"@
    })
}

/// Gathers the preset texts and the free text into the one block that is
/// appended to the artifact.
pub fn combine_additional(preset_texts: &Vec<String>, user_text: &str) -> (combined: String)
    ensures
        combined@ == combined_commands(views(preset_texts@), user_text@),
{
    let mut combined = String::new();
    let mut i: usize = 0;
    while i < preset_texts.len()
        invariant
            i <= preset_texts.len(),
            combined@ == preset_blocks(views(preset_texts@), i as nat),
        decreases preset_texts.len() - i,
    {
        let ghost before = combined@;
        combined.append("\n");
        combined.append(trim(preset_texts[i].as_str()));
        combined.append("\n");
        assert(combined@ =~= before + "\n"@ + trimmed(preset_texts@[i as int]@) + "\n"@);
        i += 1;
    }
    let ghost blocks = combined@;
    let user = trim(user_text);
    if !user.is_empty() {
        combined.append("\n");
        combined.append(user);
        combined.append("\n");
        assert(combined@ =~= blocks + ("\n"@ + trimmed(user_text@) + "\n"@));
    } else {
        assert(combined@ =~= blocks + Seq::<char>::empty());
    }
    combined
}

/// The artifact with what the selection appends to it: the section of
/// additional commands, unless all of it is blank.
pub open spec fn with_commands(
    artifact: Seq<char>,
    preset_texts: Seq<Seq<char>>,
    user_text: Seq<char>,
) -> Seq<char> {
    if blank(combined_commands(preset_texts, user_text)) {
        artifact
    } else {
        artifact + commands_section(combined_commands(preset_texts, user_text))
    }
}

/// Whether `i` is the first group that bears `name`.
pub open spec fn first_group_named(groups: Seq<FileTypeGroup>, name: Seq<char>, i: int) -> bool {
    &&& 0 <= i < groups.len()
    &&& groups[i].name@ == name
    &&& forall|j: int| 0 <= j < i ==> groups[j].name@ != name
}

/// The extensions of the first group that bears `name`.
pub fn extensions_of_mode(groups: &Vec<FileTypeGroup>, name: &String) -> (extensions: Option<
    Vec<String>,
>)
    ensures
        match extensions {
            Some(list) => exists|i: int|
                first_group_named(groups@, name@, i) && views(list@) == views(
                    groups@[i].extensions@,
                ),
            None => forall|i: int| 0 <= i < groups@.len() ==> groups@[i].name@ != name@,
        },
{
    let mut i: usize = 0;
    while i < groups.len()
        invariant
            i <= groups.len(),
            forall|j: int| 0 <= j < i ==> groups@[j].name@ != name@,
        decreases groups.len() - i,
    {
        if groups[i].name == *name {
            let list = copy_strings(&groups[i].extensions);
            assert(first_group_named(groups@, name@, i as int) && views(list@) == views(
                groups@[i as int].extensions@,
            ));
            return Some(list);
        }
        i += 1;
    }
    None
}

impl SelectionRecord {
    /// The selection of a run that was started with a path on the command
    /// line: that directory, the built-in extensions, its direct children
    /// only, nothing to append, and no copy to the clipboard.
    pub fn direct(path: String) -> (record: Self)
        ensures
            record.directory == Some(path),
            record.extensions is Some,
            views(record.extensions->0@) == builtin_extension_views(),
            !record.recursive,
            record.ignored_folder_names@.len() == 0,
            record.user_text@.len() == 0,
            record.preset_texts@.len() == 0,
            !record.copy_to_clipboard,
    {
        SelectionRecord {
            directory: Some(path),
            extensions: Some(builtin_extensions()),
            recursive: false,
            ignored_folder_names: Vec::new(),
            user_text: String::new(),
            preset_texts: Vec::new(),
            copy_to_clipboard: false,
        }
    }

    /// The selection that a form holds: its directory, the extensions of
    /// the first group that bears the chosen mode's name, the folder names
    /// read from its text, and the rest as it stands.
    pub fn from_form(form: &ModeSelector, groups: &Vec<FileTypeGroup>) -> (record: Self)
        ensures
            record.directory == form.selected_dir,
            match record.extensions {
                Some(list) => form.selected_mode is Some && exists|i: int|
                    first_group_named(groups@, form.selected_mode->0@, i) && views(list@)
                        == views(groups@[i].extensions@),
                None => form.selected_mode is None || forall|i: int|
                    0 <= i < groups@.len() ==> groups@[i].name@ != form.selected_mode->0@,
            },
            record.recursive == form.enable_recursive_search,
            views(record.ignored_folder_names@) == ignored_names_of(form.ignored_folders@),
            record.user_text == form.additional_commands,
            views(record.preset_texts@) == views(form.preset_texts@),
            record.copy_to_clipboard == form.enable_clipboard_copy,
    {
        let extensions = match &form.selected_mode {
            Some(name) => extensions_of_mode(groups, name),
            None => None,
        };
        SelectionRecord {
            directory: form.selected_dir.clone(),
            extensions,
            recursive: form.enable_recursive_search,
            ignored_folder_names: parse_ignored_folders(form.ignored_folders.as_str()),
            user_text: form.additional_commands.clone(),
            preset_texts: copy_strings(&form.preset_texts),
            copy_to_clipboard: form.enable_clipboard_copy,
        }
    }

    /// What to do with the selection. `is_dir` says whether the selected
    /// path is a directory. Without a directory the run is cancelled; a path
    /// that is no directory fails it; without a file type it is cancelled.
    pub fn next_step(&self, is_dir: bool) -> (step: Step)
        ensures
            step == (if self.directory is None {
                Step::Cancelled
            } else if !is_dir {
                Step::NotADirectory
            } else if self.extensions is None {
                Step::Cancelled
            } else {
                Step::Process
            }),
    {
        if self.directory.is_none() {
            Step::Cancelled
        } else if !is_dir {
            Step::NotADirectory
        } else if self.extensions.is_none() {
            Step::Cancelled
        } else {
            Step::Process
        }
    }

    /// Produces the whole artifact for the selection, given what listing
    /// the selected directory gave: the tagged files and the footer, and
    /// after them the section of additional commands, unless the preset
    /// texts and the free text are blank altogether. A listing that failed
    /// ends the run as it ends `write_folder_tags`.
    pub fn artifact(&self, dir: &Folder) -> (res: Result<String, WalkError>)
        requires
            self.directory is Some,
            self.extensions is Some,
        ensures
            match res {
                Ok(text) => {
                    &&& walked(
                        *dir,
                        self.extensions->0@,
                        self.recursive,
                        self.ignored_folder_names@,
                    ).failure is None
                    &&& text@ == with_commands(
                        tags_output(
                            *dir,
                            self.extensions->0@,
                            self.recursive,
                            self.ignored_folder_names@,
                        ),
                        views(self.preset_texts@),
                        self.user_text@,
                    )
                },
                Err(e) => {
                    &&& walked(
                        *dir,
                        self.extensions->0@,
                        self.recursive,
                        self.ignored_folder_names@,
                    ).failure == Some((e.folder@, e.cause@))
                    &&& e.written@ == walked(
                        *dir,
                        self.extensions->0@,
                        self.recursive,
                        self.ignored_folder_names@,
                    ).text
                },
            },
    {
        let extensions = self.extensions.as_ref().unwrap();
        let mut text = write_folder_tags(
            dir,
            extensions,
            self.recursive,
            &self.ignored_folder_names,
        )?;
        let combined = combine_additional(&self.preset_texts, self.user_text.as_str());
        if !trim(combined.as_str()).is_empty() {
            append_additional_commands(&mut text, combined.as_str());
        }
        Ok(text)
    }
}

} // verus!
