//! The named groups of file extensions and the list they default to.

use crate::config::{load_or_empty, text_to_write, written, Loaded, Stored};
use crate::text::views;
use vstd::prelude::*;

verus! {

/// A named bundle of file extensions, such as "Rust" for `rs`.
#[derive(Debug, Clone)]
pub struct FileTypeGroup {
    pub name: String,
    pub extensions: Vec<String>,
}

/// A group as a name and its extensions, in order.
pub struct GroupView {
    pub name: Seq<char>,
    pub extensions: Seq<Seq<char>>,
}

impl View for FileTypeGroup {
    type V = GroupView;

    open spec fn view(&self) -> GroupView {
        GroupView { name: self.name@, extensions: views(self.extensions@) }
    }
}

/// The views of a list of groups, in order.
pub open spec fn group_views(groups: Seq<FileTypeGroup>) -> Seq<GroupView> {
    Seq::new(groups.len(), |i: int| groups[i]@)
}

/// The built-in list: one group for each of Rust, JSON and Lua.
pub open spec fn default_groups() -> Seq<GroupView> {
    seq![
        GroupView { name: "Rust"@, extensions: seq!["rs"@] },
        GroupView { name: "JSON"@, extensions: seq!["json"@] },
        GroupView { name: "Lua"@, extensions: seq!["lua"@] },
    ]
}

/// A group with one extension.
fn single(name: &str, extension: &str) -> (group: FileTypeGroup)
    ensures
        group@ == (GroupView { name: name@, extensions: seq![extension@] }),
{
    let mut extensions: Vec<String> = Vec::new();
    extensions.push(String::from_str(extension));
    let group = FileTypeGroup { name: String::from_str(name), extensions };
    assert(group@.extensions =~= seq![extension@]);
    group
}

/// Builds the built-in list.
pub fn default_filetypes() -> (groups: Vec<FileTypeGroup>)
    ensures
        group_views(groups@) == default_groups(),
{
    let mut groups: Vec<FileTypeGroup> = Vec::new();
    groups.push(single("Rust", "rs"));
    groups.push(single("JSON", "json"));
    groups.push(single("Lua", "lua"));
    assert(group_views(groups@) =~= default_groups());
    groups
}

/// The file type groups to start with, given what the backing file was
/// found to hold: its list, unchanged and in order, where it holds one; no
/// group at all where it could not be read as a list; and the built-in
/// list, to be saved at once, where there is no backing file.
pub fn get_filetypes(stored: Stored<FileTypeGroup>) -> (loaded: Loaded<FileTypeGroup>)
    ensures
        match stored {
            Stored::Missing => group_views(loaded.list@) == default_groups() && loaded.persist,
            Stored::Corrupt => loaded.list@.len() == 0 && !loaded.persist,
            Stored::List(list) => loaded.list == list && !loaded.persist,
        },
{
    load_or_empty(stored, default_filetypes())
}

/// The text that saving the groups writes over the backing file, in full:
/// their serialization as it was handed over, or nothing at all where they
/// could not be serialized.
pub fn save_filetypes(serialized: Option<String>) -> (text: String)
    ensures
        text@ == written(serialized),
{
    text_to_write(serialized)
}

} // verus!
