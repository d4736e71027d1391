//! The reusable blocks of instructions and the list they default to.

use crate::config::{load_or_empty, text_to_write, written, Loaded, Stored};
use vstd::prelude::*;

verus! {

/// A named block of instructions that can be attached to the artifact.
#[derive(Debug, Clone)]
pub struct PresetCommand {
    pub name: String,
    pub text: String,
}

/// A preset as its name and its text.
pub struct PresetView {
    pub name: Seq<char>,
    pub text: Seq<char>,
}

impl View for PresetCommand {
    type V = PresetView;

    open spec fn view(&self) -> PresetView {
        PresetView { name: self.name@, text: self.text@ }
    }
}

/// The views of a list of presets, in order.
pub open spec fn preset_views(presets: Seq<PresetCommand>) -> Seq<PresetView> {
    Seq::new(presets.len(), |i: int| presets[i]@)
}

/// The text of the built-in preset that asks for function documentation.
pub open spec fn documentation_text() -> Seq<char> {
    "for each function, create very detailed documentation for that function, only respond with a single function and even still only respond with the documentation  and not the contents of the function itself. After providing the documentation, prompt for the next function.\n\nprovide information such as panics, parameters, all the interesting stuff about that function\n\nwrite the documentation as code blocks that appear above the function, similar to how other proper documentated rust functions are with code blocks\n\nprompt with the name of the function, do not respond with the code body of the function, only the documentation\nstart with the main function\n\nuse \"///\" for the function blocks"@
}

/// The text of the built-in preset that asks for a readme.
pub open spec fn readme_text() -> Seq<char> {
    "I want you to update the readme.md file. I want this readme to be the most fancy readme possible with as many fancy emojis, information, examples, and other interesting things.\nany sort of flowcharts, sequence diagrams, or other things that would look really good on a public facing github page are welcome\n"@
}

/// The built-in list: two worked presets and three to be filled in.
pub open spec fn default_preset_views() -> Seq<PresetView> {
    seq![
        PresetView { name: "Create Function Documentation"@, text: documentation_text() },
        PresetView { name: "Create Readme"@, text: readme_text() },
        PresetView { name: "Button 3"@, text: "tbd"@ },
        PresetView { name: "Button 4"@, text: "tbd"@ },
        PresetView { name: "Button 5"@, text: "tbd"@ },
    ]
}

/// A preset of this name and text.
fn preset(name: &str, text: &str) -> (p: PresetCommand)
    ensures
        p@ == (PresetView { name: name@, text: text@ }),
{
    PresetCommand { name: String::from_str(name), text: String::from_str(text) }
}

/// Builds the built-in list.
pub fn default_presets() -> (presets: Vec<PresetCommand>)
    ensures
        preset_views(presets@) == default_preset_views(),
{
    let mut presets: Vec<PresetCommand> = Vec::new();
    presets.push(preset(
        "Create Function Documentation",
        "for each function, create very detailed documentation for that function, only respond with a single function and even still only respond with the documentation  and not the contents of the function itself. After providing the documentation, prompt for the next function.\n\nprovide information such as panics, parameters, all the interesting stuff about that function\n\nwrite the documentation as code blocks that appear above the function, similar to how other proper documentated rust functions are with code blocks\n\nprompt with the name of the function, do not respond with the code body of the function, only the documentation\nstart with the main function\n\nuse \"///\" for the function blocks",
    ));
    presets.push(preset(
        "Create Readme",
        "I want you to update the readme.md file. I want this readme to be the most fancy readme possible with as many fancy emojis, information, examples, and other interesting things.\nany sort of flowcharts, sequence diagrams, or other things that would look really good on a public facing github page are welcome\n",
    ));
    presets.push(preset("Button 3", "tbd"));
    presets.push(preset("Button 4", "tbd"));
    presets.push(preset("Button 5", "tbd"));
    assert(preset_views(presets@) =~= default_preset_views());
    presets
}

/// The presets to start with, given what the backing file was found to
/// hold: its list, unchanged and in order, where it holds one; no preset at
/// all where it could not be read as a list; and the built-in list, to be
/// saved at once, where there is no backing file.
pub fn get_presets(stored: Stored<PresetCommand>) -> (loaded: Loaded<PresetCommand>)
    ensures
        match stored {
            Stored::Missing => preset_views(loaded.list@) == default_preset_views()
                && loaded.persist,
            Stored::Corrupt => loaded.list@.len() == 0 && !loaded.persist,
            Stored::List(list) => loaded.list == list && !loaded.persist,
        },
{
    load_or_empty(stored, default_presets())
}

/// The text that saving the presets writes over the backing file, in full:
/// their serialization as it was handed over, or nothing at all where they
/// could not be serialized.
pub fn save_presets(serialized: Option<String>) -> (text: String)
    ensures
        text@ == written(serialized),
{
    text_to_write(serialized)
}

} // verus!
