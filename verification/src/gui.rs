//! The state of the selection form and its reaction to every event.
//!
//! Drawing the form and the native dialogs are the caller's part. The caller
//! binds the form's fields to its widgets, reports each click to the method
//! of that name, and closes the window once `confirm` has accepted.

use crate::presets::PresetCommand;
use crate::text::views;
use vstd::prelude::*;

verus! {

/// How long a notice of success stays on screen, in milliseconds.
pub const SUCCESS_MILLIS: u64 = 3000;

/// The state of the selection form.
pub struct ModeSelector {
    /// The names of the file type modes on offer.
    pub modes: Vec<String>,
    /// The name of the mode that was chosen.
    pub selected_mode: Option<String>,
    /// Whether the artifact goes to the clipboard.
    pub enable_clipboard_copy: bool,
    /// The free text to append to the artifact.
    pub additional_commands: String,
    /// The directory that was picked.
    pub selected_dir: Option<String>,
    /// The texts of the presets that were selected when the form was
    /// confirmed.
    pub preset_texts: Vec<String>,
    /// The name of the preset that is selected.
    pub selected_preset: Option<String>,
    /// The warning on display; empty where there is none.
    pub warning_message: String,
    /// The presets on offer, as they are being edited.
    pub presets: Vec<PresetCommand>,
    /// Whether subdirectories are walked.
    pub enable_recursive_search: bool,
    /// The folder names to leave out, one on each line.
    pub ignored_folders: String,
    /// Whether the preset manager is open.
    pub open_manage_presets: bool,
    /// The preset whose panel is unfolded in the manager.
    pub open_preset_index: Option<usize>,
    /// The notice of success on display.
    pub success_message: Option<String>,
}

/// The texts of those among the first `n` presets that bear `name`, in
/// order.
pub open spec fn texts_named(presets: Seq<PresetCommand>, n: nat, name: Seq<char>) -> Seq<
    Seq<char>,
>
    decreases n,
{
    if n == 0 || n > presets.len() {
        Seq::empty()
    } else if presets[n - 1].name@ == name {
        texts_named(presets, (n - 1) as nat, name).push(presets[n - 1].text@)
    } else {
        texts_named(presets, (n - 1) as nat, name)
    }
}

/// The texts that confirming the form collects: those of all presets that
/// bear the selected name.
pub open spec fn selected_texts(presets: Seq<PresetCommand>, selected: Option<String>) -> Seq<
    Seq<char>,
> {
    match selected {
        Some(name) => texts_named(presets, presets.len(), name@),
        None => Seq::empty(),
    }
}

/// Whether `i` is the first preset that bears `name`.
pub open spec fn first_named(presets: Seq<PresetCommand>, name: Seq<char>, i: int) -> bool {
    &&& 0 <= i < presets.len()
    &&& presets[i].name@ == name
    &&& forall|j: int| 0 <= j < i ==> presets[j].name@ != name
}

impl ModeSelector {
    /// A fresh form: nothing chosen, nothing entered, no message.
    pub fn new(modes: Vec<String>, presets: Vec<PresetCommand>, open_manage_presets: bool) -> (form:
        Self)
        ensures
            form.modes == modes,
            form.presets == presets,
            form.open_manage_presets == open_manage_presets,
            form.selected_mode is None,
            form.selected_dir is None,
            form.selected_preset is None,
            form.open_preset_index is None,
            form.success_message is None,
            !form.enable_clipboard_copy,
            !form.enable_recursive_search,
            form.additional_commands@.len() == 0,
            form.ignored_folders@.len() == 0,
            form.warning_message@.len() == 0,
            form.preset_texts@.len() == 0,
    {
        ModeSelector {
            modes,
            selected_mode: None,
            enable_clipboard_copy: false,
            additional_commands: String::new(),
            selected_dir: None,
            preset_texts: Vec::new(),
            selected_preset: None,
            warning_message: String::new(),
            presets,
            enable_recursive_search: false,
            ignored_folders: String::new(),
            open_manage_presets,
            open_preset_index: None,
            success_message: None,
        }
    }

    /// The directory dialog has closed. A picked directory becomes the
    /// selection and clears the warning; a cancelled dialog changes nothing.
    pub fn pick_directory(&mut self, picked: Option<String>)
        ensures
            picked is None ==> *final(self) == *old(self),
            picked is Some ==> *final(self) == (ModeSelector {
                selected_dir: picked,
                warning_message: final(self).warning_message,
                ..*old(self)
            }) && final(self).warning_message@.len() == 0,
    {
        if picked.is_some() {
            self.selected_dir = picked;
            self.warning_message = String::new();
        }
    }

    /// The button of the mode at `index` was clicked: that mode is chosen,
    /// and the warning is cleared.
    pub fn choose_mode(&mut self, index: usize)
        requires
            index < old(self).modes@.len(),
        ensures
            *final(self) == (ModeSelector {
                selected_mode: Some(old(self).modes@[index as int]),
                warning_message: final(self).warning_message,
                ..*old(self)
            }),
            final(self).warning_message@.len() == 0,
    {
        self.selected_mode = Some(self.modes[index].clone());
        self.warning_message = String::new();
    }

    /// The preset at `index` was picked from the list: its name becomes the
    /// one selected name.
    pub fn select_preset(&mut self, index: usize)
        requires
            index < old(self).presets@.len(),
        ensures
            *final(self) == (ModeSelector {
                selected_preset: Some(old(self).presets@[index as int].name),
                ..*old(self)
            }),
    {
        self.selected_preset = Some(self.presets[index].name.clone());
    }

    /// The name to show for the selected preset: `None` where there is none.
    pub fn selected_label(&self) -> (label: String)
        ensures
            label@ == (match self.selected_preset {
                Some(name) => name@,
                None => "None"@,
            }),
    {
        match &self.selected_preset {
            Some(name) => name.clone(),
            None => String::from_str("None"),
        }
    }

    /// The text to preview: that of the first preset that bears the selected
    /// name, if a name is selected and a preset bears it.
    pub fn preview(&self) -> (text: Option<String>)
        ensures
            match text {
                Some(t) => self.selected_preset is Some && exists|i: int|
                    first_named(self.presets@, self.selected_preset->0@, i) && t
                        == self.presets@[i].text,
                None => self.selected_preset is None || forall|i: int|
                    0 <= i < self.presets@.len() ==> self.presets@[i].name@
                        != self.selected_preset->0@,
            },
    {
        if let Some(name) = &self.selected_preset {
            let mut i: usize = 0;
            while i < self.presets.len()
                invariant
                    i <= self.presets.len(),
                    self.selected_preset is Some,
                    name@ == self.selected_preset->0@,
                    forall|j: int| 0 <= j < i ==> self.presets@[j].name@ != name@,
                decreases self.presets.len() - i,
            {
                if self.presets[i].name == *name {
                    let text = self.presets[i].text.clone();
                    assert(first_named(self.presets@, self.selected_preset->0@, i as int) && text
                        == self.presets@[i as int].text);
                    return Some(text);
                }
                i += 1;
            }
        }
        None
    }

    /// The OK button was clicked. Without a directory, or else without a
    /// mode, the form stays open and says what is missing. With both, the
    /// texts of all presets that bear the selected name are collected, in
    /// the order of the presets, and the form may close.
    pub fn confirm(&mut self) -> (accepted: bool)
        ensures
            accepted == (old(self).selected_dir is Some && old(self).selected_mode is Some),
            old(self).selected_dir is None ==> final(self).warning_message@
                == "⚠️ Please select a directory before proceeding!"@,
            old(self).selected_dir is Some && old(self).selected_mode is None ==> final(self).warning_message@ == "⚠️ Please select a file type before proceeding!"@,
            accepted ==> final(self).warning_message == old(self).warning_message,
            views(final(self).preset_texts@) == views(old(self).preset_texts@) + (if accepted {
                selected_texts(old(self).presets@, old(self).selected_preset)
            } else {
                Seq::empty()
            }),
            *final(self) == (ModeSelector {
                warning_message: final(self).warning_message,
                preset_texts: final(self).preset_texts,
                ..*old(self)
            }),
    {
        assert(views(self.preset_texts@) + Seq::<Seq<char>>::empty() =~= views(
            self.preset_texts@,
        ));
        if self.selected_dir.is_none() {
            self.warning_message = String::from_str(
                "⚠️ Please select a directory before proceeding!",
            );
            return false;
        }
        if self.selected_mode.is_none() {
            self.warning_message = String::from_str(
                "⚠️ Please select a file type before proceeding!",
            );
            return false;
        }
        if let Some(name) = &self.selected_preset {
            let mut i: usize = 0;
            while i < self.presets.len()
                invariant
                    i <= self.presets.len(),
                    self.presets == old(self).presets,
                    *self == (ModeSelector { preset_texts: self.preset_texts, ..*old(self) }),
                    views(self.preset_texts@) == views(old(self).preset_texts@) + texts_named(
                        self.presets@,
                        i as nat,
                        name@,
                    ),
                decreases self.presets.len() - i,
            {
                let ghost before = self.preset_texts@;
                if self.presets[i].name == *name {
                    self.preset_texts.push(self.presets[i].text.clone());
                    assert(views(self.preset_texts@) =~= views(before).push(
                        self.presets@[i as int].text@,
                    ));
                }
                assert(views(self.preset_texts@) =~= views(old(self).preset_texts@) + texts_named(
                    self.presets@,
                    (i + 1) as nat,
                    name@,
                ));
                i += 1;
            }
        }
        true
    }

    /// The header of the panel of preset `index` was clicked in the manager:
    /// an unfolded panel folds, any other unfolds in place of the one that
    /// was.
    pub fn toggle_preset(&mut self, index: usize)
        ensures
            *final(self) == (ModeSelector {
                open_preset_index: if old(self).open_preset_index == Some(index) {
                    None
                } else {
                    Some(index)
                },
                ..*old(self)
            }),
    {
        let unfolded = match self.open_preset_index {
            Some(open) => open == index,
            None => false,
        };
        if unfolded {
            self.open_preset_index = None;
        } else {
            self.open_preset_index = Some(index);
        }
    }

    /// The preset at `index` was deleted in the manager: it leaves the list,
    /// the others keep their order, and its panel, if unfolded, is
    /// forgotten.
    pub fn delete_preset(&mut self, index: usize)
        requires
            index < old(self).presets@.len(),
        ensures
            final(self).presets@ == old(self).presets@.remove(index as int),
            final(self).open_preset_index == (if old(self).open_preset_index == Some(index) {
                None
            } else {
                old(self).open_preset_index
            }),
            *final(self) == (ModeSelector {
                presets: final(self).presets,
                open_preset_index: final(self).open_preset_index,
                ..*old(self)
            }),
    {
        self.presets.remove(index);
        let unfolded = match self.open_preset_index {
            Some(open) => open == index,
            None => false,
        };
        if unfolded {
            self.open_preset_index = None;
        }
    }

    /// A preset was added in the manager: one named `New Preset`, without
    /// text, joins the end of the list.
    pub fn add_preset(&mut self)
        ensures
            final(self).presets@.len() == old(self).presets@.len() + 1,
            final(self).presets@.subrange(0, old(self).presets@.len() as int) == old(self).presets@,
            final(self).presets@.last().name@ == "New Preset"@,
            final(self).presets@.last().text@.len() == 0,
            *final(self) == (ModeSelector { presets: final(self).presets, ..*old(self) }),
    {
        self.presets.push(
            PresetCommand { name: String::from_str("New Preset"), text: String::new() },
        );
        assert(self.presets@.subrange(0, old(self).presets@.len() as int) =~= old(self).presets@);
    }

    /// The presets were saved from the manager: the notice of success goes
    /// on display.
    pub fn presets_saved(&mut self)
        ensures
            final(self).success_message is Some,
            final(self).success_message->0@ == "✅ Presets saved successfully."@,
            *final(self) == (ModeSelector {
                success_message: final(self).success_message,
                ..*old(self)
            }),
    {
        self.success_message = Some(String::from_str("✅ Presets saved successfully."));
    }

    /// Whether the notice of success is still to be shown, `elapsed_millis`
    /// after the save: it is for three seconds, and is dropped after that.
    pub fn success_visible(&mut self, elapsed_millis: u64) -> (visible: bool)
        ensures
            visible == (old(self).success_message is Some && elapsed_millis < SUCCESS_MILLIS),
            *final(self) == (ModeSelector {
                success_message: if elapsed_millis < SUCCESS_MILLIS {
                    old(self).success_message
                } else {
                    None
                },
                ..*old(self)
            }),
    {
        if elapsed_millis < SUCCESS_MILLIS {
            self.success_message.is_some()
        } else {
            self.success_message = None;
            false
        }
    }
}

} // verus!
