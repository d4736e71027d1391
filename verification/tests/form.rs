use code_file_wrapper::gui::{ModeSelector, SUCCESS_MILLIS};
use code_file_wrapper::presets::PresetCommand;

fn preset(name: &str, text: &str) -> PresetCommand {
    PresetCommand { name: name.to_string(), text: text.to_string() }
}

fn form() -> ModeSelector {
    ModeSelector::new(
        vec!["Rust".to_string(), "JSON".to_string()],
        vec![preset("Doc", "document it"), preset("Readme", "write it"), preset("Doc", "again")],
        false,
    )
}

fn preset_names(form: &ModeSelector) -> Vec<String> {
    form.presets.iter().map(|p| p.name.clone()).collect()
}

#[test]
fn new_form_has_nothing_selected() {
    let f = form();
    assert_eq!(f.modes, vec!["Rust".to_string(), "JSON".to_string()]);
    assert_eq!(preset_names(&f), vec!["Doc", "Readme", "Doc"]);
    assert_eq!(f.selected_mode, None);
    assert_eq!(f.selected_dir, None);
    assert_eq!(f.selected_preset, None);
    assert_eq!(f.open_preset_index, None);
    assert_eq!(f.success_message, None);
    assert!(!f.enable_clipboard_copy);
    assert!(!f.enable_recursive_search);
    assert!(!f.open_manage_presets);
    assert!(f.additional_commands.is_empty());
    assert!(f.ignored_folders.is_empty());
    assert!(f.warning_message.is_empty());
    assert!(f.preset_texts.is_empty());
    assert!(ModeSelector::new(vec![], vec![], true).open_manage_presets);
}

#[test]
fn confirm_without_directory_warns() {
    let mut f = form();
    f.choose_mode(0);
    assert!(!f.confirm());
    assert_eq!(f.warning_message, "⚠️ Please select a directory before proceeding!");
    assert!(f.preset_texts.is_empty());
}

#[test]
fn confirm_without_mode_warns() {
    let mut f = form();
    f.pick_directory(Some("/tmp/proj".to_string()));
    assert!(!f.confirm());
    assert_eq!(f.warning_message, "⚠️ Please select a file type before proceeding!");
    assert!(f.preset_texts.is_empty());
}

#[test]
fn picking_and_choosing_clear_the_warning() {
    let mut f = form();
    assert!(!f.confirm());
    assert!(!f.warning_message.is_empty());
    f.pick_directory(None);
    assert!(!f.warning_message.is_empty());
    assert_eq!(f.selected_dir, None);
    f.pick_directory(Some("/tmp/proj".to_string()));
    assert!(f.warning_message.is_empty());
    assert_eq!(f.selected_dir, Some("/tmp/proj".to_string()));
    assert!(!f.confirm());
    assert!(!f.warning_message.is_empty());
    f.choose_mode(1);
    assert!(f.warning_message.is_empty());
    assert_eq!(f.selected_mode, Some("JSON".to_string()));
}

#[test]
fn confirm_collects_the_texts_of_the_selected_name() {
    let mut f = form();
    f.pick_directory(Some("/tmp/proj".to_string()));
    f.choose_mode(0);
    f.select_preset(0);
    assert_eq!(f.selected_preset, Some("Doc".to_string()));
    assert!(f.confirm());
    assert_eq!(f.preset_texts, vec!["document it".to_string(), "again".to_string()]);
    assert!(f.warning_message.is_empty());
}

#[test]
fn confirm_without_preset_collects_nothing() {
    let mut f = form();
    f.pick_directory(Some("/tmp/proj".to_string()));
    f.choose_mode(0);
    assert!(f.confirm());
    assert!(f.preset_texts.is_empty());
}

#[test]
fn selecting_a_preset_replaces_the_selection() {
    let mut f = form();
    assert_eq!(f.selected_label(), "None");
    assert_eq!(f.preview(), None);
    f.select_preset(2);
    assert_eq!(f.selected_label(), "Doc");
    assert_eq!(f.preview(), Some("document it".to_string()));
    f.select_preset(1);
    assert_eq!(f.selected_label(), "Readme");
    assert_eq!(f.preview(), Some("write it".to_string()));
    f.delete_preset(1);
    assert_eq!(f.selected_label(), "Readme");
    assert_eq!(f.preview(), None);
}

#[test]
fn toggling_a_panel_folds_and_unfolds() {
    let mut f = form();
    f.toggle_preset(1);
    assert_eq!(f.open_preset_index, Some(1));
    f.toggle_preset(2);
    assert_eq!(f.open_preset_index, Some(2));
    f.toggle_preset(2);
    assert_eq!(f.open_preset_index, None);
}

#[test]
fn deleting_a_preset_keeps_the_order_of_the_rest() {
    let mut f = form();
    f.toggle_preset(0);
    f.delete_preset(1);
    assert_eq!(preset_names(&f), vec!["Doc", "Doc"]);
    assert_eq!(f.presets[1].text, "again");
    assert_eq!(f.open_preset_index, Some(0));
    f.delete_preset(0);
    assert_eq!(preset_names(&f), vec!["Doc"]);
    assert_eq!(f.presets[0].text, "again");
    assert_eq!(f.open_preset_index, None);
}

#[test]
fn adding_a_preset_appends_an_empty_one() {
    let mut f = form();
    f.add_preset();
    assert_eq!(preset_names(&f), vec!["Doc", "Readme", "Doc", "New Preset"]);
    assert_eq!(f.presets[3].text, "");
}

#[test]
fn success_notice_lasts_three_seconds() {
    let mut f = form();
    assert_eq!(SUCCESS_MILLIS, 3000);
    assert!(!f.success_visible(0));
    f.presets_saved();
    assert_eq!(f.success_message, Some("✅ Presets saved successfully.".to_string()));
    assert!(f.success_visible(0));
    assert!(f.success_visible(2999));
    assert!(f.success_message.is_some());
    assert!(!f.success_visible(3000));
    assert_eq!(f.success_message, None);
    assert!(!f.success_visible(10));
}
