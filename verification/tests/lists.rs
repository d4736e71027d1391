use code_file_wrapper::config::{load, load_or_empty, text_to_write, ConfigError, Loaded, Stored};
use code_file_wrapper::filetypes::{
    default_filetypes, get_filetypes, save_filetypes, FileTypeGroup,
};
use code_file_wrapper::presets::{default_presets, get_presets, save_presets, PresetCommand};

fn group_pairs(groups: &[FileTypeGroup]) -> Vec<(String, Vec<String>)> {
    groups.iter().map(|g| (g.name.clone(), g.extensions.clone())).collect()
}

fn preset_pairs(presets: &[PresetCommand]) -> Vec<(String, String)> {
    presets.iter().map(|p| (p.name.clone(), p.text.clone())).collect()
}

#[test]
fn default_filetypes_are_rust_json_and_lua() {
    let expected = vec![
        ("Rust".to_string(), vec!["rs".to_string()]),
        ("JSON".to_string(), vec!["json".to_string()]),
        ("Lua".to_string(), vec!["lua".to_string()]),
    ];
    assert_eq!(group_pairs(&default_filetypes()), expected);
}

#[test]
fn missing_filetypes_file_gives_the_defaults_to_be_saved() {
    let Loaded { list, persist } = get_filetypes(Stored::Missing);
    assert!(persist);
    assert_eq!(group_pairs(&list), group_pairs(&default_filetypes()));
}

#[test]
fn corrupt_filetypes_file_gives_an_empty_list() {
    let Loaded { list, persist } = get_filetypes(Stored::Corrupt);
    assert!(!persist);
    assert!(list.is_empty());
}

#[test]
fn stored_filetypes_come_back_in_order() {
    let stored = vec![
        FileTypeGroup {
            name: "Web".to_string(),
            extensions: vec!["html".to_string(), "css".to_string(), "js".to_string()],
        },
        FileTypeGroup { name: "Empty".to_string(), extensions: vec![] },
        FileTypeGroup { name: "Web".to_string(), extensions: vec!["ts".to_string()] },
    ];
    let expected = group_pairs(&stored);
    let Loaded { list, persist } = get_filetypes(Stored::List(stored));
    assert!(!persist);
    assert_eq!(group_pairs(&list), expected);
}

#[test]
fn stored_empty_filetypes_list_stays_empty() {
    let Loaded { list, persist } = get_filetypes(Stored::List(Vec::new()));
    assert!(!persist);
    assert!(list.is_empty());
}

#[test]
fn default_presets_are_the_five_built_in() {
    let presets = default_presets();
    let names: Vec<&str> = presets.iter().map(|p| p.name.as_str()).collect();
    assert_eq!(
        names,
        vec!["Create Function Documentation", "Create Readme", "Button 3", "Button 4", "Button 5"]
    );
    assert_eq!(
        presets[0].text,
        "for each function, create very detailed documentation for that function, only respond with a single function and even still only respond with the documentation  and not the contents of the function itself. After providing the documentation, prompt for the next function.\n\nprovide information such as panics, parameters, all the interesting stuff about that function\n\nwrite the documentation as code blocks that appear above the function, similar to how other proper documentated rust functions are with code blocks\n\nprompt with the name of the function, do not respond with the code body of the function, only the documentation\nstart with the main function\n\nuse \"///\" for the function blocks"
    );
    assert_eq!(
        presets[1].text,
        "I want you to update the readme.md file. I want this readme to be the most fancy readme possible with as many fancy emojis, information, examples, and other interesting things.\nany sort of flowcharts, sequence diagrams, or other things that would look really good on a public facing github page are welcome\n"
    );
    assert_eq!(presets[2].text, "tbd");
    assert_eq!(presets[3].text, "tbd");
    assert_eq!(presets[4].text, "tbd");
}

#[test]
fn missing_presets_file_gives_the_defaults_to_be_saved() {
    let Loaded { list, persist } = get_presets(Stored::Missing);
    assert!(persist);
    assert_eq!(preset_pairs(&list), preset_pairs(&default_presets()));
}

#[test]
fn corrupt_presets_file_gives_an_empty_list() {
    let Loaded { list, persist } = get_presets(Stored::Corrupt);
    assert!(!persist);
    assert!(list.is_empty());
}

#[test]
fn stored_presets_come_back_in_order() {
    let stored = vec![
        PresetCommand { name: "B".to_string(), text: "second\nline".to_string() },
        PresetCommand { name: "A".to_string(), text: String::new() },
        PresetCommand { name: "B".to_string(), text: "again".to_string() },
    ];
    let expected = preset_pairs(&stored);
    let Loaded { list, persist } = get_presets(Stored::List(stored));
    assert!(!persist);
    assert_eq!(preset_pairs(&list), expected);
}

#[test]
fn defaults_replace_what_a_corrupt_file_gave() {
    let Loaded { list, .. } = get_presets(Stored::Corrupt);
    assert!(list.is_empty());
    let replaced = get_presets(Stored::List(default_presets()));
    assert_eq!(preset_pairs(&replaced.list), preset_pairs(&default_presets()));
}

#[test]
fn save_writes_the_serialized_list_or_nothing() {
    assert_eq!(text_to_write(Some("[\n  1\n]".to_string())), "[\n  1\n]");
    assert_eq!(text_to_write(Some(String::new())), "");
    assert_eq!(text_to_write(None), "");
}

#[test]
fn saving_the_lists_writes_their_serialization_in_full() {
    let groups = "[\n  {\n    \"name\": \"Rust\",\n    \"extensions\": [\n      \"rs\"\n    ]\n  }\n]";
    assert_eq!(save_filetypes(Some(groups.to_string())), groups);
    assert_eq!(save_filetypes(None), "");
    let presets = "[\n  {\n    \"name\": \"Doc\",\n    \"text\": \"document\"\n  }\n]";
    assert_eq!(save_presets(Some(presets.to_string())), presets);
    assert_eq!(save_presets(None), "");
}

#[test]
fn load_tells_a_corrupt_file_from_an_empty_list() {
    let corrupt = load(Stored::<u32>::Corrupt, vec![1, 2]);
    assert_eq!(corrupt.err(), Some(ConfigError::Corrupt));
    let empty = load(Stored::List(Vec::<u32>::new()), vec![1, 2]).ok().unwrap();
    assert!(empty.list.is_empty());
    assert!(!empty.persist);
    let missing = load(Stored::<u32>::Missing, vec![1, 2]).ok().unwrap();
    assert_eq!(missing.list, vec![1, 2]);
    assert!(missing.persist);
    let stored = load(Stored::List(vec![3, 1, 3]), vec![1, 2]).ok().unwrap();
    assert_eq!(stored.list, vec![3, 1, 3]);
    assert!(!stored.persist);
}

#[test]
fn load_or_empty_takes_a_corrupt_file_for_an_empty_list() {
    let Loaded { list, persist } = load_or_empty(Stored::<u32>::Corrupt, vec![1, 2]);
    assert!(list.is_empty());
    assert!(!persist);
    let Loaded { list, persist } = load_or_empty(Stored::<u32>::Missing, vec![1, 2]);
    assert_eq!(list, vec![1, 2]);
    assert!(persist);
    let Loaded { list, persist } = load_or_empty(Stored::List(vec![7]), vec![1, 2]);
    assert_eq!(list, vec![7]);
    assert!(!persist);
}
