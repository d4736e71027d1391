use code_file_wrapper::cli::{builtin_extensions, exit_code, CliArgs, Launch, Outcome};
use code_file_wrapper::walker::{Entry, Folder};
use code_file_wrapper::filetypes::{default_filetypes, FileTypeGroup};
use code_file_wrapper::gui::ModeSelector;
use code_file_wrapper::presets::PresetCommand;
use code_file_wrapper::selection::{
    combine_additional, extensions_of_mode, parse_ignored_folders, SelectionRecord, Step,
};

const FOOTER: &str = "* The above is the current state of my project.\n* Each node above is an XML-wrapped code snippet using relative Windows-style file path tags.\n* Provide context above and below code changes to be explicit on where any change should occur.\n* Under text under [Additional Commands] should be read very carefully and followed absolutely\n";

fn record(user_text: &str, preset_texts: Vec<String>) -> SelectionRecord {
    SelectionRecord {
        directory: Some("proj".to_string()),
        extensions: Some(vec!["rs".to_string()]),
        recursive: true,
        ignored_folder_names: vec!["target".to_string()],
        user_text: user_text.to_string(),
        preset_texts,
        copy_to_clipboard: false,
    }
}

fn project() -> Folder {
    Folder {
        entries: vec![
            Entry::File { name: "a.rs".to_string(), content: Some("fn main(){}".to_string()) },
            Entry::Folder {
                name: "Target".to_string(),
                folder: Folder {
                    entries: vec![Entry::File {
                        name: "out.rs".to_string(),
                        content: Some("generated".to_string()),
                    }],
                    failure: None,
                },
            },
        ],
        failure: None,
    }
}

#[test]
fn ignored_folders_are_read_line_by_line() {
    assert_eq!(
        parse_ignored_folders(" Target \n\n.git\r\n\t\nNode_Modules"),
        vec!["target".to_string(), ".git".to_string(), "node_modules".to_string()]
    );
    assert_eq!(parse_ignored_folders("build\n"), vec!["build".to_string()]);
    assert_eq!(parse_ignored_folders("my folder"), vec!["my folder".to_string()]);
    assert!(parse_ignored_folders("").is_empty());
    assert!(parse_ignored_folders("  \n \r\n").is_empty());
}

#[test]
fn commands_are_trimmed_and_set_between_line_feeds() {
    let presets = vec!["  first preset ".to_string(), "second\nline\n".to_string()];
    assert_eq!(
        combine_additional(&presets, "\n  do it now  \n"),
        "\nfirst preset\n\nsecond\nline\n\ndo it now\n"
    );
}

#[test]
fn blank_free_text_adds_nothing() {
    let presets = vec!["only".to_string()];
    assert_eq!(combine_additional(&presets, "   \n\t"), "\nonly\n");
    assert_eq!(combine_additional(&presets, ""), "\nonly\n");
    assert_eq!(combine_additional(&[].to_vec(), " \n "), "");
    assert_eq!(combine_additional(&[].to_vec(), "x"), "\nx\n");
}

#[test]
fn blank_preset_still_gets_its_line_feeds() {
    let presets = vec![" ".to_string(), "b".to_string()];
    assert_eq!(combine_additional(&presets, ""), "\n\n\nb\n");
}

#[test]
fn extensions_come_from_the_first_group_of_that_name() {
    let groups = vec![
        FileTypeGroup { name: "Web".to_string(), extensions: vec!["html".to_string()] },
        FileTypeGroup {
            name: "Rust".to_string(),
            extensions: vec!["rs".to_string(), "toml".to_string()],
        },
        FileTypeGroup { name: "Rust".to_string(), extensions: vec!["ron".to_string()] },
    ];
    assert_eq!(
        extensions_of_mode(&groups, &"Rust".to_string()),
        Some(vec!["rs".to_string(), "toml".to_string()])
    );
    assert_eq!(extensions_of_mode(&groups, &"rust".to_string()), None);
    assert_eq!(extensions_of_mode(&[].to_vec(), &"Rust".to_string()), None);
}

#[test]
fn record_is_taken_from_the_form() {
    let groups = default_filetypes();
    let modes: Vec<String> = groups.iter().map(|g| g.name.clone()).collect();
    let presets = vec![PresetCommand { name: "Doc".to_string(), text: "document".to_string() }];
    let mut form = ModeSelector::new(modes, presets, false);
    form.pick_directory(Some("proj".to_string()));
    form.choose_mode(2);
    form.select_preset(0);
    form.enable_recursive_search = true;
    form.enable_clipboard_copy = true;
    form.ignored_folders = "Target\n .IDEA \n".to_string();
    form.additional_commands = " be brief ".to_string();
    assert!(form.confirm());
    let record = SelectionRecord::from_form(&form, &groups);
    assert_eq!(record.directory, Some("proj".to_string()));
    assert_eq!(record.extensions, Some(vec!["lua".to_string()]));
    assert!(record.recursive);
    assert!(record.copy_to_clipboard);
    assert_eq!(record.ignored_folder_names, vec!["target".to_string(), ".idea".to_string()]);
    assert_eq!(record.user_text, " be brief ");
    assert_eq!(record.preset_texts, vec!["document".to_string()]);
    assert_eq!(record.next_step(true), Step::Process);
}

#[test]
fn record_of_an_untouched_form_is_a_cancellation() {
    let groups = default_filetypes();
    let form = ModeSelector::new(vec!["Rust".to_string()], vec![], false);
    let record = SelectionRecord::from_form(&form, &groups);
    assert_eq!(record.directory, None);
    assert_eq!(record.extensions, None);
    assert_eq!(record.next_step(true), Step::Cancelled);
    assert_eq!(record.next_step(false), Step::Cancelled);
}

#[test]
fn next_step_looks_at_the_directory_first() {
    let mut r = record("", vec![]);
    assert_eq!(r.next_step(true), Step::Process);
    assert_eq!(r.next_step(false), Step::NotADirectory);
    r.extensions = None;
    assert_eq!(r.next_step(true), Step::Cancelled);
    assert_eq!(r.next_step(false), Step::NotADirectory);
    r.directory = None;
    assert_eq!(r.next_step(false), Step::Cancelled);
}

#[test]
fn artifact_ends_with_the_combined_commands() {
    let r = record(" explain ", vec!["document".to_string()]);
    let text = r.artifact(&project()).ok().unwrap();
    let expected = format!(
        "<a.rs>\nfn main(){{}}\n</a.rs>\n\n{}\n[Additional Commands]\n\ndocument\n\nexplain\n\n\n",
        FOOTER
    );
    assert_eq!(text, expected);
    assert_eq!(text.matches("\n[Additional Commands]\n").count(), 1);
}

#[test]
fn artifact_without_commands_ends_with_the_footer() {
    let r = record("  \n", vec![]);
    let text = r.artifact(&project()).ok().unwrap();
    assert_eq!(text, format!("<a.rs>\nfn main(){{}}\n</a.rs>\n\n{}", FOOTER));
    let r = record("", vec![" ".to_string(), "\n".to_string()]);
    let text = r.artifact(&project()).ok().unwrap();
    assert_eq!(text, format!("<a.rs>\nfn main(){{}}\n</a.rs>\n\n{}", FOOTER));
}

#[test]
fn artifact_of_a_failed_walk_is_an_error() {
    let r = record("explain", vec![]);
    let dir = Folder { entries: vec![], failure: Some("no such directory".to_string()) };
    let err = r.artifact(&dir).err().unwrap();
    assert_eq!(err.folder, "");
    assert_eq!(err.cause, "no such directory");
    assert_eq!(err.written, "");
}

#[test]
fn launch_depends_on_the_path_argument() {
    let none = CliArgs { path: None };
    assert_eq!(none.launch(false), Launch::Interactive);
    assert_eq!(none.launch(true), Launch::Interactive);
    let some = CliArgs { path: Some("proj".to_string()) };
    assert_eq!(some.launch(true), Launch::Direct);
    assert_eq!(some.launch(false), Launch::MissingTarget);
}

#[test]
fn missing_target_ends_with_a_failure_status() {
    let args = CliArgs { path: Some("does/not/exist".to_string()) };
    assert_eq!(args.launch(false), Launch::MissingTarget);
    assert_ne!(exit_code(Outcome::MissingTarget), 0);
}

#[test]
fn exit_codes_are_zero_or_one() {
    assert_eq!(exit_code(Outcome::Completed), 0);
    assert_eq!(exit_code(Outcome::Cancelled), 0);
    assert_eq!(exit_code(Outcome::MissingTarget), 1);
    assert_eq!(exit_code(Outcome::NotADirectory), 1);
    assert_eq!(exit_code(Outcome::ArtifactFailed), 1);
}

#[test]
fn builtin_extensions_are_those_of_the_default_groups() {
    let all: Vec<String> =
        default_filetypes().iter().flat_map(|g| g.extensions.clone()).collect();
    assert_eq!(builtin_extensions(), all);
    assert_eq!(builtin_extensions(), vec!["rs".to_string(), "json".to_string(), "lua".to_string()]);
}

#[test]
fn direct_record_walks_the_given_directory_flat() {
    let r = SelectionRecord::direct("proj".to_string());
    assert_eq!(r.directory, Some("proj".to_string()));
    assert_eq!(r.extensions, Some(builtin_extensions()));
    assert!(!r.recursive);
    assert!(r.ignored_folder_names.is_empty());
    assert!(r.user_text.is_empty());
    assert!(r.preset_texts.is_empty());
    assert!(!r.copy_to_clipboard);
    let text = r.artifact(&project()).ok().unwrap();
    assert_eq!(text, format!("<a.rs>\nfn main(){{}}\n</a.rs>\n\n{}", FOOTER));
}
