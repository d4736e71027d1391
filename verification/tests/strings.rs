use code_file_wrapper::text::{
    contains_string, copy_strings, extension, fold_names, split_lines, trim,
};
use std::path::Path;

fn strings(items: &[&str]) -> Vec<String> {
    items.iter().map(|s| s.to_string()).collect()
}

#[test]
fn trim_removes_whitespace_at_both_ends() {
    assert_eq!(trim("  a b \n"), "a b");
    assert_eq!(trim("a"), "a");
    assert_eq!(trim("\t\r\n x"), "x");
    assert_eq!(trim("x \t\r\n"), "x");
    assert_eq!(trim(" inner  space  stays "), "inner  space  stays");
}

#[test]
fn trim_of_blank_text_is_empty() {
    assert_eq!(trim(""), "");
    assert_eq!(trim(" "), "");
    assert_eq!(trim(" \n\t \r\n"), "");
}

#[test]
fn trim_knows_the_whitespace_of_unicode() {
    assert_eq!(trim("\u{a0}x\u{2003}"), "x");
    assert_eq!(trim("\u{3000}é è\u{2028}"), "é è");
    assert_eq!(trim("\u{200b}x"), "\u{200b}x");
}

#[test]
fn trim_agrees_with_the_standard_library() {
    for s in ["", " ", "a", " a", "a ", " a ", "\n\na\tb\n\n", "  \u{a0} ", "é ", " 日本語 \r\n"] {
        assert_eq!(trim(s), s.trim());
    }
}

#[test]
fn lines_are_cut_at_line_feeds() {
    assert_eq!(split_lines("a\nb"), strings(&["a", "b"]));
    assert_eq!(split_lines("a\nb\n"), strings(&["a", "b"]));
    assert_eq!(split_lines("a\n\nb"), strings(&["a", "", "b"]));
    assert_eq!(split_lines("single"), strings(&["single"]));
    assert_eq!(split_lines("\n"), strings(&[""]));
    assert_eq!(split_lines("\n\n"), strings(&["", ""]));
    assert!(split_lines("").is_empty());
}

#[test]
fn lines_lose_a_carriage_return_before_the_line_feed() {
    assert_eq!(split_lines("a\r\nb\r\n"), strings(&["a", "b"]));
    assert_eq!(split_lines("\r\n"), strings(&[""]));
    assert_eq!(split_lines("a\r\r\n"), strings(&["a\r"]));
    assert_eq!(split_lines("a\rb\nc"), strings(&["a\rb", "c"]));
    assert_eq!(split_lines("a\r\nb\r"), strings(&["a", "b\r"]));
    assert_eq!(split_lines("\r"), strings(&["\r"]));
}

#[test]
fn lines_agree_with_the_standard_library() {
    for s in [
        "",
        "a",
        "a\n",
        "\na",
        "a\r\n\r\nb",
        "\r\n\r",
        "x\ny\r\nz\n\n",
        "é\r\n日本\n",
        "\n\r\n\r",
    ] {
        let expected: Vec<String> = s.lines().map(String::from).collect();
        assert_eq!(split_lines(s), expected);
    }
}

#[test]
fn extension_agrees_with_the_standard_library() {
    for name in [
        "main.rs",
        "README",
        ".gitignore",
        ".config.json",
        "archive.tar.gz",
        "trailing.",
        "a.b.",
        "..",
        "...",
        "..a",
        "a..b",
        "x.é",
        "no dot here",
    ] {
        let expected = Path::new(name).extension().and_then(|e| e.to_str()).map(String::from);
        assert_eq!(extension(name), expected);
    }
}

#[test]
fn names_are_folded_to_lowercase() {
    assert_eq!(
        fold_names(&strings(&["Target", ".GIT", "node_modules", "ÉCOLE", ""])),
        strings(&["target", ".git", "node_modules", "école", ""])
    );
    assert!(fold_names(&strings(&[])).is_empty());
}

#[test]
fn strings_are_found_and_copied_as_they_are() {
    let list = strings(&["rs", "Rs", ""]);
    assert!(contains_string(&list, &"rs".to_string()));
    assert!(contains_string(&list, &"Rs".to_string()));
    assert!(contains_string(&list, &String::new()));
    assert!(!contains_string(&list, &"RS".to_string()));
    assert!(!contains_string(&strings(&[]), &"rs".to_string()));
    assert_eq!(copy_strings(&list), list);
}
