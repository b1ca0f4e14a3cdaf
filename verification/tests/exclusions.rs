use strata::exclusions::SearchExclusions;
use strata::paths::{join, path_starts_with};
use strata::text::{eq_ignore_ascii_case, trim_entry};

fn strings(items: &[&str]) -> Vec<String> {
    items.iter().map(|item| item.to_string()).collect()
}

#[test]
fn search_exclusions_persist_and_update_behavior() {
    let saved = vec![".venv".to_owned(), "~/Secret".to_owned()];
    let exclusions = SearchExclusions::from_strings(&saved, "/home/user");
    assert_eq!(exclusions.folder_names, vec![".venv".to_owned()]);
    assert_eq!(exclusions.directories, vec!["/home/user/Secret".to_owned()]);

    // Removing an entry matches it ignoring ASCII case, as the exclusions dialog does.
    let mut current = saved.clone();
    current.retain(|item| !eq_ignore_ascii_case(item, ".VENV"));
    assert_eq!(current, vec!["~/Secret".to_owned()]);
    let updated = SearchExclusions::from_strings(&current, "/home/user");
    assert!(updated.folder_names.is_empty());
    assert_eq!(updated.directories, vec!["/home/user/Secret".to_owned()]);
}

#[test]
fn entries_are_classified_as_folder_names_or_directories() {
    let raw = strings(&[
        "node_modules",
        "  .cache  ",
        "/var/log/",
        "build/output",
        r"C:\temp",
        "~",
        "~/Downloads//",
        "",
        "   ",
        "//",
    ]);
    let exclusions = SearchExclusions::from_strings(&raw, "/home/user");
    assert_eq!(exclusions.folder_names, strings(&["node_modules", ".cache"]));
    assert_eq!(
        exclusions.directories,
        strings(&["/var/log", "build/output", r"C:\temp", "/home/user", "/home/user/Downloads"])
    );
}

#[test]
fn home_relative_entries_join_onto_the_home_directory() {
    let raw = strings(&["~/a", "~//abs", "~x"]);
    let exclusions = SearchExclusions::from_strings(&raw, "/home/user/");
    assert_eq!(
        exclusions.directories,
        strings(&["/home/user/a", "/abs", "~x"])
    );
    assert!(exclusions.folder_names.is_empty());
}

#[test]
fn folder_names_exclude_directories_in_any_ascii_case_but_not_files() {
    let exclusions = SearchExclusions::from_strings(&strings(&[".venv"]), "/home/user");
    assert!(exclusions.is_excluded("/project/.VENV", ".VENV", true));
    assert!(exclusions.is_excluded("/project/.venv", ".venv", true));
    assert!(!exclusions.is_excluded("/project/.venv", ".venv", false));
    assert!(!exclusions.is_excluded("/project/venv", "venv", true));
}

#[test]
fn directories_exclude_their_whole_subtree_by_components() {
    let exclusions = SearchExclusions::from_strings(&strings(&["~/Secret"]), "/home/user");
    assert!(exclusions.is_excluded("/home/user/Secret", "Secret", true));
    assert!(exclusions.is_excluded("/home/user/Secret/", "Secret", true));
    assert!(exclusions.is_excluded("/home/user/Secret/notes.txt", "notes.txt", false));
    assert!(exclusions.is_excluded("/home/user/Secret/a/b", "b", true));
    assert!(!exclusions.is_excluded("/home/user/Secretive", "Secretive", true));
    assert!(!exclusions.is_excluded("/home/user/Secretive/x.txt", "x.txt", false));
    assert!(!exclusions.is_excluded("/home/user", "user", true));
}

#[test]
fn empty_exclusions_exclude_nothing() {
    let exclusions = SearchExclusions::default();
    assert!(!exclusions.is_excluded("/", "", true));
    assert!(!exclusions.is_excluded("/tmp/file", "file", false));
}

#[test]
fn excluded_location_excludes_directory_whatever_its_name() {
    let exclusions = SearchExclusions::from_strings(&strings(&["/data"]), "/home/user");
    assert!(exclusions.is_excluded("/data/x", "x", false));
    assert!(exclusions.is_excluded("/data/x", "anything", true));
}

#[test]
fn path_prefix_compares_whole_components() {
    assert!(path_starts_with("/a/b/c", "/a/b"));
    assert!(path_starts_with("/a//b/./c/", "/a/b/"));
    assert!(!path_starts_with("/a/bc", "/a/b"));
    assert!(!path_starts_with("a/b", "/a"));
    assert!(path_starts_with("./a", "."));
    assert!(!path_starts_with("a", "."));
    assert!(path_starts_with("gphoto2://camera/202401_a", "gphoto2://camera/"));
    assert!(!path_starts_with("gphoto2://other/202401_a", "gphoto2://camera/"));
}

#[test]
fn join_puts_one_separator_between_parts() {
    let rest: Vec<char> = "docs".chars().collect();
    assert_eq!(join("/home/user", &rest), "/home/user/docs");
    assert_eq!(join("/home/user/", &rest), "/home/user/docs");
    assert_eq!(join("", &rest), "docs");
    let absolute: Vec<char> = "/etc".chars().collect();
    assert_eq!(join("/home/user", &absolute), "/etc");
}

#[test]
fn entry_text_trims_white_space_then_trailing_separators() {
    let chars: Vec<char> = "\u{3000} a/b\\/ \t".chars().collect();
    let trimmed: String = trim_entry(&chars).into_iter().collect();
    assert_eq!(trimmed, "a/b");
    let blank: Vec<char> = " \n".chars().collect();
    assert!(trim_entry(&blank).is_empty());
}

#[test]
fn ascii_case_matching_leaves_other_characters_exact() {
    assert!(eq_ignore_ascii_case("Ärger.TXT", "Ärger.txt"));
    assert!(!eq_ignore_ascii_case("ärger", "Ärger"));
    assert!(!eq_ignore_ascii_case("abc", "abcd"));
}

#[test]
fn white_space_matches_the_standard_library_on_every_character() {
    for code in 0..=0x10FFFFu32 {
        if let Some(c) = char::from_u32(code) {
            assert_eq!(strata::text::char_is_whitespace(c), c.is_whitespace(), "U+{code:04X}");
        }
    }
}
