use cb_patcher::paths::{
    archive_root, candidate_path, file_name_of, has_hidden_root, is_clean_path, is_noise_name,
    normalize_separators, strip_root,
};
use cb_patcher::text::{chars_of, joined, same_text, starts_with, string_of};

#[test]
fn backslashes_become_forward_slashes() {
    assert_eq!(normalize_separators("resources\\gfx\\a.png"), "resources/gfx/a.png");
    assert_eq!(normalize_separators("a/b\\c"), "a/b/c");
    assert_eq!(normalize_separators(""), "");
    assert_eq!(normalize_separators("main.lua"), "main.lua");
}

#[test]
fn hidden_is_a_leading_dot_of_the_first_segment() {
    assert!(has_hidden_root(".git/config"));
    assert!(has_hidden_root(".gitignore"));
    assert!(has_hidden_root("../outside"));
    assert!(!has_hidden_root("scripts/.hidden"));
    assert!(!has_hidden_root("main.lua"));
    assert!(!has_hidden_root(""));
}

#[test]
fn file_name_is_the_last_segment() {
    assert_eq!(file_name_of("a/b/c.lua"), "c.lua");
    assert_eq!(file_name_of("c.lua"), "c.lua");
    assert_eq!(file_name_of("a/b/"), "");
    assert_eq!(file_name_of(""), "");
    assert_eq!(file_name_of("gfx/.DS_Store"), ".DS_Store");
}

#[test]
fn noise_markers_are_the_two_known_names() {
    assert!(is_noise_name(".DS_Store"));
    assert!(is_noise_name("Thumbs.db"));
    assert!(!is_noise_name("thumbs.db"));
    assert!(!is_noise_name(".DS_Store2"));
    assert!(!is_noise_name(""));
    assert!(!is_noise_name("main.lua"));
}

#[test]
fn archive_root_ends_at_the_first_separator() {
    assert_eq!(
        archive_root("owner-repo-abcdef1/scripts/a.lua"),
        Some("owner-repo-abcdef1/".to_string())
    );
    assert_eq!(archive_root("owner-repo-abcdef1/"), Some("owner-repo-abcdef1/".to_string()));
    assert_eq!(archive_root("/x"), Some("/".to_string()));
    assert_eq!(archive_root("no-separator"), None);
    assert_eq!(archive_root(""), None);
}

#[test]
fn strip_root_takes_the_prefix_off() {
    assert_eq!(strip_root("root/a.lua", "root/"), Some("a.lua".to_string()));
    assert_eq!(strip_root("root/", "root/"), Some(String::new()));
    assert_eq!(strip_root("other/a.lua", "root/"), None);
    assert_eq!(strip_root("ro", "root/"), None);
}

#[test]
fn text_helpers_round_trip() {
    let chars = chars_of("héllo/wörld");
    assert_eq!(chars.len(), 11);
    assert_eq!(string_of(&chars), "héllo/wörld");
    assert_eq!(string_of(&['a', 'b']), "ab");
    assert!(same_text("abc", "abc"));
    assert!(!same_text("abc", "abd"));
    assert!(!same_text("abc", "ab"));
    assert!(starts_with(&chars_of("conch_blessing_123"), &chars_of("conch_blessing")));
    assert!(!starts_with(&chars_of("conch"), &chars_of("conch_blessing")));
    assert_eq!(joined("New: ", "a.lua"), "New: a.lua");
}

#[test]
fn candidate_is_the_normalised_name_unless_empty_or_hidden() {
    assert_eq!(candidate_path("gfx\\a.png"), Some("gfx/a.png".to_string()));
    assert_eq!(candidate_path("main.lua"), Some("main.lua".to_string()));
    assert_eq!(candidate_path("a/../b"), Some("a/../b".to_string()));
    assert_eq!(candidate_path("\\a"), Some("/a".to_string()));
    assert_eq!(candidate_path(""), None);
    assert_eq!(candidate_path(".git/config"), None);
    assert_eq!(candidate_path("../x"), None);
}

#[test]
fn clean_paths_have_named_segments_and_do_not_climb() {
    assert!(is_clean_path("a/b.lua"));
    assert!(is_clean_path(".hidden/x"));
    assert!(is_clean_path("a/..b"));
    assert!(!is_clean_path(""));
    assert!(!is_clean_path("/a"));
    assert!(!is_clean_path("a/"));
    assert!(!is_clean_path("a//b"));
    assert!(!is_clean_path("a/../b"));
    assert!(!is_clean_path(".."));
    assert!(!is_clean_path("a/.."));
    assert!(!is_clean_path("a/../../x"));
    assert!(!is_clean_path("a\\..\\x"));
    assert!(is_clean_path("a/b../c"));
    assert!(is_clean_path("a/.../c"));
    assert!(is_clean_path("a."));
}
