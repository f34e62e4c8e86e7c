use prismarine::error::PackError;
use prismarine::mapper::{map_archive_path, map_entries, SelectedEntry};
use prismarine::pipeline::select_and_map;
use prismarine::selector::{build_matcher, is_excluded, select_entries};

fn entry(path: &str, is_dir: bool) -> SelectedEntry {
    SelectedEntry { path: path.to_string(), is_dir }
}

fn selected_paths(pattern_file: &str, entries: Vec<SelectedEntry>) -> Vec<String> {
    let matcher = build_matcher(pattern_file).unwrap();
    select_entries(&matcher, &entries).iter().map(|e| e.path.clone()).collect()
}

#[test]
fn matching_file_is_dropped_and_sibling_kept() {
    let picked = selected_paths(
        "*.tmp\n",
        vec![entry("a.txt", false), entry("b.tmp", false)],
    );
    assert_eq!(picked, vec!["a.txt".to_string()]);
}

#[test]
fn negated_pattern_re_includes_a_file() {
    let picked = selected_paths(
        "*.txt\n!keep.txt\n",
        vec![entry("drop.txt", false), entry("keep.txt", false), entry("other.md", false)],
    );
    assert_eq!(picked, vec!["keep.txt".to_string(), "other.md".to_string()]);
}

#[test]
fn comments_and_blank_lines_are_inert() {
    let picked = selected_paths(
        "# exclude archives\n\n*.zip\n",
        vec![entry("out.zip", false), entry("pack", true)],
    );
    assert_eq!(picked, vec!["pack".to_string()]);
}

#[test]
fn children_of_ignored_directory_are_dropped() {
    let picked = selected_paths(
        "/source\n",
        vec![
            entry("source", true),
            entry("source/raw.png", false),
            entry("pack", true),
            entry("pack/assets", true),
        ],
    );
    assert_eq!(picked, vec!["pack".to_string(), "pack/assets".to_string()]);
}

#[test]
fn whitelisting_a_directory_keeps_its_children() {
    let picked = selected_paths(
        "/source\n!source\n",
        vec![entry("source", true), entry("source/raw.png", false)],
    );
    assert_eq!(picked, vec!["source".to_string(), "source/raw.png".to_string()]);
}

#[test]
fn whitelisted_child_under_ignored_directory_stays_dropped() {
    // The walk never descends into an ignored directory, so a negated
    // pattern cannot rescue anything below it.
    let picked = selected_paths(
        "/source\n!source/keep.png\n",
        vec![entry("source", true), entry("source/keep.png", false), entry("pack", true)],
    );
    assert_eq!(picked, vec!["pack".to_string()]);
}

#[test]
fn trailing_slash_restricts_pattern_to_directories() {
    let matcher = build_matcher("build/\n").unwrap();
    assert!(is_excluded(&matcher, "build", true));
    assert!(!is_excluded(&matcher, "build", false));
}

#[test]
fn default_scaffold_patterns_exclude_the_usual_suspects() {
    let matcher = build_matcher(".git\n.gitignore\n/source\n*.env\n*.zip\n").unwrap();
    assert!(is_excluded(&matcher, ".git", true));
    assert!(is_excluded(&matcher, ".gitignore", false));
    assert!(is_excluded(&matcher, "source", true));
    assert!(is_excluded(&matcher, "source/thing.xcf", false));
    assert!(is_excluded(&matcher, "secrets.env", false));
    assert!(is_excluded(&matcher, "My Pack v1.0.0.zip", false));
    assert!(!is_excluded(&matcher, "pack/assets/minecraft/sounds.json", false));
    assert!(!is_excluded(&matcher, "prismarine.toml", false));
}

#[test]
fn leading_byte_order_mark_does_not_change_the_first_pattern() {
    let matcher = build_matcher("\u{feff}*.tmp\n").unwrap();
    assert!(is_excluded(&matcher, "a.tmp", false));
    assert!(!is_excluded(&matcher, "a.txt", false));
}

#[test]
fn unparsable_pattern_is_reported() {
    // An unclosed alternation group is not a usable glob.
    let err = build_matcher("a{b\n").unwrap_err();
    assert_eq!(err, PackError::InvalidIgnorePattern);
}

#[test]
fn reserved_directory_contents_move_to_archive_root() {
    assert_eq!(
        map_archive_path("pack/assets/minecraft/foo.json"),
        Some("assets/minecraft/foo.json".to_string())
    );
}

#[test]
fn reserved_directory_itself_is_dropped() {
    assert_eq!(map_archive_path("pack"), None);
}

#[test]
fn unreserved_paths_pass_through_unchanged() {
    assert_eq!(map_archive_path("README.md"), Some("README.md".to_string()));
    assert_eq!(map_archive_path("packer/x.json"), Some("packer/x.json".to_string()));
    assert_eq!(map_archive_path("docs/pack"), Some("docs/pack".to_string()));
}

#[test]
fn mapping_preserves_order_and_drops_only_the_reserved_root() {
    let entries = vec![
        entry("README.md", false),
        entry("pack", true),
        entry("pack/assets", true),
        entry("pack/assets/a.json", false),
    ];
    let mapped = map_entries(&entries);
    let names: Vec<String> = mapped.iter().map(|e| e.archive_path.clone()).collect();
    assert_eq!(
        names,
        vec!["README.md".to_string(), "assets".to_string(), "assets/a.json".to_string()]
    );
    assert_eq!(mapped[1].is_dir, true);
    assert_eq!(mapped[2].source_path.as_str(), "pack/assets/a.json");
}

#[test]
fn select_and_map_composes_selection_with_mapping() {
    let matcher = build_matcher("*.zip\n").unwrap();
    let entries = vec![
        entry("pack", true),
        entry("pack/a.json", false),
        entry("old.zip", false),
        entry("README.md", false),
    ];
    let mapped = select_and_map(&matcher, &entries);
    let names: Vec<String> = mapped.iter().map(|e| e.archive_path.clone()).collect();
    assert_eq!(names, vec!["a.json".to_string(), "README.md".to_string()]);
}
