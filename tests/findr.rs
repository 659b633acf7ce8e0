use findr::{
    classify, join_lines, parse_entry_type, Config, ConfigError, EntryType, TraversalEntry,
    WalkItem,
};

fn strings(v: &[&str]) -> Vec<String> {
    v.iter().map(|s| s.to_string()).collect()
}

fn entry(path: &str, name: &str, is_symlink: bool, is_dir: bool, is_file: bool) -> TraversalEntry {
    TraversalEntry {
        path: path.to_string(),
        name: name.to_string(),
        is_symlink,
        is_dir,
        is_file,
    }
}

fn dir(path: &str, name: &str) -> WalkItem {
    Ok(entry(path, name, false, true, false))
}

fn file(path: &str, name: &str) -> WalkItem {
    Ok(entry(path, name, false, false, true))
}

fn link(path: &str, name: &str) -> WalkItem {
    Ok(entry(path, name, true, false, false))
}

/// root/{sub/, sub/file.txt, link -> sub}, in walk order.
fn sample_tree() -> Vec<WalkItem> {
    vec![
        dir("root", "root"),
        dir("root/sub", "sub"),
        file("root/sub/file.txt", "file.txt"),
        link("root/link", "link"),
    ]
}

fn config(names: &[&str], types: &[&str]) -> Config {
    Config::new(strings(&["root"]), strings(names), strings(types)).unwrap()
}

fn matches(c: &Config, items: &Vec<WalkItem>) -> Vec<String> {
    c.select(items).matches
}

#[test]
fn classify_link_to_directory_is_link() {
    assert_eq!(classify(&entry("l", "l", true, true, false)), Some(EntryType::Link));
}

#[test]
fn classify_broken_link_is_link() {
    assert_eq!(classify(&entry("l", "l", true, false, false)), Some(EntryType::Link));
}

#[test]
fn classify_dir_file_and_other() {
    assert_eq!(classify(&entry("d", "d", false, true, false)), Some(EntryType::Dir));
    assert_eq!(classify(&entry("f", "f", false, false, true)), Some(EntryType::File));
    assert_eq!(classify(&entry("p", "p", false, false, false)), None);
}

#[test]
fn parse_type_values() {
    assert_eq!(parse_entry_type(&"d".to_string()), Some(EntryType::Dir));
    assert_eq!(parse_entry_type(&"f".to_string()), Some(EntryType::File));
    assert_eq!(parse_entry_type(&"l".to_string()), Some(EntryType::Link));
    assert_eq!(parse_entry_type(&"x".to_string()), None);
    assert_eq!(parse_entry_type(&"dd".to_string()), None);
    assert_eq!(parse_entry_type(&"".to_string()), None);
}

#[test]
fn config_defaults_to_current_directory() {
    let c = Config::new(vec![], vec![], vec![]).unwrap();
    assert_eq!(c.paths(), &strings(&["."]));
    assert!(c.names().is_empty());
    assert!(c.entry_types().is_empty());
}

#[test]
fn config_keeps_roots_patterns_and_types_in_order() {
    let c = Config::new(strings(&["a", "b"]), strings(&["x", "y+"]), strings(&["l", "d"])).unwrap();
    assert_eq!(c.paths(), &strings(&["a", "b"]));
    let sources: Vec<&str> = c.names().iter().map(|p| p.source()).collect();
    assert_eq!(sources, vec!["x", "y+"]);
    assert_eq!(c.entry_types(), &vec![EntryType::Link, EntryType::Dir]);
}

#[test]
fn config_rejects_invalid_type() {
    let r = Config::new(strings(&["root"]), vec![], strings(&["f", "x"]));
    let err = r.unwrap_err();
    assert_eq!(err, ConfigError::InvalidType("x".to_string()));
    assert_eq!(err.message(), "Invalid --type \"x\"");
}

#[test]
fn config_rejects_unbalanced_regex() {
    let r = Config::new(strings(&["root"]), strings(&["ok", "("]), vec![]);
    let err = r.unwrap_err();
    assert_eq!(err, ConfigError::InvalidName("(".to_string()));
    assert_eq!(err.message(), "Invalid --name \"(\"");
}

#[test]
fn config_checks_types_before_names() {
    let r = Config::new(vec![], strings(&["("]), strings(&["x"]));
    assert_eq!(r.unwrap_err(), ConfigError::InvalidType("x".to_string()));
}

#[test]
fn scenario_type_file() {
    assert_eq!(matches(&config(&[], &["f"]), &sample_tree()), strings(&["root/sub/file.txt"]));
}

#[test]
fn scenario_type_dir_excludes_link() {
    assert_eq!(matches(&config(&[], &["d"]), &sample_tree()), strings(&["root", "root/sub"]));
}

#[test]
fn scenario_type_link() {
    assert_eq!(matches(&config(&[], &["l"]), &sample_tree()), strings(&["root/link"]));
}

#[test]
fn scenario_name_file() {
    assert_eq!(matches(&config(&["file"], &[]), &sample_tree()), strings(&["root/sub/file.txt"]));
}

#[test]
fn several_types_are_any_of() {
    assert_eq!(
        matches(&config(&[], &["d", "l"]), &sample_tree()),
        strings(&["root", "root/sub", "root/link"])
    );
}

#[test]
fn other_kinds_pass_only_without_type_filter() {
    let items = vec![Ok(entry("root/fifo", "fifo", false, false, false))];
    assert_eq!(matches(&config(&[], &[]), &items), strings(&["root/fifo"]));
    assert!(matches(&config(&[], &["f", "d", "l"]), &items).is_empty());
}

#[test]
fn name_match_is_substring() {
    let items = vec![file("m/module.txt", "module.txt"), file("m/other.txt", "other.txt")];
    assert_eq!(matches(&config(&["mod"], &[]), &items), strings(&["m/module.txt"]));
}

#[test]
fn several_names_are_any_of() {
    let items = vec![file("a.rs", "a.rs"), file("b.md", "b.md"), file("c.txt", "c.txt")];
    assert_eq!(matches(&config(&["rs$", "md$"], &[]), &items), strings(&["a.rs", "b.md"]));
}

#[test]
fn name_matches_base_name_only() {
    let items = vec![file("src/lib.rs", "lib.rs")];
    assert!(matches(&config(&["src"], &[]), &items).is_empty());
}

#[test]
fn type_and_name_filters_both_apply() {
    let items = vec![dir("root/sub", "sub"), file("root/sub.txt", "sub.txt")];
    assert_eq!(matches(&config(&["sub"], &["f"]), &items), strings(&["root/sub.txt"]));
}

#[test]
fn no_filters_keep_every_entry() {
    assert_eq!(
        matches(&config(&[], &[]), &sample_tree()),
        strings(&["root", "root/sub", "root/sub/file.txt", "root/link"])
    );
}

#[test]
fn same_walk_gives_same_output() {
    let c = config(&["i"], &[]);
    let first = c.select(&sample_tree());
    let second = c.select(&sample_tree());
    assert_eq!(first.matches, second.matches);
    assert_eq!(first.block(), second.block());
    assert_eq!(first.errors, second.errors);
}

#[test]
fn roots_give_separate_blocks_in_order() {
    let c = Config::new(strings(&["a", "b"]), vec![], strings(&["f"])).unwrap();
    let walks = vec![
        vec![dir("a", "a"), file("a/x", "x")],
        vec![dir("b", "b"), file("b/y", "y"), file("b/z", "z")],
    ];
    let reports = c.reports(&walks);
    assert_eq!(reports.len(), 2);
    assert_eq!(reports[0].block(), "a/x");
    assert_eq!(reports[1].block(), "b/y\nb/z");
}

#[test]
fn root_without_matches_prints_empty_block() {
    let c = config(&["nothing"], &[]);
    let report = c.select(&sample_tree());
    assert!(report.matches.is_empty());
    assert_eq!(report.block(), "");
}

#[test]
fn permission_denied_subtree_is_reported_and_skipped() {
    let items = vec![
        dir("root", "root"),
        Err("IO error for operation on root/secret: Permission denied".to_string()),
        dir("root/open", "open"),
        file("root/open/a.txt", "a.txt"),
    ];
    let report = config(&[], &[]).select(&items);
    assert_eq!(report.matches, strings(&["root", "root/open", "root/open/a.txt"]));
    assert_eq!(
        report.errors,
        strings(&["IO error for operation on root/secret: Permission denied"])
    );
}

#[test]
fn join_lines_cases() {
    assert_eq!(join_lines(&vec![]), "");
    assert_eq!(join_lines(&strings(&["a"])), "a");
    assert_eq!(join_lines(&strings(&["a", "b", "c"])), "a\nb\nc");
}
