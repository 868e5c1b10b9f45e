use sylva::paths::{
    file_name_of, join, new_path_for_rename, parent_of, path_in_or_at, path_within, split_components,
    unique_library_path,
};

#[test]
fn path_within_component_aware_case_insensitive() {
    assert!(path_within(r"C:\lib", r"C:\lib\a.txt"));
    assert!(path_within(r"C:\Lib", r"c:\lib\sub\b.txt"));
    // 组件边界：C:\lib 不匹配 C:\library\f.txt
    assert!(!path_within(r"C:\lib", r"C:\library\f.txt"));
    // 路径即根本身：不算「在内」（严格在内）
    assert!(!path_within(r"C:\lib", r"C:\lib"));
    // 父级不是子的前缀
    assert!(!path_within(r"C:\lib\a", r"C:\lib"));
}

#[test]
fn path_within_empty_root_is_never_within() {
    assert!(!path_within("", r"C:\x\y.txt"));
}

#[test]
fn containment_folds_case_beyond_ascii() {
    assert!(path_within(r"C:\ÄRGER", r"c:\ärger\x"));
    assert!(path_in_or_at(r"C:\Lib", r"c:\LIB\"));
    assert!(!path_in_or_at("", r"C:\x"));
    assert!(!path_in_or_at(r"C:\Lib\x", r"C:\Lib"));
}

#[test]
fn containment_is_transitive_and_asymmetric() {
    let (a, b, c) = (r"C:\a", r"C:/A/b", r"C:\a\B\c.txt");
    assert!(path_within(a, b) && path_within(b, c) && path_within(a, c));
    assert!(!path_within(b, a) && !path_within(c, c));
}

#[test]
fn components_of_prefixes_roots_and_dots() {
    assert_eq!(split_components(r"C:\a\.\b/c\\d\"), vec!["C:", "\\", "a", "b", "c", "d"]);
    assert_eq!(split_components(r"C:a"), vec!["C:", "a"]);
    assert_eq!(split_components(r".\a\."), vec![".", "a"]);
    assert_eq!(split_components(r"\.\a"), vec!["\\", "a"]);
    assert_eq!(split_components(r"\\server\share\x"), vec![r"\\server\share", "\\", "x"]);
    assert_eq!(split_components(r"..\x"), vec!["..", "x"]);
    assert!(split_components("").is_empty());
}

#[test]
fn names_and_parents() {
    assert_eq!(file_name_of(r"C:\a\b.txt"), Some("b.txt".into()));
    assert_eq!(file_name_of(r"C:\a\b.txt\.\"), Some("b.txt".into()));
    assert_eq!(file_name_of(r"C:\a\.."), None);
    assert_eq!(file_name_of(r"C:\"), None);
    assert_eq!(parent_of(r"C:\a\b.txt"), Some(r"C:\a".into()));
    assert_eq!(parent_of(r"C:\a"), Some(r"C:\".into()));
    assert_eq!(parent_of(r"C:\"), None);
    assert_eq!(parent_of("name"), Some("".into()));
}

#[test]
fn joining() {
    assert_eq!(join(r"C:\a", "b"), r"C:\a\b");
    assert_eq!(join(r"C:\a\", "b"), r"C:\a\b");
    assert_eq!(join("C:", "b"), "C:b");
    assert_eq!(join(r"C:\a", r"\b"), r"C:\b");
    assert_eq!(join(r"C:\a", r"D:\b"), r"D:\b");
    assert_eq!(join("", "b"), "b");
}

#[test]
fn renames_keep_shortcut_endings() {
    assert_eq!(new_path_for_rename(r"C:\d\App.lnk", "New"), Some(r"C:\d\New.lnk".into()));
    assert_eq!(new_path_for_rename(r"C:\d\App.LNK", "New.Lnk"), Some(r"C:\d\New.Lnk".into()));
    assert_eq!(new_path_for_rename(r"C:\d\site.url", "x"), Some(r"C:\d\x.url".into()));
    assert_eq!(new_path_for_rename(r"C:\d\a.appref-ms", "b"), Some(r"C:\d\b.appref-ms".into()));
    assert_eq!(new_path_for_rename(r"C:\d\.lnk", "b"), Some(r"C:\d\b".into()));
    assert_eq!(new_path_for_rename(r"C:\d\a.txt", "b.md"), Some(r"C:\d\b.md".into()));
    assert_eq!(new_path_for_rename(r"C:\d\a.txt", ""), None);
    assert_eq!(new_path_for_rename(r"C:\d\a.lnk", ""), Some(r"C:\d\.lnk".into()));
    assert_eq!(new_path_for_rename(r"C:\", "x"), None);
}

#[test]
fn unique_names_count_up() {
    let taken = |names: Vec<&'static str>| move |p: &str| names.iter().any(|n| *n == p);
    assert_eq!(unique_library_path(r"C:\lib", "a.txt", taken(vec![])), Some(r"C:\lib\a.txt".into()));
    assert_eq!(
        unique_library_path(r"C:\lib", "a.txt", taken(vec![r"C:\lib\a.txt", r"C:\lib\a (1).txt"])),
        Some(r"C:\lib\a (2).txt".into())
    );
    assert_eq!(unique_library_path(r"C:\lib", ".x", taken(vec![r"C:\lib\.x"])), Some(r"C:\lib\.x (1)".into()));
    assert_eq!(unique_library_path(r"C:\lib", "dir", taken(vec![r"C:\lib\dir"])), Some(r"C:\lib\dir (1)".into()));
    assert_eq!(
        unique_library_path(r"C:\lib", "a.txt", |p: &str| !p.ends_with("(1000).txt")),
        Some(r"C:\lib\a (1000).txt".into())
    );
}

#[test]
fn verbatim_prefixes() {
    assert_eq!(file_name_of(r"\\?\C:\a"), Some("a".into()));
    assert_eq!(file_name_of(r"\\?\UNC\server\share"), None);
    assert_eq!(file_name_of(r"\\?\UNC\server\share\x"), Some("x".into()));
    assert_eq!(split_components(r"\\?\C:\a\.\b"), vec![r"\\?\C:", "\\", "a", ".", "b"]);
    assert_eq!(join(r"\\?\C:\a", r"..\b"), r"\\?\C:\b");
}

#[test]
fn containment_ignores_case() {
    for (root, path) in [(r"C:\Lib", r"c:\lIB\A.txt"), (r"c:\lib", r"C:\LIB\a.TXT")] {
        assert!(path_within(root, path));
    }
    assert!(!path_within(r"C:\Lib", r"c:\lIBs\A.txt"));
}

#[test]
fn joined_name_is_the_name() {
    assert_eq!(file_name_of(&join(r"C:\lib", "a.txt")), Some("a.txt".into()));
    assert_eq!(parent_of(&join(r"C:\lib", "a.txt")), Some(r"C:\lib".into()));
}
