use tails::path::{
    basename, dirname, extname, is_absolute, join, normalize, relative, relative_components,
    resolve_from, PathComponent,
};

fn strs(v: &[&str]) -> Vec<String> {
    v.iter().map(|s| s.to_string()).collect()
}

#[test]
fn join_pushes_each_part() {
    assert_eq!(join(&strs(&["a", "b", "c.txt"])), "a/b/c.txt");
    assert_eq!(join(&strs(&["/usr", "lib"])), "/usr/lib");
    assert_eq!(join(&strs(&["a", "/abs", "x"])), "/abs/x");
    assert_eq!(join(&strs(&[])), "");
}

#[test]
fn basename_cases() {
    assert_eq!(basename("/a/b/file.txt", None), "file.txt");
    assert_eq!(basename("/a/b/file.txt", Some(".txt")), "file");
    assert_eq!(basename("/a/b/file.txt", Some(".md")), "file.txt");
    assert_eq!(basename("/a/b/file.txt", Some("")), "file.txt");
    assert_eq!(basename("/", None), "");
    assert_eq!(basename("dir/..", None), "");
}

#[test]
fn dirname_cases() {
    assert_eq!(dirname("/a/b/c"), "/a/b");
    assert_eq!(dirname("file"), ".");
    assert_eq!(dirname("/"), ".");
    assert_eq!(dirname("/x"), "/");
}

#[test]
fn extname_cases() {
    assert_eq!(extname("a/b.tar.gz"), ".gz");
    assert_eq!(extname("noext"), "");
    assert_eq!(extname(".bashrc"), "");
}

#[test]
fn normalize_cases() {
    assert_eq!(normalize("/a/./b/../c"), "/a/c");
    assert_eq!(normalize("a/b/../../.."), ".");
    assert_eq!(normalize("./"), ".");
    assert_eq!(normalize("a//b/"), "a/b");
    assert_eq!(normalize("/.."), "/");
    assert_eq!(normalize(""), ".");
}

#[test]
fn is_absolute_cases() {
    assert!(is_absolute("/x"));
    assert!(!is_absolute("x/y"));
}

#[test]
fn resolve_from_cases() {
    assert_eq!(resolve_from("/home/u", &strs(&["a", "../b"])), "/home/u/b");
    assert_eq!(resolve_from("/home/u", &strs(&["a", "/etc", "x"])), "/etc/x");
    assert_eq!(resolve_from("/home/u", &strs(&[])), "/home/u");
}

#[test]
fn relative_components_cases() {
    let from = vec![
        PathComponent::RootDir,
        PathComponent::Normal("a".to_string()),
        PathComponent::Normal("b".to_string()),
    ];
    let to = vec![
        PathComponent::RootDir,
        PathComponent::Normal("a".to_string()),
        PathComponent::Normal("c".to_string()),
        PathComponent::Normal("d".to_string()),
    ];
    assert_eq!(relative_components(&from, &to, "/"), "../c/d");
    assert_eq!(relative_components(&from, &from, "/"), ".");
    assert_eq!(relative_components(&vec![], &to, "/"), "//a/c/d");
}

#[test]
fn relative_on_paths_that_do_not_exist() {
    assert_eq!(relative("/no/such/x/y", "/no/such/z"), "../../z");
    assert_eq!(relative("/no/such", "/no/such"), ".");
}
