use heimdal_packages::order::{in_path_order, precedes};
use heimdal_packages::source::{Loaded, SourceFile};

fn file(path: &str, entity: u32) -> SourceFile<u32> {
    SourceFile {
        path: path.to_string(),
        file_name: path.rsplit('/').next().unwrap().to_string(),
        loaded: Loaded::Entity(entity),
    }
}

fn paths(files: &[SourceFile<u32>]) -> Vec<&str> {
    files.iter().map(|file| file.path.as_str()).collect()
}

#[test]
fn texts_are_ordered_by_their_bytes() {
    assert!(precedes("", ""));
    assert!(precedes("", "a"));
    assert!(!precedes("a", ""));
    assert!(precedes("a", "a"));
    assert!(precedes("a", "b"));
    assert!(!precedes("b", "a"));
    assert!(precedes("a", "ab"));
    assert!(!precedes("ab", "a"));
    assert!(precedes("ab", "b"));
    assert!(precedes("B", "a"));
    assert!(!precedes("a", "B"));
    assert!(precedes("packages/a.yaml", "packages/b.yaml"));
    assert!(precedes("z", "\u{e9}"));
    assert!(!precedes("\u{e9}", "z"));
    assert!(precedes("\u{e9}", "\u{4e2d}"));
    for (a, b) in [("git", "go"), ("x/y", "x.y"), ("", "0"), ("same", "same")] {
        assert_eq!(precedes(a, b), a <= b);
        assert_eq!(precedes(b, a), b <= a);
    }
}

#[test]
fn files_are_put_in_the_order_of_their_paths() {
    let sorted = in_path_order(vec![
        file("packages/vim.yaml", 1),
        file("packages/git.yaml", 2),
        file("packages/tools/zsh.yaml", 3),
        file("packages/curl.yaml", 4),
        file("packages/Atom.yaml", 5),
    ]);
    assert_eq!(
        paths(&sorted),
        vec![
            "packages/Atom.yaml",
            "packages/curl.yaml",
            "packages/git.yaml",
            "packages/tools/zsh.yaml",
            "packages/vim.yaml",
        ]
    );
    let entities: Vec<u32> = sorted
        .iter()
        .map(|file| match file.loaded {
            Loaded::Entity(entity) => entity,
            _ => 0,
        })
        .collect();
    assert_eq!(entities, vec![5, 4, 2, 3, 1]);
}

#[test]
fn ordering_loses_nothing_and_adds_nothing() {
    assert!(in_path_order::<u32>(vec![]).is_empty());
    assert_eq!(in_path_order(vec![file("a", 1)]), vec![file("a", 1)]);
    let sorted = in_path_order(vec![file("b", 1), file("a", 2), file("b", 3), file("a", 2)]);
    assert_eq!(paths(&sorted), vec!["a", "a", "b", "b"]);
    assert_eq!(sorted.iter().filter(|f| **f == file("a", 2)).count(), 2);
    assert_eq!(sorted.iter().filter(|f| **f == file("b", 1)).count(), 1);
    assert_eq!(sorted.iter().filter(|f| **f == file("b", 3)).count(), 1);
}

#[test]
fn files_in_order_stay_as_they_are() {
    let files = vec![file("a", 1), file("b", 2), file("c", 3)];
    assert_eq!(in_path_order(files.clone()), files);
    let reversed = vec![file("c", 3), file("b", 2), file("a", 1)];
    assert_eq!(in_path_order(reversed), files);
}
