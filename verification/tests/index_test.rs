use heimdal_packages::grouping::{build_category_index, build_index, build_tag_index, Grouping};
use heimdal_packages::index::{
    build_name_index, IndexBucket, NameEntry, NameIndex, PositionIndex,
};
use heimdal_packages::model::{Dependencies, Package, Platforms};

fn text(s: &str) -> String {
    s.to_string()
}

fn package(name: &str, category: &str, tags: &[&str]) -> Package {
    Package {
        name: text(name),
        description: text(""),
        category: text(category),
        popularity: 10,
        platforms: Platforms { apt: None, brew: None, dnf: None, pacman: None, mas: None },
        dependencies: Dependencies { required: vec![], optional: vec![] },
        alternatives: vec![],
        related: vec![],
        tags: tags.iter().map(|tag| text(tag)).collect(),
        website: None,
        license: None,
        source: None,
    }
}

fn collection() -> Vec<Package> {
    vec![
        package("git", "vcs", &["cli", "vcs"]),
        package("vim", "editor", &["cli", "editor"]),
        package("hg", "vcs", &["vcs"]),
        package("emacs", "editor", &[]),
        package("curl", "network", &["cli"]),
    ]
}

fn bucket(key: &str, positions: &[usize]) -> IndexBucket {
    IndexBucket { key: text(key), positions: positions.to_vec() }
}

#[test]
fn the_name_index_maps_each_name_to_its_position() {
    let packages = collection();
    let index = build_name_index(&packages);
    assert_eq!(index.entries.len(), packages.len());
    for (position, package) in packages.iter().enumerate() {
        assert_eq!(index.entries[position], NameEntry { name: package.name.clone(), position });
        assert_eq!(index.get(&package.name), Some(position));
    }
    assert_eq!(index.get("nano"), None);
    assert_eq!(index.get(""), None);
}

#[test]
fn the_last_package_of_a_repeated_name_counts() {
    let packages = vec![
        package("a", "x", &[]),
        package("b", "x", &[]),
        package("a", "y", &[]),
    ];
    let index = build_name_index(&packages);
    assert_eq!(index.get("a"), Some(2));
    assert_eq!(index.get("b"), Some(1));
}

#[test]
fn the_category_index_lists_positions_in_collection_order() {
    let index = build_category_index(&collection());
    assert_eq!(
        index.buckets,
        vec![bucket("vcs", &[0, 2]), bucket("editor", &[1, 3]), bucket("network", &[4])]
    );
    assert_eq!(index.get("vcs"), Some(&vec![0, 2]));
    assert_eq!(index.get("editor"), Some(&vec![1, 3]));
    assert_eq!(index.get("network"), Some(&vec![4]));
    assert_eq!(index.get("shell"), None);
}

#[test]
fn a_package_with_n_tags_is_in_n_buckets() {
    let index = build_tag_index(&collection());
    assert_eq!(
        index.buckets,
        vec![bucket("cli", &[0, 1, 4]), bucket("vcs", &[0, 2]), bucket("editor", &[1])]
    );
    assert_eq!(index.get("cli"), Some(&vec![0, 1, 4]));
    assert_eq!(index.get("vcs"), Some(&vec![0, 2]));
    assert_eq!(index.get("editor"), Some(&vec![1]));
    assert_eq!(index.get("network"), None);
    let in_buckets = index.buckets.iter().filter(|bucket| bucket.positions.contains(&0)).count();
    assert_eq!(in_buckets, 2);
}

#[test]
fn a_tag_listed_twice_files_the_package_once() {
    let packages = vec![package("a", "x", &["t", "u", "t"]), package("b", "x", &["t", "t"])];
    let index = build_tag_index(&packages);
    assert_eq!(index.buckets, vec![bucket("t", &[0, 1]), bucket("u", &[0])]);
}

#[test]
fn an_empty_collection_has_empty_indexes() {
    assert_eq!(build_name_index(&vec![]), NameIndex { entries: vec![] });
    assert_eq!(build_category_index(&vec![]), PositionIndex { buckets: vec![] });
    assert_eq!(build_tag_index(&vec![]), PositionIndex { buckets: vec![] });
}

#[test]
fn build_index_is_the_category_or_the_tag_index() {
    let packages = collection();
    assert_eq!(build_index(Grouping::Category, &packages), build_category_index(&packages));
    assert_eq!(build_index(Grouping::Tag, &packages), build_tag_index(&packages));
}

#[test]
fn a_lookup_takes_the_first_bucket_of_a_key() {
    let index = PositionIndex { buckets: vec![bucket("k", &[1]), bucket("k", &[2])] };
    assert_eq!(index.get("k"), Some(&vec![1]));
}

#[test]
fn every_package_is_in_one_bucket_of_the_category_index() {
    let packages = collection();
    let index = build_category_index(&packages);
    let filed: usize = index.buckets.iter().map(|bucket| bucket.positions.len()).sum();
    assert_eq!(filed, packages.len());
    let mut positions: Vec<usize> =
        index.buckets.iter().flat_map(|bucket| bucket.positions.clone()).collect();
    positions.sort();
    assert_eq!(positions, (0..packages.len()).collect::<Vec<usize>>());

    let same = vec![package("a", "x", &[]), package("b", "x", &[]), package("c", "x", &[])];
    assert_eq!(build_category_index(&same).buckets, vec![bucket("x", &[0, 1, 2])]);
}
