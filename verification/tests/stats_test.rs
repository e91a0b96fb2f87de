use heimdal_packages::index::IndexBucket;
use heimdal_packages::model::{Dependencies, Package, Platforms};
use heimdal_packages::stats::{count_carried, scan_packages, PackageManager, PlatformCoverage};

fn text(s: &str) -> String {
    s.to_string()
}

fn package(name: &str, category: &str, tags: &[&str], managers: [bool; 4]) -> Package {
    let key = |carried: bool| if carried { Some(text(name)) } else { None };
    Package {
        name: text(name),
        description: text(""),
        category: text(category),
        popularity: 10,
        platforms: Platforms {
            apt: key(managers[0]),
            brew: key(managers[1]),
            dnf: key(managers[2]),
            pacman: key(managers[3]),
            mas: Some(1),
        },
        dependencies: Dependencies { required: vec![], optional: vec![] },
        alternatives: vec![],
        related: vec![],
        tags: tags.iter().map(|tag| text(tag)).collect(),
        website: None,
        license: None,
        source: None,
    }
}

fn collection() -> Vec<Package> {
    vec![
        package("git", "vcs", &["cli", "vcs"], [true, true, true, true]),
        package("vim", "editor", &["cli"], [true, true, false, false]),
        package("xcode", "editor", &["ide", "cli"], [false, false, false, false]),
        package("hg", "vcs", &["vcs"], [true, false, false, true]),
    ]
}

#[test]
fn scan_packages_counts_the_collection() {
    let stats = scan_packages(&collection());
    assert_eq!(stats.total_packages, 4);
    assert_eq!(stats.platform_coverage, PlatformCoverage { apt: 3, brew: 2, dnf: 1, pacman: 2 });
    assert_eq!(stats.total_tags, 3);
    assert_eq!(
        stats.packages_by_category.buckets,
        vec![
            IndexBucket { key: text("vcs"), positions: vec![0, 3] },
            IndexBucket { key: text("editor"), positions: vec![1, 2] },
        ]
    );
}

#[test]
fn scan_packages_of_nothing_counts_nothing() {
    let stats = scan_packages(&vec![]);
    assert_eq!(stats.total_packages, 0);
    assert_eq!(stats.platform_coverage, PlatformCoverage { apt: 0, brew: 0, dnf: 0, pacman: 0 });
    assert_eq!(stats.total_tags, 0);
    assert!(stats.packages_by_category.buckets.is_empty());
}

#[test]
fn each_package_manager_is_counted_by_its_own_key() {
    let packages = collection();
    assert_eq!(count_carried(PackageManager::Apt, &packages), 3);
    assert_eq!(count_carried(PackageManager::Brew, &packages), 2);
    assert_eq!(count_carried(PackageManager::Dnf, &packages), 1);
    assert_eq!(count_carried(PackageManager::Pacman, &packages), 2);
    assert!(PackageManager::Dnf.has(&packages[0]));
    assert!(!PackageManager::Dnf.has(&packages[1]));
}
