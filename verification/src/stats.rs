//! Aggregate counts over a package collection: how many packages there are,
//! how many each package manager carries, how many fall in each category,
//! and how many distinct tags are in use.

use vstd::prelude::*;
use crate::grouping::{
    build_category_index, build_tag_index, grouped, positions_where, Grouping,
};
use crate::index::{IndexBucket, PositionIndex};
use crate::model::{Package, PackageModel};
use crate::text::Text;

verus! {

/// The package managers whose coverage is counted.
#[derive(Debug, Clone, Copy, PartialEq, Eq)]
pub enum PackageManager {
    Apt,
    Brew,
    Dnf,
    Pacman,
}

impl PackageManager {
    /// Whether this package manager carries `package`.
    pub open spec fn carries(self, package: PackageModel) -> bool {
        match self {
            PackageManager::Apt => package.platforms.apt is Some,
            PackageManager::Brew => package.platforms.brew is Some,
            PackageManager::Dnf => package.platforms.dnf is Some,
            PackageManager::Pacman => package.platforms.pacman is Some,
        }
    }

    /// Decides whether this package manager carries `package`.
    pub fn has(&self, package: &Package) -> (carried: bool)
        ensures
            carried == self.carries(package.deep_view()),
    {
        match self {
            PackageManager::Apt => package.platforms.apt.is_some(),
            PackageManager::Brew => package.platforms.brew.is_some(),
            PackageManager::Dnf => package.platforms.dnf.is_some(),
            PackageManager::Pacman => package.platforms.pacman.is_some(),
        }
    }
}

/// Whether `manager` carries the package at a position.
pub open spec fn carried_at(manager: PackageManager, packages: Seq<PackageModel>) -> spec_fn(
    int,
) -> bool {
    |i: int| manager.carries(packages[i])
}

/// The number of packages of the collection that `manager` carries.
pub open spec fn carried_by(manager: PackageManager, packages: Seq<PackageModel>) -> nat {
    positions_where(packages.len(), carried_at(manager, packages)).len()
}

/// How many packages each package manager carries.
#[derive(Debug, Clone, Copy, PartialEq, Eq)]
pub struct PlatformCoverage {
    pub apt: usize,
    pub brew: usize,
    pub dnf: usize,
    pub pacman: usize,
}

/// The counts over a package collection.
#[derive(Debug, Clone, PartialEq, Eq)]
pub struct PackageStats {
    pub total_packages: usize,
    /// The packages of each category, by position.
    pub packages_by_category: PositionIndex,
    pub platform_coverage: PlatformCoverage,
    /// The number of distinct tags.
    pub total_tags: usize,
}

/// Counts the packages that `manager` carries.
pub fn count_carried(manager: PackageManager, packages: &Vec<Package>) -> (count: usize)
    ensures
        count == carried_by(manager, packages.deep_view()),
{
    let ghost carried = carried_at(manager, packages.deep_view());
    let mut count: usize = 0;
    let mut i: usize = 0;
    while i < packages.len()
        invariant
            i <= packages.len(),
            count <= i,
            carried == carried_at(manager, packages.deep_view()),
            count == positions_where(i as nat, carried).len(),
        decreases packages.len() - i,
    {
        assert(packages.deep_view()[i as int] == packages[i as int].deep_view());
        if manager.has(&packages[i]) {
            count += 1;
        }
        i += 1;
    }
    count
}

/// The keys of the buckets, in order.
spec fn bucket_keys(buckets: Seq<IndexBucket>) -> Seq<Text> {
    Seq::new(buckets.len(), |b: int| buckets[b].key@)
}

/// An index without repeated keys has as many buckets as its mapping has
/// keys.
proof fn lemma_bucket_count(index: &PositionIndex)
    requires
        index.wf(),
    ensures
        index@.dom().finite(),
        index@.dom().len() == index.buckets@.len(),
{
    let keys = bucket_keys(index.buckets@);
    assert(keys.no_duplicates());
    keys.unique_seq_to_set();
    vstd::seq_lib::seq_to_set_is_finite(keys);
    assert forall|key: Text| keys.to_set().contains(key) == index@.dom().contains(key) by {
        if keys.to_set().contains(key) {
            let b = choose|b: int| 0 <= b < keys.len() && keys[b] == key;
            assert(index.buckets@[b].key@ == key);
            assert(crate::index::is_bucket_of(index.buckets@, key, b)) by {
                assert forall|k: int| 0 <= k < b implies (#[trigger] index.buckets@[k]).key@
                    != key by {
                    assert(index.buckets@[k].key@ != index.buckets@[b].key@);
                }
            }
        }
        if index@.dom().contains(key) {
            let b = choose|b: int| crate::index::is_bucket_of(index.buckets@, key, b);
            assert(keys[b] == key);
        }
    }
    assert(keys.to_set() =~= index@.dom());
}

/// Counts over `packages`: the packages themselves, those that each package
/// manager carries, those of each category, and the distinct tags.
pub fn scan_packages(packages: &Vec<Package>) -> (stats: PackageStats)
    ensures
        stats.total_packages == packages.len(),
        stats.packages_by_category@ == grouped(Grouping::Category, packages.deep_view()),
        stats.platform_coverage.apt == carried_by(PackageManager::Apt, packages.deep_view()),
        stats.platform_coverage.brew == carried_by(PackageManager::Brew, packages.deep_view()),
        stats.platform_coverage.dnf == carried_by(PackageManager::Dnf, packages.deep_view()),
        stats.platform_coverage.pacman == carried_by(
            PackageManager::Pacman,
            packages.deep_view(),
        ),
        grouped(Grouping::Tag, packages.deep_view()).dom().finite(),
        stats.total_tags == grouped(Grouping::Tag, packages.deep_view()).dom().len(),
{
    let tags = build_tag_index(packages);
    proof {
        lemma_bucket_count(&tags);
    }
    PackageStats {
        total_packages: packages.len(),
        packages_by_category: build_category_index(packages),
        platform_coverage: PlatformCoverage {
            apt: count_carried(PackageManager::Apt, packages),
            brew: count_carried(PackageManager::Brew, packages),
            dnf: count_carried(PackageManager::Dnf, packages),
            pacman: count_carried(PackageManager::Pacman, packages),
        },
        total_tags: tags.buckets.len(),
    }
}

} // verus!
