//! Structural comparison of records: two values are alike when their models
//! are equal.

use vstd::prelude::*;
use vstd::string::*;
use crate::index::{IndexBucket, NameEntry, NameIndex, PositionIndex};
use crate::model::{
    Dependencies, Dependency, GroupPackages, Package, PackageGroup, Platforms, PlatformOverride,
};

verus! {

/// A type whose values can be compared by their models.
pub trait Alike: DeepView {
    /// Whether `self` and `other` have the same model.
    fn alike(&self, other: &Self) -> (same: bool)
        ensures
            same == (self.deep_view() == other.deep_view()),
    ;
}

impl Alike for String {
    fn alike(&self, other: &Self) -> (same: bool) {
        *self == *other
    }
}

impl Alike for usize {
    fn alike(&self, other: &Self) -> (same: bool) {
        *self == *other
    }
}

impl Alike for i64 {
    fn alike(&self, other: &Self) -> (same: bool) {
        *self == *other
    }
}

impl<T: Alike> Alike for Option<T> {
    fn alike(&self, other: &Self) -> (same: bool) {
        match (self, other) {
            (Some(mine), Some(theirs)) => mine.alike(theirs),
            (None, None) => true,
            _ => false,
        }
    }
}

impl<T: Alike> Alike for Vec<T> {
    fn alike(&self, other: &Self) -> (same: bool) {
        if self.len() != other.len() {
            assert(self.deep_view().len() != other.deep_view().len());
            return false;
        }
        let mut i: usize = 0;
        while i < self.len()
            invariant
                i <= self.len(),
                self.len() == other.len(),
                forall|k: int| 0 <= k < i ==> self.deep_view()[k] == other.deep_view()[k],
            decreases self.len() - i,
        {
            if !self[i].alike(&other[i]) {
                assert(self.deep_view()[i as int] != other.deep_view()[i as int]);
                return false;
            }
            i += 1;
        }
        assert(self.deep_view() =~= other.deep_view());
        true
    }
}

impl Alike for Dependency {
    fn alike(&self, other: &Self) -> (same: bool) {
        self.package.alike(&other.package) && self.reason.alike(&other.reason)
    }
}

impl Alike for Dependencies {
    fn alike(&self, other: &Self) -> (same: bool) {
        self.required.alike(&other.required) && self.optional.alike(&other.optional)
    }
}

impl Alike for Platforms {
    fn alike(&self, other: &Self) -> (same: bool) {
        self.apt.alike(&other.apt) && self.brew.alike(&other.brew) && self.dnf.alike(&other.dnf)
            && self.pacman.alike(&other.pacman) && self.mas.alike(&other.mas)
    }
}

impl Alike for Package {
    fn alike(&self, other: &Self) -> (same: bool) {
        self.name.alike(&other.name) && self.description.alike(&other.description)
            && self.category.alike(&other.category) && self.popularity == other.popularity
            && self.platforms.alike(&other.platforms) && self.dependencies.alike(
            &other.dependencies,
        ) && self.alternatives.alike(&other.alternatives) && self.related.alike(&other.related)
            && self.tags.alike(&other.tags) && self.website.alike(&other.website)
            && self.license.alike(&other.license) && self.source.alike(&other.source)
    }
}

impl Alike for GroupPackages {
    fn alike(&self, other: &Self) -> (same: bool) {
        self.required.alike(&other.required) && self.optional.alike(&other.optional)
    }
}

impl Alike for PlatformOverride {
    fn alike(&self, other: &Self) -> (same: bool) {
        self.platform.alike(&other.platform) && self.packages.alike(&other.packages)
            && self.casks.alike(&other.casks)
    }
}

impl Alike for PackageGroup {
    fn alike(&self, other: &Self) -> (same: bool) {
        self.id.alike(&other.id) && self.name.alike(&other.name) && self.description.alike(
            &other.description,
        ) && self.category.alike(&other.category) && self.packages.alike(&other.packages)
            && self.platform_overrides.alike(&other.platform_overrides)
    }
}

impl Alike for NameEntry {
    fn alike(&self, other: &Self) -> (same: bool) {
        self.name.alike(&other.name) && self.position == other.position
    }
}

impl Alike for NameIndex {
    fn alike(&self, other: &Self) -> (same: bool) {
        self.entries.alike(&other.entries)
    }
}

impl Alike for IndexBucket {
    fn alike(&self, other: &Self) -> (same: bool) {
        let same = self.positions.alike(&other.positions);
        proof {
            assert(self.positions.deep_view() =~= self.positions@);
            assert(other.positions.deep_view() =~= other.positions@);
        }
        self.key.alike(&other.key) && same
    }
}

impl Alike for PositionIndex {
    fn alike(&self, other: &Self) -> (same: bool) {
        self.buckets.alike(&other.buckets)
    }
}

} // verus!
