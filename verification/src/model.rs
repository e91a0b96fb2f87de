//! The records of the database and their mathematical models.
//!
//! Every record type has a model: a value made of sequences, options and
//! integers only, reached through `deep_view()`. Contracts throughout the
//! crate speak of models, never of the owned strings and vectors.

use vstd::prelude::*;
use crate::text::Text;

verus! {

/// The highest popularity that a package may have.
pub const MAX_POPULARITY: u8 = 100;

/// The fewest platforms on which a package should be available.
pub const MIN_PLATFORMS: u8 = 2;

/// One entry of a package's dependency lists.
#[derive(Debug, Clone, PartialEq, Eq)]
pub struct Dependency {
    pub package: String,
    pub reason: String,
}

/// The model of [`Dependency`].
pub struct DependencyModel {
    pub package: Text,
    pub reason: Text,
}

impl DeepView for Dependency {
    type V = DependencyModel;

    open spec fn deep_view(&self) -> DependencyModel {
        DependencyModel { package: self.package@, reason: self.reason@ }
    }
}

/// The required and the optional dependencies of a package, each in the order
/// in which the record lists them.
#[derive(Debug, Clone, PartialEq, Eq)]
pub struct Dependencies {
    pub required: Vec<Dependency>,
    pub optional: Vec<Dependency>,
}

/// The model of [`Dependencies`].
pub struct DependenciesModel {
    pub required: Seq<DependencyModel>,
    pub optional: Seq<DependencyModel>,
}

impl DeepView for Dependencies {
    type V = DependenciesModel;

    open spec fn deep_view(&self) -> DependenciesModel {
        DependenciesModel {
            required: self.required.deep_view(),
            optional: self.optional.deep_view(),
        }
    }
}

/// The install key of a package on each platform; `None` where the package is
/// not available.
#[derive(Debug, Clone, PartialEq, Eq)]
pub struct Platforms {
    pub apt: Option<String>,
    pub brew: Option<String>,
    pub dnf: Option<String>,
    pub pacman: Option<String>,
    pub mas: Option<i64>,
}

/// The model of [`Platforms`].
pub struct PlatformsModel {
    pub apt: Option<Text>,
    pub brew: Option<Text>,
    pub dnf: Option<Text>,
    pub pacman: Option<Text>,
    pub mas: Option<i64>,
}

impl DeepView for Platforms {
    type V = PlatformsModel;

    open spec fn deep_view(&self) -> PlatformsModel {
        PlatformsModel {
            apt: self.apt.deep_view(),
            brew: self.brew.deep_view(),
            dnf: self.dnf.deep_view(),
            pacman: self.pacman.deep_view(),
            mas: self.mas,
        }
    }
}

impl PlatformsModel {
    /// The number of platforms on which this package is available: the
    /// mappings, out of `apt`, `brew`, `dnf`, `pacman` and the store
    /// identifier `mas`, that are not absent.
    pub open spec fn coverage(self) -> nat {
        let apt: nat = if self.apt is Some { 1 } else { 0 };
        let brew: nat = if self.brew is Some { 1 } else { 0 };
        let dnf: nat = if self.dnf is Some { 1 } else { 0 };
        let pacman: nat = if self.pacman is Some { 1 } else { 0 };
        let mas: nat = if self.mas is Some { 1 } else { 0 };
        apt + brew + dnf + pacman + mas
    }
}

impl Platforms {
    /// Counts the platforms on which this package is available.
    pub fn coverage(&self) -> (count: u8)
        ensures
            count == self.deep_view().coverage(),
    {
        let mut count: u8 = 0;
        if self.apt.is_some() {
            count += 1;
        }
        if self.brew.is_some() {
            count += 1;
        }
        if self.dnf.is_some() {
            count += 1;
        }
        if self.pacman.is_some() {
            count += 1;
        }
        if self.mas.is_some() {
            count += 1;
        }
        count
    }
}

/// The metadata of one software package.
#[derive(Debug, Clone, PartialEq, Eq)]
pub struct Package {
    pub name: String,
    pub description: String,
    pub category: String,
    pub popularity: u8,
    pub platforms: Platforms,
    pub dependencies: Dependencies,
    pub alternatives: Vec<String>,
    pub related: Vec<String>,
    pub tags: Vec<String>,
    pub website: Option<String>,
    pub license: Option<String>,
    pub source: Option<String>,
}

/// The model of [`Package`].
pub struct PackageModel {
    pub name: Text,
    pub description: Text,
    pub category: Text,
    pub popularity: u8,
    pub platforms: PlatformsModel,
    pub dependencies: DependenciesModel,
    pub alternatives: Seq<Text>,
    pub related: Seq<Text>,
    pub tags: Seq<Text>,
    pub website: Option<Text>,
    pub license: Option<Text>,
    pub source: Option<Text>,
}

impl DeepView for Package {
    type V = PackageModel;

    open spec fn deep_view(&self) -> PackageModel {
        PackageModel {
            name: self.name@,
            description: self.description@,
            category: self.category@,
            popularity: self.popularity,
            platforms: self.platforms.deep_view(),
            dependencies: self.dependencies.deep_view(),
            alternatives: self.alternatives.deep_view(),
            related: self.related.deep_view(),
            tags: self.tags.deep_view(),
            website: self.website.deep_view(),
            license: self.license.deep_view(),
            source: self.source.deep_view(),
        }
    }
}

/// The packages a group bundles.
#[derive(Debug, Clone, PartialEq, Eq)]
pub struct GroupPackages {
    pub required: Vec<String>,
    pub optional: Vec<String>,
}

/// The model of [`GroupPackages`].
pub struct GroupPackagesModel {
    pub required: Seq<Text>,
    pub optional: Seq<Text>,
}

impl DeepView for GroupPackages {
    type V = GroupPackagesModel;

    open spec fn deep_view(&self) -> GroupPackagesModel {
        GroupPackagesModel {
            required: self.required.deep_view(),
            optional: self.optional.deep_view(),
        }
    }
}

/// What a group installs instead, or in addition, on one platform. The names
/// are those of the platform's own package manager and are not checked against
/// the package collection.
#[derive(Debug, Clone, PartialEq, Eq)]
pub struct PlatformOverride {
    pub platform: String,
    pub packages: Vec<String>,
    pub casks: Vec<String>,
}

/// The model of [`PlatformOverride`].
pub struct PlatformOverrideModel {
    pub platform: Text,
    pub packages: Seq<Text>,
    pub casks: Seq<Text>,
}

impl DeepView for PlatformOverride {
    type V = PlatformOverrideModel;

    open spec fn deep_view(&self) -> PlatformOverrideModel {
        PlatformOverrideModel {
            platform: self.platform@,
            packages: self.packages.deep_view(),
            casks: self.casks.deep_view(),
        }
    }
}

/// A named bundle of packages.
#[derive(Debug, Clone, PartialEq, Eq)]
pub struct PackageGroup {
    pub id: String,
    pub name: String,
    pub description: String,
    pub category: String,
    pub packages: GroupPackages,
    pub platform_overrides: Vec<PlatformOverride>,
}

/// The model of [`PackageGroup`].
pub struct PackageGroupModel {
    pub id: Text,
    pub name: Text,
    pub description: Text,
    pub category: Text,
    pub packages: GroupPackagesModel,
    pub platform_overrides: Seq<PlatformOverrideModel>,
}

impl DeepView for PackageGroup {
    type V = PackageGroupModel;

    open spec fn deep_view(&self) -> PackageGroupModel {
        PackageGroupModel {
            id: self.id@,
            name: self.name@,
            description: self.description@,
            category: self.category@,
            packages: self.packages.deep_view(),
            platform_overrides: self.platform_overrides.deep_view(),
        }
    }
}

} // verus!
