//! The compiled database, and the last steps before it is published: the
//! self-check of the encoding and the integrity stamp.

use vstd::prelude::*;
use crate::alike::Alike;
use crate::checksum::{checksum, checksum_of, verify_checksum};
use crate::closure::references_closed;
use crate::grouping::{
    build_category_index, build_tag_index, grouped, grouped_buckets, Grouping,
};
use crate::index::{
    build_name_index, named, named_entries, IndexBucketModel, NameEntryModel, NameIndex,
    PositionIndex,
};
use crate::model::{Package, PackageGroup, PackageGroupModel, PackageModel, MAX_POPULARITY};
use crate::text::Text;
use crate::uniqueness::names_unique;

verus! {

/// The version of the database layout that this library writes.
pub const DATABASE_VERSION: u32 = 1;

/// The artifact before it is encoded: the validated collections, their
/// indexes, and the time of compilation.
#[derive(Debug, Clone, PartialEq, Eq)]
pub struct CompiledDatabase {
    pub version: u32,
    /// The time of compilation: UTC, in ISO-8601.
    pub last_updated: String,
    pub packages: Vec<Package>,
    pub groups: Vec<PackageGroup>,
    pub index_by_name: NameIndex,
    pub index_by_category: PositionIndex,
    pub index_by_tag: PositionIndex,
}

/// The model of [`CompiledDatabase`].
pub struct DatabaseModel {
    pub version: u32,
    pub last_updated: Text,
    pub packages: Seq<PackageModel>,
    pub groups: Seq<PackageGroupModel>,
    pub index_by_name: Seq<NameEntryModel>,
    pub index_by_category: Seq<IndexBucketModel>,
    pub index_by_tag: Seq<IndexBucketModel>,
}

impl DeepView for CompiledDatabase {
    type V = DatabaseModel;

    open spec fn deep_view(&self) -> DatabaseModel {
        DatabaseModel {
            version: self.version,
            last_updated: self.last_updated@,
            packages: self.packages.deep_view(),
            groups: self.groups.deep_view(),
            index_by_name: self.index_by_name.deep_view(),
            index_by_category: self.index_by_category.deep_view(),
            index_by_tag: self.index_by_tag.deep_view(),
        }
    }
}

impl Alike for CompiledDatabase {
    fn alike(&self, other: &Self) -> (same: bool) {
        self.version == other.version && self.last_updated.alike(&other.last_updated)
            && self.packages.alike(&other.packages) && self.groups.alike(&other.groups)
            && self.index_by_name.alike(&other.index_by_name) && self.index_by_category.alike(
            &other.index_by_category,
        ) && self.index_by_tag.alike(&other.index_by_tag)
    }
}

/// Every package of the collection has a popularity of at most 100.
pub open spec fn popularity_in_range(packages: Seq<PackageModel>) -> bool {
    forall|i: int| 0 <= i < packages.len() ==> (#[trigger] packages[i]).popularity <= MAX_POPULARITY
}

impl CompiledDatabase {
    /// The three indexes are those of the package collection.
    pub open spec fn indexed(&self) -> bool {
        &&& self.index_by_name@ == named(self.packages.deep_view())
        &&& self.index_by_category@ == grouped(Grouping::Category, self.packages.deep_view())
        &&& self.index_by_tag@ == grouped(Grouping::Tag, self.packages.deep_view())
        &&& self.index_by_category.wf()
        &&& self.index_by_tag.wf()
    }

    /// The invariant of a database that may be published: it has the current
    /// version, no two packages have the same name, every popularity is in
    /// range, every dependency and every group member names a package of the
    /// collection, and the indexes are those of the collection.
    pub open spec fn wf(&self) -> bool {
        &&& self.version == DATABASE_VERSION
        &&& names_unique(self.packages.deep_view())
        &&& popularity_in_range(self.packages.deep_view())
        &&& references_closed(self.packages.deep_view(), self.groups.deep_view())
        &&& self.indexed()
    }
}

/// The database of the given collections: the collections as they are, with
/// the three indexes of the packages and the current version.
pub open spec fn assembled(
    packages: Seq<PackageModel>,
    groups: Seq<PackageGroupModel>,
    last_updated: Text,
) -> DatabaseModel {
    DatabaseModel {
        version: DATABASE_VERSION,
        last_updated,
        packages,
        groups,
        index_by_name: named_entries(packages),
        index_by_category: grouped_buckets(Grouping::Category, packages),
        index_by_tag: grouped_buckets(Grouping::Tag, packages),
    }
}

/// Builds the three indexes over `packages` and assembles the database.
/// Nothing is validated here.
pub fn build_database(packages: Vec<Package>, groups: Vec<PackageGroup>, last_updated: String) -> (database:
    CompiledDatabase)
    ensures
        database.deep_view() == assembled(packages.deep_view(), groups.deep_view(), last_updated@),
        database.indexed(),
{
    let index_by_name = build_name_index(&packages);
    let index_by_category = build_category_index(&packages);
    let index_by_tag = build_tag_index(&packages);
    CompiledDatabase {
        version: DATABASE_VERSION,
        last_updated,
        packages,
        groups,
        index_by_name,
        index_by_category,
        index_by_tag,
    }
}

/// Why an encoded database was not published.
#[derive(Debug, Clone, Copy, PartialEq, Eq)]
pub enum SealError {
    /// The bytes just written could not be decoded again.
    Undecodable,
    /// The bytes decode to a database other than the one encoded.
    Mismatch,
}

/// What gets published: the encoded database and its integrity stamp.
#[derive(Debug, Clone, PartialEq, Eq)]
pub struct Artifact {
    pub bytes: Vec<u8>,
    pub checksum: String,
}

impl Artifact {
    /// The stamp is the stamp of the bytes.
    pub open spec fn intact(&self) -> bool {
        self.checksum@ == checksum_of(self.bytes@)
    }

    /// Hashes the bytes again and compares the result with the stamp.
    pub fn verify(&self) -> (intact: bool)
        ensures
            intact == self.intact(),
    {
        verify_checksum(self.bytes.as_slice(), self.checksum.as_str())
    }
}

/// The self-check and the stamp. `encoded` are the bytes that the encoder
/// wrote for `database`, and `decoded` is what the decoder read back from
/// them, or `None` where it failed. The artifact is made only where the
/// decoder gave back a database with the model of the one encoded.
pub fn seal(database: &CompiledDatabase, encoded: Vec<u8>, decoded: Option<CompiledDatabase>) -> (outcome:
    Result<Artifact, SealError>)
    ensures
        match outcome {
            Ok(artifact) => {
                &&& decoded is Some
                &&& decoded->0.deep_view() == database.deep_view()
                &&& artifact.bytes@ == encoded@
                &&& artifact.intact()
            },
            Err(SealError::Undecodable) => decoded is None,
            Err(SealError::Mismatch) => decoded is Some && decoded->0.deep_view()
                != database.deep_view(),
        },
{
    match decoded {
        None => Err(SealError::Undecodable),
        Some(read_back) => {
            if read_back.alike(database) {
                let stamp = checksum(encoded.as_slice());
                Ok(Artifact { bytes: encoded, checksum: stamp })
            } else {
                Err(SealError::Mismatch)
            }
        },
    }
}

} // verus!
