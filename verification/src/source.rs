//! What the loader hands to the checks: one value per source file, holding
//! what reading and parsing that file gave.

use vstd::prelude::*;
use crate::issue::IssueModel;
use crate::model::{Package, PackageModel};
use crate::text::Text;

verus! {

/// What became of one source file.
#[derive(Debug, Clone, PartialEq, Eq)]
pub enum Loaded<T> {
    /// The file could not be read, or does not hold a well-formed record.
    Malformed { detail: String },
    /// The record breaks its schema; one text per broken constraint.
    Rejected { violations: Vec<String> },
    /// The record was read and parsed.
    Entity(T),
}

/// The model of [`Loaded`].
pub enum LoadedModel<M> {
    Malformed { detail: Text },
    Rejected { violations: Seq<Text> },
    Entity(M),
}

impl<T: DeepView> DeepView for Loaded<T> {
    type V = LoadedModel<T::V>;

    open spec fn deep_view(&self) -> LoadedModel<T::V> {
        match *self {
            Loaded::Malformed { detail } => LoadedModel::Malformed { detail: detail@ },
            Loaded::Rejected { violations } => LoadedModel::Rejected {
                violations: violations.deep_view(),
            },
            Loaded::Entity(entity) => LoadedModel::Entity(entity.deep_view()),
        }
    }
}

/// One source file: where it is, what it is called, and what it holds.
#[derive(Debug, Clone, PartialEq, Eq)]
pub struct SourceFile<T> {
    /// The path of the file, as reports show it.
    pub path: String,
    /// The last component of the path, with its extension.
    pub file_name: String,
    pub loaded: Loaded<T>,
}

/// The model of [`SourceFile`].
pub struct SourceFileModel<M> {
    pub path: Text,
    pub file_name: Text,
    pub loaded: LoadedModel<M>,
}

impl<T: DeepView> DeepView for SourceFile<T> {
    type V = SourceFileModel<T::V>;

    open spec fn deep_view(&self) -> SourceFileModel<T::V> {
        SourceFileModel {
            path: self.path@,
            file_name: self.file_name@,
            loaded: self.loaded.deep_view(),
        }
    }
}

/// A package together with the path of the file that declares it.
#[derive(Debug, Clone, PartialEq, Eq)]
pub struct LoadedPackage {
    pub path: String,
    pub package: Package,
}

/// The model of [`LoadedPackage`].
pub struct LoadedPackageModel {
    pub path: Text,
    pub package: PackageModel,
}

impl DeepView for LoadedPackage {
    type V = LoadedPackageModel;

    open spec fn deep_view(&self) -> LoadedPackageModel {
        LoadedPackageModel { path: self.path@, package: self.package.deep_view() }
    }
}

/// The hard error that the violation at position `i` of a rejected record
/// gives rise to.
pub open spec fn schema_violation_at(path: Text, violations: Seq<Text>) -> spec_fn(int) -> Seq<
    IssueModel,
> {
    |i: int| seq![IssueModel::SchemaViolation { path, constraint: violations[i] }]
}

/// The constraint that stands in the hard error of a record that was
/// rejected without a violation being named.
pub open spec fn unnamed_constraint() -> Text {
    "rejected without a named constraint"@
}

impl<M> SourceFileModel<M> {
    /// The hard errors that loading this file gave: one for a malformed file,
    /// one per violated constraint for a rejected record, none for an entity.
    /// A record that was rejected without a violation being named still
    /// gives one hard error: no file leaves a run unseen.
    pub open spec fn load_errors(self) -> Seq<IssueModel> {
        match self.loaded {
            LoadedModel::Malformed { detail } => seq![
                IssueModel::Unparsable { path: self.path, detail },
            ],
            LoadedModel::Rejected { violations } => if violations.len() == 0 {
                seq![
                    IssueModel::SchemaViolation {
                        path: self.path,
                        constraint: unnamed_constraint(),
                    },
                ]
            } else {
                crate::gather::gather(violations.len(), schema_violation_at(self.path, violations))
            },
            LoadedModel::Entity(_) => Seq::empty(),
        }
    }

    /// A file that holds no entity gives at least one hard error.
    pub proof fn lemma_load_errors(self)
        ensures
            self.loaded is Entity <==> self.load_errors().len() == 0,
    {
        match self.loaded {
            LoadedModel::Rejected { violations } => {
                if violations.len() > 0 {
                    let at = schema_violation_at(self.path, violations);
                    crate::gather::lemma_gather_empty(violations.len(), at);
                    assert(at(0).len() == 1);
                }
            },
            _ => {},
        }
    }
}

} // verus!
