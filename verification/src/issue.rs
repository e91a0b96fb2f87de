//! The diagnostics that validation produces: hard errors, which block a run,
//! and warnings, which never do.

use vstd::prelude::*;
use vstd::string::*;
use crate::model::{MAX_POPULARITY, MIN_PLATFORMS};
use crate::text::{decimal, format_decimal, Text};

verus! {

/// One finding of the validator.
///
/// The first seven variants are hard errors; the last four are warnings.
#[derive(Debug, Clone, PartialEq, Eq)]
pub enum Issue {
    /// The file at `path` could not be read or is not a well-formed record.
    Unparsable { path: String, detail: String },
    /// The record at `path` breaks one constraint of its schema.
    SchemaViolation { path: String, constraint: String },
    /// The file is not named after the package it declares.
    FilenameMismatch { path: String, file_name: String, package: String },
    /// The popularity of the package at `path` is above the maximum.
    PopularityOutOfRange { path: String, popularity: u8 },
    /// The package at `path` declares a name that the package at `first_path`
    /// has already taken.
    DuplicateName { name: String, first_path: String, path: String },
    /// A package depends on a package that does not exist.
    UnknownDependency { package: String, dependency: String, optional: bool },
    /// A group bundles a package that does not exist.
    UnknownGroupPackage { group: String, package: String, optional: bool },
    /// A tag holds something other than lowercase letters, digits and hyphens.
    MalformedTag { path: String, tag: String },
    /// A package names an alternative that does not exist.
    UnknownAlternative { package: String, alternative: String },
    /// A package names a related package that does not exist.
    UnknownRelated { package: String, related: String },
    /// The package is available on fewer than two platforms.
    LowPlatformCoverage { package: String, platforms: u8 },
}

/// The model of [`Issue`].
pub enum IssueModel {
    Unparsable { path: Text, detail: Text },
    SchemaViolation { path: Text, constraint: Text },
    FilenameMismatch { path: Text, file_name: Text, package: Text },
    PopularityOutOfRange { path: Text, popularity: u8 },
    DuplicateName { name: Text, first_path: Text, path: Text },
    UnknownDependency { package: Text, dependency: Text, optional: bool },
    UnknownGroupPackage { group: Text, package: Text, optional: bool },
    MalformedTag { path: Text, tag: Text },
    UnknownAlternative { package: Text, alternative: Text },
    UnknownRelated { package: Text, related: Text },
    LowPlatformCoverage { package: Text, platforms: u8 },
}

impl DeepView for Issue {
    type V = IssueModel;

    open spec fn deep_view(&self) -> IssueModel {
        match *self {
            Issue::Unparsable { path, detail } => IssueModel::Unparsable {
                path: path@,
                detail: detail@,
            },
            Issue::SchemaViolation { path, constraint } => IssueModel::SchemaViolation {
                path: path@,
                constraint: constraint@,
            },
            Issue::FilenameMismatch { path, file_name, package } => IssueModel::FilenameMismatch {
                path: path@,
                file_name: file_name@,
                package: package@,
            },
            Issue::PopularityOutOfRange { path, popularity } => IssueModel::PopularityOutOfRange {
                path: path@,
                popularity,
            },
            Issue::DuplicateName { name, first_path, path } => IssueModel::DuplicateName {
                name: name@,
                first_path: first_path@,
                path: path@,
            },
            Issue::UnknownDependency { package, dependency, optional } => {
                IssueModel::UnknownDependency {
                    package: package@,
                    dependency: dependency@,
                    optional,
                }
            },
            Issue::UnknownGroupPackage { group, package, optional } => {
                IssueModel::UnknownGroupPackage { group: group@, package: package@, optional }
            },
            Issue::MalformedTag { path, tag } => IssueModel::MalformedTag { path: path@, tag: tag@ },
            Issue::UnknownAlternative { package, alternative } => IssueModel::UnknownAlternative {
                package: package@,
                alternative: alternative@,
            },
            Issue::UnknownRelated { package, related } => IssueModel::UnknownRelated {
                package: package@,
                related: related@,
            },
            Issue::LowPlatformCoverage { package, platforms } => IssueModel::LowPlatformCoverage {
                package: package@,
                platforms,
            },
        }
    }
}

/// The word that tells a required reference from an optional one.
pub open spec fn requirement_word(optional: bool) -> Text {
    if optional {
        "optional"@
    } else {
        "required"@
    }
}

impl IssueModel {
    /// Whether this finding blocks a run.
    pub open spec fn is_error(self) -> bool {
        match self {
            IssueModel::Unparsable { .. } => true,
            IssueModel::SchemaViolation { .. } => true,
            IssueModel::FilenameMismatch { .. } => true,
            IssueModel::PopularityOutOfRange { .. } => true,
            IssueModel::DuplicateName { .. } => true,
            IssueModel::UnknownDependency { .. } => true,
            IssueModel::UnknownGroupPackage { .. } => true,
            IssueModel::MalformedTag { .. } => false,
            IssueModel::UnknownAlternative { .. } => false,
            IssueModel::UnknownRelated { .. } => false,
            IssueModel::LowPlatformCoverage { .. } => false,
        }
    }

    /// The line of text that reports this finding.
    pub open spec fn message(self) -> Text {
        match self {
            IssueModel::Unparsable { path, detail } => path + ": "@ + detail,
            IssueModel::SchemaViolation { path, constraint } => path + ": "@ + constraint,
            IssueModel::FilenameMismatch { path, file_name, package } => path + ": Filename '"@
                + file_name + "' doesn't match package name '"@ + package + "' (expected '"@
                + package + ".yaml')"@,
            IssueModel::PopularityOutOfRange { path, popularity } => path + ": Popularity "@
                + decimal(popularity as nat) + " exceeds maximum of "@ + decimal(
                MAX_POPULARITY as nat,
            ),
            IssueModel::DuplicateName { name, first_path, path } => "Duplicate package name '"@
                + name + "' in "@ + path + " (first seen in "@ + first_path + ")"@,
            IssueModel::UnknownDependency { package, dependency, optional } => "Package '"@
                + package + "' has unknown "@ + requirement_word(optional) + " dependency: '"@
                + dependency + "'"@,
            IssueModel::UnknownGroupPackage { group, package, optional } => "Group '"@ + group
                + "' references unknown "@ + requirement_word(optional) + " package: '"@ + package
                + "'"@,
            IssueModel::MalformedTag { path, tag } => path + ": Tag '"@ + tag
                + "' should be lowercase with hyphens only"@,
            IssueModel::UnknownAlternative { package, alternative } => "Package '"@ + package
                + "' references unknown alternative: '"@ + alternative + "'"@,
            IssueModel::UnknownRelated { package, related } => "Package '"@ + package
                + "' references unknown related package: '"@ + related + "'"@,
            IssueModel::LowPlatformCoverage { package, platforms } => "Package '"@ + package
                + "' has only "@ + decimal(platforms as nat)
                + " platform mapping(s) (recommended: at least "@ + decimal(MIN_PLATFORMS as nat)
                + ")"@,
        }
    }
}

/// The word `required` or `optional`.
fn requirement_text(optional: bool) -> (word: &'static str)
    ensures
        word@ == requirement_word(optional),
{
    if optional {
        "optional"
    } else {
        "required"
    }
}

impl Issue {
    /// Whether this finding blocks a run.
    pub fn is_error(&self) -> (blocking: bool)
        ensures
            blocking == self.deep_view().is_error(),
    {
        match self {
            Issue::Unparsable { .. } => true,
            Issue::SchemaViolation { .. } => true,
            Issue::FilenameMismatch { .. } => true,
            Issue::PopularityOutOfRange { .. } => true,
            Issue::DuplicateName { .. } => true,
            Issue::UnknownDependency { .. } => true,
            Issue::UnknownGroupPackage { .. } => true,
            Issue::MalformedTag { .. } => false,
            Issue::UnknownAlternative { .. } => false,
            Issue::UnknownRelated { .. } => false,
            Issue::LowPlatformCoverage { .. } => false,
        }
    }

    /// Renders this finding as one line of text.
    pub fn message(&self) -> (line: String)
        ensures
            line@ == self.deep_view().message(),
    {
        match self {
            Issue::Unparsable { path, detail } => {
                let mut line: String = path.clone();
                line.append(": ");
                line.append(detail.as_str());
                line
            },
            Issue::SchemaViolation { path, constraint } => {
                let mut line: String = path.clone();
                line.append(": ");
                line.append(constraint.as_str());
                line
            },
            Issue::FilenameMismatch { path, file_name, package } => {
                let mut line: String = path.clone();
                line.append(": Filename '");
                line.append(file_name.as_str());
                line.append("' doesn't match package name '");
                line.append(package.as_str());
                line.append("' (expected '");
                line.append(package.as_str());
                line.append(".yaml')");
                line
            },
            Issue::PopularityOutOfRange { path, popularity } => {
                let numeral: String = format_decimal(*popularity as u64);
                let bound: String = format_decimal(MAX_POPULARITY as u64);
                let mut line: String = path.clone();
                line.append(": Popularity ");
                line.append(numeral.as_str());
                line.append(" exceeds maximum of ");
                line.append(bound.as_str());
                line
            },
            Issue::DuplicateName { name, first_path, path } => {
                let mut line: String = String::from_str("Duplicate package name '");
                line.append(name.as_str());
                line.append("' in ");
                line.append(path.as_str());
                line.append(" (first seen in ");
                line.append(first_path.as_str());
                line.append(")");
                line
            },
            Issue::UnknownDependency { package, dependency, optional } => {
                let mut line: String = String::from_str("Package '");
                line.append(package.as_str());
                line.append("' has unknown ");
                line.append(requirement_text(*optional));
                line.append(" dependency: '");
                line.append(dependency.as_str());
                line.append("'");
                line
            },
            Issue::UnknownGroupPackage { group, package, optional } => {
                let mut line: String = String::from_str("Group '");
                line.append(group.as_str());
                line.append("' references unknown ");
                line.append(requirement_text(*optional));
                line.append(" package: '");
                line.append(package.as_str());
                line.append("'");
                line
            },
            Issue::MalformedTag { path, tag } => {
                let mut line: String = path.clone();
                line.append(": Tag '");
                line.append(tag.as_str());
                line.append("' should be lowercase with hyphens only");
                line
            },
            Issue::UnknownAlternative { package, alternative } => {
                let mut line: String = String::from_str("Package '");
                line.append(package.as_str());
                line.append("' references unknown alternative: '");
                line.append(alternative.as_str());
                line.append("'");
                line
            },
            Issue::UnknownRelated { package, related } => {
                let mut line: String = String::from_str("Package '");
                line.append(package.as_str());
                line.append("' references unknown related package: '");
                line.append(related.as_str());
                line.append("'");
                line
            },
            Issue::LowPlatformCoverage { package, platforms } => {
                let numeral: String = format_decimal(*platforms as u64);
                let bound: String = format_decimal(MIN_PLATFORMS as u64);
                let mut line: String = String::from_str("Package '");
                line.append(package.as_str());
                line.append("' has only ");
                line.append(numeral.as_str());
                line.append(" platform mapping(s) (recommended: at least ");
                line.append(bound.as_str());
                line.append(")");
                line
            },
        }
    }
}

} // verus!
