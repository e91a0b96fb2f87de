//! Cross-reference closure, stated: which references there are, what is
//! found where one does not resolve, and what it means for a collection to
//! be closed.

use vstd::prelude::*;
use crate::gather::{gather, lemma_gather_contains, lemma_gather_empty};
use crate::issue::{Issue, IssueModel};
use crate::model::{DependencyModel, PackageGroupModel, PackageModel};
use crate::text::Text;

verus! {

/// Whether some package of the collection is called `name`.
pub open spec fn declares(packages: Seq<PackageModel>, name: Text) -> bool {
    exists|i: int| 0 <= i < packages.len() && (#[trigger] packages[i]).name == name
}

/// The names that the packages of the collection declare.
pub open spec fn declared_names(packages: Seq<PackageModel>) -> Set<Text> {
    Set::new(|name: Text| declares(packages, name))
}

/// The place in a record where one package names another.
#[derive(Debug, Clone, Copy, PartialEq, Eq)]
pub enum Reference {
    RequiredDependency,
    OptionalDependency,
    Alternative,
    Related,
    GroupRequired,
    GroupOptional,
}

impl Reference {
    /// Whether a reference of this kind must resolve. Dependencies and group
    /// members must; alternatives and related packages are advisory.
    pub open spec fn is_binding(self) -> bool {
        !(self is Alternative || self is Related)
    }

    /// The finding for a reference of this kind, made by `owner`, to a package
    /// `target` that does not exist.
    pub open spec fn unresolved(self, owner: Text, target: Text) -> IssueModel {
        match self {
            Reference::RequiredDependency => IssueModel::UnknownDependency {
                package: owner,
                dependency: target,
                optional: false,
            },
            Reference::OptionalDependency => IssueModel::UnknownDependency {
                package: owner,
                dependency: target,
                optional: true,
            },
            Reference::Alternative => IssueModel::UnknownAlternative {
                package: owner,
                alternative: target,
            },
            Reference::Related => IssueModel::UnknownRelated { package: owner, related: target },
            Reference::GroupRequired => IssueModel::UnknownGroupPackage {
                group: owner,
                package: target,
                optional: false,
            },
            Reference::GroupOptional => IssueModel::UnknownGroupPackage {
                group: owner,
                package: target,
                optional: true,
            },
        }
    }

    /// Whether a reference of this kind must resolve.
    pub fn binds(&self) -> (binding: bool)
        ensures
            binding == self.is_binding(),
    {
        match self {
            Reference::Alternative => false,
            Reference::Related => false,
            _ => true,
        }
    }

    /// Builds the finding for a reference of this kind that does not resolve.
    pub fn report_unresolved(&self, owner: &String, target: &String) -> (issue: Issue)
        ensures
            issue.deep_view() == self.unresolved(owner@, target@),
            issue.deep_view().is_error() == self.is_binding(),
    {
        match self {
            Reference::RequiredDependency => Issue::UnknownDependency {
                package: owner.clone(),
                dependency: target.clone(),
                optional: false,
            },
            Reference::OptionalDependency => Issue::UnknownDependency {
                package: owner.clone(),
                dependency: target.clone(),
                optional: true,
            },
            Reference::Alternative => Issue::UnknownAlternative {
                package: owner.clone(),
                alternative: target.clone(),
            },
            Reference::Related => Issue::UnknownRelated {
                package: owner.clone(),
                related: target.clone(),
            },
            Reference::GroupRequired => Issue::UnknownGroupPackage {
                group: owner.clone(),
                package: target.clone(),
                optional: false,
            },
            Reference::GroupOptional => Issue::UnknownGroupPackage {
                group: owner.clone(),
                package: target.clone(),
                optional: true,
            },
        }
    }
}

/// The finding, if any, for one reference of `owner` to `target`.
pub open spec fn unresolved_one(
    known: Set<Text>,
    kind: Reference,
    owner: Text,
    target: Text,
) -> Seq<IssueModel> {
    if known.contains(target) {
        Seq::empty()
    } else {
        seq![kind.unresolved(owner, target)]
    }
}

/// The finding, if any, for the reference at position `i` of `targets`.
pub open spec fn unresolved_at(
    known: Set<Text>,
    kind: Reference,
    owner: Text,
    targets: Seq<Text>,
) -> spec_fn(int) -> Seq<IssueModel> {
    |i: int| unresolved_one(known, kind, owner, targets[i])
}

/// One finding for each of `targets` that is not among the `known` names, in
/// the order of `targets`.
pub open spec fn unresolved(
    known: Set<Text>,
    kind: Reference,
    owner: Text,
    targets: Seq<Text>,
) -> Seq<IssueModel> {
    gather(targets.len(), unresolved_at(known, kind, owner, targets))
}

/// The packages that a dependency list names.
pub open spec fn dependency_targets(dependencies: Seq<DependencyModel>) -> Seq<Text> {
    Seq::new(dependencies.len(), |i: int| dependencies[i].package)
}

/// The hard errors of one package: its required dependencies that do not
/// resolve, then its optional ones.
pub open spec fn package_reference_errors(known: Set<Text>, package: PackageModel) -> Seq<
    IssueModel,
> {
    unresolved(
        known,
        Reference::RequiredDependency,
        package.name,
        dependency_targets(package.dependencies.required),
    ) + unresolved(
        known,
        Reference::OptionalDependency,
        package.name,
        dependency_targets(package.dependencies.optional),
    )
}

/// The warnings of one package: its alternatives that do not resolve, then
/// its related packages that do not.
pub open spec fn package_reference_warnings(known: Set<Text>, package: PackageModel) -> Seq<
    IssueModel,
> {
    unresolved(known, Reference::Alternative, package.name, package.alternatives) + unresolved(
        known,
        Reference::Related,
        package.name,
        package.related,
    )
}

/// The hard errors of one group: its required members that do not resolve,
/// then its optional ones. Platform overrides are not checked.
pub open spec fn group_reference_errors(known: Set<Text>, group: PackageGroupModel) -> Seq<
    IssueModel,
> {
    unresolved(known, Reference::GroupRequired, group.id, group.packages.required) + unresolved(
        known,
        Reference::GroupOptional,
        group.id,
        group.packages.optional,
    )
}

/// The hard errors of the package at a position.
pub open spec fn package_reference_errors_at(
    known: Set<Text>,
    packages: Seq<PackageModel>,
) -> spec_fn(int) -> Seq<IssueModel> {
    |i: int| package_reference_errors(known, packages[i])
}

/// The warnings of the package at a position.
pub open spec fn package_reference_warnings_at(
    known: Set<Text>,
    packages: Seq<PackageModel>,
) -> spec_fn(int) -> Seq<IssueModel> {
    |i: int| package_reference_warnings(known, packages[i])
}

/// The hard errors of the group at a position.
pub open spec fn group_reference_errors_at(
    known: Set<Text>,
    groups: Seq<PackageGroupModel>,
) -> spec_fn(int) -> Seq<IssueModel> {
    |i: int| group_reference_errors(known, groups[i])
}

/// Every hard error of cross-reference closure: those of the packages in
/// collection order, then those of the groups in collection order. A name
/// resolves when a package of the collection declares it.
pub open spec fn reference_errors(
    packages: Seq<PackageModel>,
    groups: Seq<PackageGroupModel>,
) -> Seq<IssueModel> {
    let known = declared_names(packages);
    gather(packages.len(), package_reference_errors_at(known, packages)) + gather(
        groups.len(),
        group_reference_errors_at(known, groups),
    )
}

/// Every warning of cross-reference closure, by package in collection order.
pub open spec fn reference_warnings(packages: Seq<PackageModel>) -> Seq<IssueModel> {
    gather(packages.len(), package_reference_warnings_at(declared_names(packages), packages))
}

/// Closure proper: every dependency of every package and every member of
/// every group is the name of a package of the collection.
pub open spec fn references_closed(
    packages: Seq<PackageModel>,
    groups: Seq<PackageGroupModel>,
) -> bool {
    &&& forall|i: int, j: int|
        0 <= i < packages.len() && 0 <= j < packages[i].dependencies.required.len() ==> declares(
            packages,
            #[trigger] packages[i].dependencies.required[j].package,
        )
    &&& forall|i: int, j: int|
        0 <= i < packages.len() && 0 <= j < packages[i].dependencies.optional.len() ==> declares(
            packages,
            #[trigger] packages[i].dependencies.optional[j].package,
        )
    &&& forall|i: int, j: int|
        0 <= i < groups.len() && 0 <= j < groups[i].packages.required.len() ==> declares(
            packages,
            #[trigger] groups[i].packages.required[j],
        )
    &&& forall|i: int, j: int|
        0 <= i < groups.len() && 0 <= j < groups[i].packages.optional.len() ==> declares(
            packages,
            #[trigger] groups[i].packages.optional[j],
        )
}

/// A list of references gives no finding exactly when each of them resolves,
/// and each one that does not resolve has its finding in the list.
pub proof fn lemma_unresolved(known: Set<Text>, kind: Reference, owner: Text, targets: Seq<Text>)
    ensures
        unresolved(known, kind, owner, targets).len() == 0 <==> forall|j: int|
            0 <= j < targets.len() ==> known.contains(#[trigger] targets[j]),
        forall|j: int|
            0 <= j < targets.len() && !known.contains(#[trigger] targets[j]) ==> unresolved(
                known,
                kind,
                owner,
                targets,
            ).contains(kind.unresolved(owner, targets[j])),
{
    let at = unresolved_at(known, kind, owner, targets);
    lemma_gather_empty(targets.len(), at);
    if unresolved(known, kind, owner, targets).len() == 0 {
        assert forall|j: int| 0 <= j < targets.len() implies known.contains(
            #[trigger] targets[j],
        ) by {
            assert(at(j).len() == 0);
        }
    }
    assert forall|j: int|
        0 <= j < targets.len() && !known.contains(#[trigger] targets[j]) implies unresolved(
        known,
        kind,
        owner,
        targets,
    ).contains(kind.unresolved(owner, targets[j])) by {
        let finding = kind.unresolved(owner, targets[j]);
        assert(at(j)[0] == finding);
        assert(at(j).contains(finding));
        lemma_gather_contains(targets.len(), at, finding);
    }
}

/// Reference closure: cross-reference validation reports no hard error
/// exactly when every dependency of every package and every member of every
/// group names a package of the collection.
pub proof fn lemma_reference_closure(packages: Seq<PackageModel>, groups: Seq<PackageGroupModel>)
    ensures
        reference_errors(packages, groups).len() == 0 <==> references_closed(packages, groups),
{
    let known = declared_names(packages);
    let package_at = package_reference_errors_at(known, packages);
    let group_at = group_reference_errors_at(known, groups);
    lemma_gather_empty(packages.len(), package_at);
    lemma_gather_empty(groups.len(), group_at);
    assert forall|i: int| 0 <= i < packages.len() implies ((#[trigger] package_at(i)).len() == 0
        <==> {
        &&& forall|j: int|
            0 <= j < packages[i].dependencies.required.len() ==> declares(
                packages,
                #[trigger] packages[i].dependencies.required[j].package,
            )
        &&& forall|j: int|
            0 <= j < packages[i].dependencies.optional.len() ==> declares(
                packages,
                #[trigger] packages[i].dependencies.optional[j].package,
            )
    }) by {
        let package = packages[i];
        let required = dependency_targets(package.dependencies.required);
        let optional = dependency_targets(package.dependencies.optional);
        lemma_unresolved(known, Reference::RequiredDependency, package.name, required);
        lemma_unresolved(known, Reference::OptionalDependency, package.name, optional);
        assert forall|j: int| 0 <= j < required.len() implies (known.contains(
            #[trigger] required[j],
        ) <==> declares(packages, package.dependencies.required[j].package)) by {}
        assert forall|j: int| 0 <= j < optional.len() implies (known.contains(
            #[trigger] optional[j],
        ) <==> declares(packages, package.dependencies.optional[j].package)) by {}
        if package_at(i).len() == 0 {
            assert forall|j: int| 0 <= j < package.dependencies.required.len() implies declares(
                packages,
                #[trigger] package.dependencies.required[j].package,
            ) by {
                assert(known.contains(required[j]));
            }
            assert forall|j: int| 0 <= j < package.dependencies.optional.len() implies declares(
                packages,
                #[trigger] package.dependencies.optional[j].package,
            ) by {
                assert(known.contains(optional[j]));
            }
        }
    }
    assert forall|i: int| 0 <= i < groups.len() implies ((#[trigger] group_at(i)).len() == 0 <==> {
        &&& forall|j: int|
            0 <= j < groups[i].packages.required.len() ==> declares(
                packages,
                #[trigger] groups[i].packages.required[j],
            )
        &&& forall|j: int|
            0 <= j < groups[i].packages.optional.len() ==> declares(
                packages,
                #[trigger] groups[i].packages.optional[j],
            )
    }) by {
        let group = groups[i];
        lemma_unresolved(known, Reference::GroupRequired, group.id, group.packages.required);
        lemma_unresolved(known, Reference::GroupOptional, group.id, group.packages.optional);
    }
    if reference_errors(packages, groups).len() == 0 {
        assert forall|i: int, j: int|
            0 <= i < packages.len() && 0 <= j
                < packages[i].dependencies.required.len() implies declares(
            packages,
            #[trigger] packages[i].dependencies.required[j].package,
        ) by {
            assert(package_at(i).len() == 0);
        }
        assert forall|i: int, j: int|
            0 <= i < packages.len() && 0 <= j
                < packages[i].dependencies.optional.len() implies declares(
            packages,
            #[trigger] packages[i].dependencies.optional[j].package,
        ) by {
            assert(package_at(i).len() == 0);
        }
        assert forall|i: int, j: int|
            0 <= i < groups.len() && 0 <= j < groups[i].packages.required.len() implies declares(
            packages,
            #[trigger] groups[i].packages.required[j],
        ) by {
            assert(group_at(i).len() == 0);
        }
        assert forall|i: int, j: int|
            0 <= i < groups.len() && 0 <= j < groups[i].packages.optional.len() implies declares(
            packages,
            #[trigger] groups[i].packages.optional[j],
        ) by {
            assert(group_at(i).len() == 0);
        }
    }
    if references_closed(packages, groups) {
        assert forall|i: int| 0 <= i < packages.len() implies (#[trigger] package_at(i)).len()
            == 0 by {}
        assert forall|i: int| 0 <= i < groups.len() implies (#[trigger] group_at(i)).len()
            == 0 by {}
    }
}

/// A dependency that names no package of the collection is reported as a
/// hard error that holds the name of the package that depends and the name
/// that is missing.
pub proof fn lemma_dangling_dependency_reported(
    packages: Seq<PackageModel>,
    groups: Seq<PackageGroupModel>,
    i: int,
    j: int,
    optional: bool,
)
    requires
        0 <= i < packages.len(),
        0 <= j < (if optional {
            packages[i].dependencies.optional
        } else {
            packages[i].dependencies.required
        }).len(),
        !declares(
            packages,
            (if optional {
                packages[i].dependencies.optional
            } else {
                packages[i].dependencies.required
            })[j].package,
        ),
    ensures
        reference_errors(packages, groups).contains(
            IssueModel::UnknownDependency {
                package: packages[i].name,
                dependency: (if optional {
                    packages[i].dependencies.optional
                } else {
                    packages[i].dependencies.required
                })[j].package,
                optional,
            },
        ),
{
    let known = declared_names(packages);
    let package = packages[i];
    let list = if optional {
        package.dependencies.optional
    } else {
        package.dependencies.required
    };
    let kind = if optional {
        Reference::OptionalDependency
    } else {
        Reference::RequiredDependency
    };
    let finding = IssueModel::UnknownDependency {
        package: package.name,
        dependency: list[j].package,
        optional,
    };
    let targets = dependency_targets(list);
    let at = package_reference_errors_at(known, packages);
    lemma_unresolved(known, kind, package.name, targets);
    assert(!known.contains(targets[j]));
    let found = unresolved(known, kind, package.name, targets);
    assert(found.contains(finding));
    lemma_joined_contains(package_reference_errors(known, package), found, finding);
    assert(at(i).contains(finding));
    lemma_gather_contains(packages.len(), at, finding);
    lemma_joined_contains(
        reference_errors(packages, groups),
        gather(packages.len(), at),
        finding,
    );
}

/// A group member that names no package of the collection is reported as a
/// hard error that holds the identifier of the group and the name that is
/// missing.
pub proof fn lemma_dangling_member_reported(
    packages: Seq<PackageModel>,
    groups: Seq<PackageGroupModel>,
    i: int,
    j: int,
    optional: bool,
)
    requires
        0 <= i < groups.len(),
        0 <= j < (if optional {
            groups[i].packages.optional
        } else {
            groups[i].packages.required
        }).len(),
        !declares(
            packages,
            (if optional {
                groups[i].packages.optional
            } else {
                groups[i].packages.required
            })[j],
        ),
    ensures
        reference_errors(packages, groups).contains(
            IssueModel::UnknownGroupPackage {
                group: groups[i].id,
                package: (if optional {
                    groups[i].packages.optional
                } else {
                    groups[i].packages.required
                })[j],
                optional,
            },
        ),
{
    let known = declared_names(packages);
    let group = groups[i];
    let targets = if optional {
        group.packages.optional
    } else {
        group.packages.required
    };
    let kind = if optional {
        Reference::GroupOptional
    } else {
        Reference::GroupRequired
    };
    let finding = IssueModel::UnknownGroupPackage { group: group.id, package: targets[j], optional };
    let at = group_reference_errors_at(known, groups);
    lemma_unresolved(known, kind, group.id, targets);
    let found = unresolved(known, kind, group.id, targets);
    assert(found.contains(finding));
    lemma_joined_contains(group_reference_errors(known, group), found, finding);
    assert(at(i).contains(finding));
    lemma_gather_contains(groups.len(), at, finding);
    lemma_joined_contains(reference_errors(packages, groups), gather(groups.len(), at), finding);
}

/// What one part of a joined list holds, the whole list holds.
proof fn lemma_joined_contains(whole: Seq<IssueModel>, part: Seq<IssueModel>, finding: IssueModel)
    requires
        part.contains(finding),
        exists|other: Seq<IssueModel>| whole == part + other || whole == other + part,
    ensures
        whole.contains(finding),
{
    let other = choose|other: Seq<IssueModel>| whole == part + other || whole == other + part;
    let k = choose|k: int| 0 <= k < part.len() && part[k] == finding;
    if whole == part + other {
        assert(whole[k] == finding);
    } else {
        assert(whole[other.len() + k] == finding);
    }
}

} // verus!
