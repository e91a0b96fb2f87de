use heimdal_packages::issue::Issue;
use heimdal_packages::model::{
    Dependencies, Dependency, GroupPackages, Package, PackageGroup, PlatformOverride, Platforms,
    MAX_POPULARITY, MIN_PLATFORMS,
};
use heimdal_packages::pipeline::{compile, run, validate};
use heimdal_packages::records::{
    is_named_after, load_groups, load_packages, validate_groups, validate_packages,
};
use heimdal_packages::closure::Reference;
use heimdal_packages::references::{validate_cross_references, validate_references, NameSet};
use heimdal_packages::report::{render, Strategy, ValidationReport};
use heimdal_packages::source::{Loaded, LoadedPackage, SourceFile};
use heimdal_packages::uniqueness::{
    check_duplicates, inspect_duplicates, into_packages, validate_platform_coverage,
};

fn text(s: &str) -> String {
    s.to_string()
}

fn package(name: &str) -> Package {
    Package {
        name: text(name),
        description: format!("The {} package", name),
        category: text("other"),
        popularity: 50,
        platforms: Platforms {
            apt: Some(text(name)),
            brew: Some(text(name)),
            dnf: None,
            pacman: None,
            mas: None,
        },
        dependencies: Dependencies { required: vec![], optional: vec![] },
        alternatives: vec![],
        related: vec![],
        tags: vec![],
        website: None,
        license: None,
        source: None,
    }
}

fn depends_on(mut package: Package, required: &[&str], optional: &[&str]) -> Package {
    for name in required {
        package
            .dependencies
            .required
            .push(Dependency { package: text(name), reason: text("needed") });
    }
    for name in optional {
        package
            .dependencies
            .optional
            .push(Dependency { package: text(name), reason: text("nice to have") });
    }
    package
}

fn group(id: &str, required: &[&str], optional: &[&str]) -> PackageGroup {
    PackageGroup {
        id: text(id),
        name: format!("Group {}", id),
        description: text("A bundle"),
        category: text("other"),
        packages: GroupPackages {
            required: required.iter().map(|name| text(name)).collect(),
            optional: optional.iter().map(|name| text(name)).collect(),
        },
        platform_overrides: vec![],
    }
}

fn file<T>(path: &str, entity: T) -> SourceFile<T> {
    let file_name = path.rsplit('/').next().unwrap();
    SourceFile { path: text(path), file_name: text(file_name), loaded: Loaded::Entity(entity) }
}

fn package_file(package: Package) -> SourceFile<Package> {
    let path = format!("packages/{}.yaml", package.name);
    file(&path, package)
}

fn malformed<T>(path: &str, detail: &str) -> SourceFile<T> {
    let file_name = path.rsplit('/').next().unwrap();
    SourceFile {
        path: text(path),
        file_name: text(file_name),
        loaded: Loaded::Malformed { detail: text(detail) },
    }
}

fn rejected<T>(path: &str, violations: &[&str]) -> SourceFile<T> {
    let file_name = path.rsplit('/').next().unwrap();
    SourceFile {
        path: text(path),
        file_name: text(file_name),
        loaded: Loaded::Rejected { violations: violations.iter().map(|v| text(v)).collect() },
    }
}

fn loaded(path: &str, package: Package) -> LoadedPackage {
    LoadedPackage { path: text(path), package }
}

// Scenarios

#[test]
fn missing_required_dependency_is_one_hard_error_and_stops_compilation() {
    let files = vec![package_file(depends_on(package("a"), &["b"], &[]))];
    let expected = Issue::UnknownDependency {
        package: text("a"),
        dependency: text("b"),
        optional: false,
    };

    let validation = validate(files.clone(), vec![]);
    assert_eq!(validation.report.errors, vec![expected.clone()]);
    assert!(validation.report.warnings.is_empty());
    assert!(validation.report.has_failed());
    assert_eq!(
        validation.report.errors[0].message(),
        "Package 'a' has unknown required dependency: 'b'"
    );

    assert_eq!(compile(files, vec![], text("2024-01-01T00:00:00+00:00")), Err(expected));
}

#[test]
fn two_files_declaring_one_name_are_reported_with_both_paths() {
    let files = vec![file("packages/x.yaml", package("dup")), file("packages/y.yaml", package("dup"))];
    let validation = validate(files, vec![]);
    let duplicate = Issue::DuplicateName {
        name: text("dup"),
        first_path: text("packages/x.yaml"),
        path: text("packages/y.yaml"),
    };
    assert_eq!(
        validation.report.errors,
        vec![
            Issue::FilenameMismatch {
                path: text("packages/x.yaml"),
                file_name: text("x.yaml"),
                package: text("dup"),
            },
            Issue::FilenameMismatch {
                path: text("packages/y.yaml"),
                file_name: text("y.yaml"),
                package: text("dup"),
            },
            duplicate.clone(),
        ]
    );
    assert_eq!(
        duplicate.message(),
        "Duplicate package name 'dup' in packages/y.yaml (first seen in packages/x.yaml)"
    );
    assert_eq!(validation.packages.len(), 2);
}

#[test]
fn the_second_occurrence_is_the_duplicate_when_stopping_at_the_first_error() {
    let entries = vec![loaded("x.yaml", package("dup")), loaded("y.yaml", package("dup"))];
    let mut report = ValidationReport::new();
    let go_on = inspect_duplicates(&entries, Strategy::FailFast, &mut report);
    assert!(!go_on);
    assert_eq!(
        report.errors,
        vec![Issue::DuplicateName {
            name: text("dup"),
            first_path: text("x.yaml"),
            path: text("y.yaml"),
        }]
    );

    let files = vec![
        file("packages/one/dup.yaml", package("dup")),
        file("packages/two/dup.yaml", package("dup")),
    ];
    assert_eq!(
        compile(files, vec![], text("now")),
        Err(Issue::DuplicateName {
            name: text("dup"),
            first_path: text("packages/one/dup.yaml"),
            path: text("packages/two/dup.yaml"),
        })
    );
}

#[test]
fn popularity_above_the_maximum_is_one_hard_error_naming_the_bound() {
    let mut popular = package("star");
    popular.popularity = 150;
    let validation = validate(vec![package_file(popular)], vec![]);
    assert_eq!(
        validation.report.errors,
        vec![Issue::PopularityOutOfRange { path: text("packages/star.yaml"), popularity: 150 }]
    );
    assert!(validation.report.warnings.is_empty());
    assert_eq!(
        validation.report.errors[0].message(),
        "packages/star.yaml: Popularity 150 exceeds maximum of 100"
    );
}

#[test]
fn a_malformed_tag_is_one_warning_and_the_data_still_compiles() {
    let mut tagged = package("tool");
    tagged.tags = vec![text("Foo_Bar")];
    let files = vec![package_file(tagged)];

    let validation = validate(files.clone(), vec![]);
    assert!(validation.report.errors.is_empty());
    assert!(!validation.report.has_failed());
    assert_eq!(
        validation.report.warnings,
        vec![Issue::MalformedTag { path: text("packages/tool.yaml"), tag: text("Foo_Bar") }]
    );
    assert_eq!(
        validation.report.warnings[0].message(),
        "packages/tool.yaml: Tag 'Foo_Bar' should be lowercase with hyphens only"
    );

    let database = compile(files, vec![], text("now")).expect("warnings do not block");
    assert_eq!(database.packages.len(), 1);
    assert_eq!(database.packages[0].tags, vec![text("Foo_Bar")]);
}

// Loading

#[test]
fn popularity_at_the_maximum_is_accepted() {
    assert_eq!(MAX_POPULARITY, 100);
    let mut full = package("full");
    full.popularity = 100;
    let mut over = package("over");
    over.popularity = 101;
    let mut none = package("none");
    none.popularity = 0;
    let validation = validate(vec![package_file(full), package_file(over), package_file(none)], vec![]);
    assert_eq!(
        validation.report.errors,
        vec![Issue::PopularityOutOfRange { path: text("packages/over.yaml"), popularity: 101 }]
    );
}

#[test]
fn a_file_must_be_named_after_its_package() {
    assert!(is_named_after(&text("git.yaml"), &text("git")));
    assert!(!is_named_after(&text("git.yml"), &text("git")));
    assert!(!is_named_after(&text("Git.yaml"), &text("git")));
    assert!(!is_named_after(&text("git"), &text("git")));
    assert!(is_named_after(&text(".yaml"), &text("")));

    let mut report = ValidationReport::new();
    let packages = validate_packages(vec![file("packages/tools/gti.yaml", package("git"))], &mut report);
    let mismatch = Issue::FilenameMismatch {
        path: text("packages/tools/gti.yaml"),
        file_name: text("gti.yaml"),
        package: text("git"),
    };
    assert_eq!(report.errors, vec![mismatch.clone()]);
    assert_eq!(
        mismatch.message(),
        "packages/tools/gti.yaml: Filename 'gti.yaml' doesn't match package name 'git' (expected 'git.yaml')"
    );
    assert_eq!(packages.len(), 1);
}

#[test]
fn a_misnamed_file_is_still_checked_for_the_rest() {
    let mut odd = package("git");
    odd.popularity = 200;
    odd.tags = vec![text("VCS")];
    let mut report = ValidationReport::new();
    validate_packages(vec![file("packages/gti.yaml", odd)], &mut report);
    assert_eq!(
        report.errors,
        vec![
            Issue::FilenameMismatch {
                path: text("packages/gti.yaml"),
                file_name: text("gti.yaml"),
                package: text("git"),
            },
            Issue::PopularityOutOfRange { path: text("packages/gti.yaml"), popularity: 200 },
        ]
    );
    assert_eq!(
        report.warnings,
        vec![Issue::MalformedTag { path: text("packages/gti.yaml"), tag: text("VCS") }]
    );
}

#[test]
fn malformed_and_rejected_files_are_kept_out_of_the_collection() {
    let files = vec![
        package_file(package("a")),
        malformed("packages/b.yaml", "Failed to parse YAML: mapping values are not allowed"),
        rejected("packages/c.yaml", &["\"popularity\" is a required property", "5 is not of type \"string\""]),
        package_file(package("d")),
    ];
    let mut report = ValidationReport::new();
    let packages = validate_packages(files, &mut report);
    assert_eq!(
        report.errors,
        vec![
            Issue::Unparsable {
                path: text("packages/b.yaml"),
                detail: text("Failed to parse YAML: mapping values are not allowed"),
            },
            Issue::SchemaViolation {
                path: text("packages/c.yaml"),
                constraint: text("\"popularity\" is a required property"),
            },
            Issue::SchemaViolation {
                path: text("packages/c.yaml"),
                constraint: text("5 is not of type \"string\""),
            },
        ]
    );
    let names: Vec<&str> = packages.iter().map(|entry| entry.package.name.as_str()).collect();
    assert_eq!(names, vec!["a", "d"]);
    let paths: Vec<&str> = packages.iter().map(|entry| entry.path.as_str()).collect();
    assert_eq!(paths, vec!["packages/a.yaml", "packages/d.yaml"]);
    assert_eq!(
        render(&report.errors),
        vec![
            text("packages/b.yaml: Failed to parse YAML: mapping values are not allowed"),
            text("packages/c.yaml: \"popularity\" is a required property"),
            text("packages/c.yaml: 5 is not of type \"string\""),
        ]
    );
}

#[test]
fn a_record_excluded_by_its_schema_cannot_satisfy_a_dependency() {
    let files = vec![
        package_file(depends_on(package("a"), &["b"], &[])),
        rejected("packages/b.yaml", &["\"name\" is a required property"]),
    ];
    let validation = validate(files, vec![]);
    assert_eq!(
        validation.report.errors,
        vec![
            Issue::SchemaViolation {
                path: text("packages/b.yaml"),
                constraint: text("\"name\" is a required property"),
            },
            Issue::UnknownDependency {
                package: text("a"),
                dependency: text("b"),
                optional: false,
            },
        ]
    );
}

#[test]
fn load_packages_stops_at_the_first_hard_error() {
    let files = vec![
        package_file(package("a")),
        rejected("packages/b.yaml", &["first", "second"]),
        malformed("packages/c.yaml", "broken"),
    ];
    assert_eq!(
        load_packages(files),
        Err(Issue::SchemaViolation { path: text("packages/b.yaml"), constraint: text("first") })
    );

    let mut wrong = package("wrong");
    wrong.popularity = 255;
    assert_eq!(
        load_packages(vec![file("packages/right.yaml", wrong)]),
        Err(Issue::FilenameMismatch {
            path: text("packages/right.yaml"),
            file_name: text("right.yaml"),
            package: text("wrong"),
        })
    );

    let good = load_packages(vec![package_file(package("a")), package_file(package("b"))]).unwrap();
    assert_eq!(good.len(), 2);
    assert_eq!(good[1], loaded("packages/b.yaml", package("b")));
}

#[test]
fn load_packages_refuses_a_name_that_is_declared_twice() {
    let files = vec![
        file("packages/one/dup.yaml", package("dup")),
        package_file(package("other")),
        file("packages/two/dup.yaml", package("dup")),
    ];
    assert_eq!(
        load_packages(files),
        Err(Issue::DuplicateName {
            name: text("dup"),
            first_path: text("packages/one/dup.yaml"),
            path: text("packages/two/dup.yaml"),
        })
    );

    // An error in a file comes before a repeated name.
    let mut loud = package("loud");
    loud.popularity = 101;
    let files = vec![
        file("packages/one/dup.yaml", package("dup")),
        file("packages/two/dup.yaml", package("dup")),
        package_file(loud),
    ];
    assert_eq!(
        load_packages(files),
        Err(Issue::PopularityOutOfRange { path: text("packages/loud.yaml"), popularity: 101 })
    );
}

#[test]
fn a_record_rejected_without_a_named_violation_is_still_a_hard_error() {
    let expected = Issue::SchemaViolation {
        path: text("packages/a.yaml"),
        constraint: text("rejected without a named constraint"),
    };
    let mut report = ValidationReport::new();
    let packages = validate_packages(vec![rejected("packages/a.yaml", &[])], &mut report);
    assert!(packages.is_empty());
    assert_eq!(report.errors, vec![expected.clone()]);
    assert_eq!(expected.message(), "packages/a.yaml: rejected without a named constraint");

    assert_eq!(load_packages(vec![rejected("packages/a.yaml", &[])]), Err(expected.clone()));
    assert!(compile(vec![rejected("packages/a.yaml", &[])], vec![], text("now")).is_err());

    let mut report = ValidationReport::new();
    let groups = validate_groups(vec![rejected("groups/g.yaml", &[])], &mut report);
    assert!(groups.is_empty());
    assert_eq!(
        report.errors,
        vec![Issue::SchemaViolation {
            path: text("groups/g.yaml"),
            constraint: text("rejected without a named constraint"),
        }]
    );
    assert!(validate(vec![rejected("packages/a.yaml", &[])], vec![]).report.has_failed());
}

#[test]
fn no_files_are_no_records() {
    assert_eq!(load_packages(vec![]), Ok(vec![]));
    assert_eq!(load_groups(vec![]), Ok(vec![]));
    let validation = validate(vec![], vec![]);
    assert_eq!(validation.report, ValidationReport::new());
    assert!(!validation.report.has_failed());
    let database = compile(vec![], vec![], text("2024-05-01T12:00:00+00:00")).unwrap();
    assert_eq!(database.version, 1);
    assert_eq!(database.last_updated, "2024-05-01T12:00:00+00:00");
    assert!(database.packages.is_empty());
    assert!(database.groups.is_empty());
    assert!(database.index_by_name.entries.is_empty());
    assert!(database.index_by_category.buckets.is_empty());
    assert!(database.index_by_tag.buckets.is_empty());
}

#[test]
fn group_files_are_loaded_without_an_identity_check() {
    let files = vec![
        file("groups/anything.yaml", group("dev", &[], &[])),
        malformed("groups/bad.yaml", "Failed to parse group: missing field `id`"),
        file("groups/more.yaml", group("ops", &[], &[])),
    ];
    let mut report = ValidationReport::new();
    let groups = validate_groups(files.clone(), &mut report);
    assert_eq!(
        report.errors,
        vec![Issue::Unparsable {
            path: text("groups/bad.yaml"),
            detail: text("Failed to parse group: missing field `id`"),
        }]
    );
    assert!(report.warnings.is_empty());
    let ids: Vec<&str> = groups.iter().map(|group| group.id.as_str()).collect();
    assert_eq!(ids, vec!["dev", "ops"]);

    assert_eq!(
        load_groups(files),
        Err(Issue::Unparsable {
            path: text("groups/bad.yaml"),
            detail: text("Failed to parse group: missing field `id`"),
        })
    );
}

// Duplicates

#[test]
fn every_repeat_names_the_first_file_of_its_name() {
    let entries = vec![
        loaded("1.yaml", package("a")),
        loaded("2.yaml", package("b")),
        loaded("3.yaml", package("a")),
        loaded("4.yaml", package("c")),
        loaded("5.yaml", package("a")),
        loaded("6.yaml", package("b")),
    ];
    let mut report = ValidationReport::new();
    check_duplicates(&entries, &mut report);
    assert_eq!(
        report.errors,
        vec![
            Issue::DuplicateName { name: text("a"), first_path: text("1.yaml"), path: text("3.yaml") },
            Issue::DuplicateName { name: text("a"), first_path: text("1.yaml"), path: text("5.yaml") },
            Issue::DuplicateName { name: text("b"), first_path: text("2.yaml"), path: text("6.yaml") },
        ]
    );
    assert!(report.warnings.is_empty());
}

#[test]
fn distinct_names_are_no_duplicates() {
    let entries = vec![loaded("a.yaml", package("a")), loaded("A.yaml", package("A"))];
    let mut report = ValidationReport::new();
    check_duplicates(&entries, &mut report);
    assert_eq!(report, ValidationReport::new());
    assert!(inspect_duplicates(&entries, Strategy::FailFast, &mut report));
    assert_eq!(into_packages(entries), vec![package("a"), package("A")]);
}

// Cross-references

#[test]
fn dependencies_and_group_members_must_resolve_and_advisory_references_should() {
    let mut a = depends_on(package("a"), &["b", "ghost"], &["phantom", "b"]);
    a.alternatives = vec![text("b"), text("nothing")];
    a.related = vec![text("nowhere"), text("a")];
    let b = package("b");
    let packages = vec![a, b];
    let groups = vec![
        group("dev", &["a", "missing"], &["b"]),
        group("ops", &["b"], &["absent", "a", "gone"]),
    ];

    let mut report = ValidationReport::new();
    validate_cross_references(&packages, &groups, &mut report);
    assert_eq!(
        report.errors,
        vec![
            Issue::UnknownDependency { package: text("a"), dependency: text("ghost"), optional: false },
            Issue::UnknownDependency { package: text("a"), dependency: text("phantom"), optional: true },
            Issue::UnknownGroupPackage { group: text("dev"), package: text("missing"), optional: false },
            Issue::UnknownGroupPackage { group: text("ops"), package: text("absent"), optional: true },
            Issue::UnknownGroupPackage { group: text("ops"), package: text("gone"), optional: true },
        ]
    );
    assert_eq!(
        report.warnings,
        vec![
            Issue::UnknownAlternative { package: text("a"), alternative: text("nothing") },
            Issue::UnknownRelated { package: text("a"), related: text("nowhere") },
        ]
    );
    assert_eq!(
        render(&report.errors),
        vec![
            text("Package 'a' has unknown required dependency: 'ghost'"),
            text("Package 'a' has unknown optional dependency: 'phantom'"),
            text("Group 'dev' references unknown required package: 'missing'"),
            text("Group 'ops' references unknown optional package: 'absent'"),
            text("Group 'ops' references unknown optional package: 'gone'"),
        ]
    );
    assert_eq!(
        render(&report.warnings),
        vec![
            text("Package 'a' references unknown alternative: 'nothing'"),
            text("Package 'a' references unknown related package: 'nowhere'"),
        ]
    );

    assert_eq!(
        validate_references(&packages, &groups),
        Err(Issue::UnknownDependency {
            package: text("a"),
            dependency: text("ghost"),
            optional: false,
        })
    );
}

#[test]
fn closed_references_pass_and_advisory_ones_never_block() {
    let mut a = depends_on(package("a"), &["b"], &["a"]);
    a.alternatives = vec![text("unknown")];
    let packages = vec![a, package("b")];
    let groups = vec![group("all", &["a", "b"], &[])];
    assert_eq!(validate_references(&packages, &groups), Ok(()));

    let mut report = ValidationReport::new();
    validate_cross_references(&packages, &groups, &mut report);
    assert!(report.errors.is_empty());
    assert_eq!(report.warnings.len(), 1);
    assert!(!report.has_failed());
}

#[test]
fn the_first_dangling_reference_of_a_group_stops_a_fail_fast_run() {
    let packages = vec![package("a")];
    let groups = vec![group("g", &["a"], &["zz"]), group("h", &["yy"], &[])];
    assert_eq!(
        validate_references(&packages, &groups),
        Err(Issue::UnknownGroupPackage { group: text("g"), package: text("zz"), optional: true })
    );
}

#[test]
fn platform_overrides_are_not_checked_against_the_packages() {
    let mut bundle = group("dev", &["a"], &[]);
    bundle.platform_overrides = vec![PlatformOverride {
        platform: text("macos"),
        packages: vec![text("not-a-registered-package")],
        casks: vec![text("some-cask")],
    }];
    assert_eq!(validate_references(&vec![package("a")], &vec![bundle]), Ok(()));
}

#[test]
fn the_name_set_holds_exactly_the_declared_names() {
    let known = NameSet::of_packages(&vec![package("a"), package("b"), package("a")]);
    assert!(known.contains("a"));
    assert!(known.contains("b"));
    assert!(!known.contains("c"));
    assert!(!known.contains(""));
    assert!(!NameSet::of_packages(&vec![]).contains("a"));
}

#[test]
fn only_dependencies_and_group_members_are_binding() {
    assert!(Reference::RequiredDependency.binds());
    assert!(Reference::OptionalDependency.binds());
    assert!(Reference::GroupRequired.binds());
    assert!(Reference::GroupOptional.binds());
    assert!(!Reference::Alternative.binds());
    assert!(!Reference::Related.binds());
    assert!(Reference::GroupOptional.report_unresolved(&text("g"), &text("p")).is_error());
    assert!(!Reference::Related.report_unresolved(&text("a"), &text("b")).is_error());
}

// Platform coverage

#[test]
fn a_package_on_fewer_than_two_platforms_is_a_warning() {
    assert_eq!(MIN_PLATFORMS, 2);
    let mut none = package("none");
    none.platforms = Platforms { apt: None, brew: None, dnf: None, pacman: None, mas: None };
    let mut one = package("one");
    one.platforms = Platforms { apt: None, brew: None, dnf: Some(text("one")), pacman: None, mas: None };
    let mut store = package("store");
    store.platforms = Platforms { apt: None, brew: None, dnf: None, pacman: None, mas: Some(42) };
    let two = package("two");
    let mut all = package("all");
    all.platforms = Platforms {
        apt: Some(text("f")),
        brew: Some(text("f")),
        dnf: Some(text("f")),
        pacman: Some(text("f")),
        mas: Some(7),
    };
    assert_eq!(none.platforms.coverage(), 0);
    assert_eq!(one.platforms.coverage(), 1);
    assert_eq!(store.platforms.coverage(), 1);
    assert_eq!(two.platforms.coverage(), 2);
    assert_eq!(all.platforms.coverage(), 5);

    let mut report = ValidationReport::new();
    validate_platform_coverage(&vec![none, one, store, two, all], &mut report);
    assert!(report.errors.is_empty());
    assert_eq!(
        report.warnings,
        vec![
            Issue::LowPlatformCoverage { package: text("none"), platforms: 0 },
            Issue::LowPlatformCoverage { package: text("one"), platforms: 1 },
            Issue::LowPlatformCoverage { package: text("store"), platforms: 1 },
        ]
    );
    assert_eq!(
        render(&report.warnings),
        vec![
            text("Package 'none' has only 0 platform mapping(s) (recommended: at least 2)"),
            text("Package 'one' has only 1 platform mapping(s) (recommended: at least 2)"),
            text("Package 'store' has only 1 platform mapping(s) (recommended: at least 2)"),
        ]
    );
}

#[test]
fn the_store_identifier_counts_as_a_platform() {
    let mut a = package("a");
    a.platforms = Platforms {
        apt: Some(text("a")),
        brew: None,
        dnf: None,
        pacman: None,
        mas: Some(497799835),
    };
    assert_eq!(a.platforms.coverage(), 2);
    let mut report = ValidationReport::new();
    validate_platform_coverage(&vec![a.clone()], &mut report);
    assert_eq!(report, ValidationReport::new());
    let validation = validate(vec![package_file(a)], vec![]);
    assert!(validation.report.warnings.is_empty());
    assert!(validation.report.errors.is_empty());
}

// The whole run

#[test]
fn a_collecting_run_reports_the_checks_in_order() {
    let mut a = depends_on(package("a"), &["zzz"], &[]);
    a.tags = vec![text("ok-tag"), text("Bad Tag")];
    a.related = vec![text("nobody")];
    a.popularity = 101;
    let mut lonely = package("lonely");
    lonely.platforms.brew = None;
    let package_files = vec![
        package_file(a),
        malformed("packages/broken.yaml", "not a record"),
        file("packages/copy/a.yaml", package("a")),
        package_file(lonely),
    ];
    let group_files = vec![
        rejected("groups/bad.yaml", &["no id"]),
        file("groups/dev.yaml", group("dev", &["a", "b"], &[])),
    ];
    let validation = validate(package_files.clone(), group_files.clone());
    assert_eq!(
        validation.report.errors,
        vec![
            Issue::PopularityOutOfRange { path: text("packages/a.yaml"), popularity: 101 },
            Issue::Unparsable { path: text("packages/broken.yaml"), detail: text("not a record") },
            Issue::SchemaViolation { path: text("groups/bad.yaml"), constraint: text("no id") },
            Issue::DuplicateName {
                name: text("a"),
                first_path: text("packages/a.yaml"),
                path: text("packages/copy/a.yaml"),
            },
            Issue::UnknownDependency { package: text("a"), dependency: text("zzz"), optional: false },
            Issue::UnknownGroupPackage { group: text("dev"), package: text("b"), optional: false },
        ]
    );
    assert_eq!(
        validation.report.warnings,
        vec![
            Issue::MalformedTag { path: text("packages/a.yaml"), tag: text("Bad Tag") },
            Issue::UnknownRelated { package: text("a"), related: text("nobody") },
            Issue::LowPlatformCoverage { package: text("lonely"), platforms: 1 },
        ]
    );
    assert_eq!(validation.packages.len(), 3);
    assert_eq!(validation.groups.len(), 1);
    assert!(validation.report.has_failed());

    // Stopping at the first error gives the first error of the collecting run.
    assert_eq!(
        compile(package_files, group_files, text("now")),
        Err(validation.report.errors[0].clone())
    );
}

#[test]
fn validating_twice_gives_the_same_report() {
    let build = || {
        let mut a = depends_on(package("a"), &["missing"], &["b"]);
        a.tags = vec![text("UPPER")];
        (
            vec![package_file(a), package_file(package("b")), malformed("packages/c.yaml", "bad")],
            vec![file("groups/g.yaml", group("g", &["nope"], &[]))],
        )
    };
    let (packages, groups) = build();
    let first = validate(packages, groups);
    let (packages, groups) = build();
    let second = validate(packages, groups);
    assert_eq!(first.report, second.report);
    assert_eq!(render(&first.report.errors), render(&second.report.errors));
    assert_eq!(render(&first.report.warnings), render(&second.report.warnings));
    assert_eq!(first.report.errors.len(), 3);
}

#[test]
fn a_fail_fast_run_records_one_error_and_no_warnings() {
    let mut a = package("a");
    a.tags = vec![text("Bad")];
    a.platforms.apt = None;
    let files = vec![package_file(a), package_file(depends_on(package("b"), &["x", "y"], &[]))];
    let mut report = ValidationReport::new();
    let (go_on, _, _) = run(files.clone(), vec![], Strategy::FailFast, &mut report);
    assert!(!go_on);
    assert_eq!(
        report.errors,
        vec![Issue::UnknownDependency { package: text("b"), dependency: text("x"), optional: false }]
    );
    assert!(report.warnings.is_empty());

    let mut collected = ValidationReport::new();
    let (go_on, packages, groups) = run(files, vec![], Strategy::CollectAll, &mut collected);
    assert!(go_on);
    assert_eq!(collected.errors.len(), 2);
    assert_eq!(collected.warnings.len(), 2);
    assert_eq!(packages.len(), 2);
    assert!(groups.is_empty());
}

#[test]
fn a_report_passed_along_keeps_what_it_held() {
    let mut report = ValidationReport::new();
    assert!(!report.fail(
        Strategy::FailFast,
        Issue::Unparsable { path: text("p"), detail: text("d") }
    ));
    report.warn(Strategy::FailFast, Issue::MalformedTag { path: text("p"), tag: text("T") });
    report.warn(Strategy::CollectAll, Issue::MalformedTag { path: text("p"), tag: text("U") });
    assert!(report.fail(
        Strategy::CollectAll,
        Issue::Unparsable { path: text("q"), detail: text("e") }
    ));
    validate_platform_coverage(&vec![], &mut report);
    check_duplicates(&vec![], &mut report);
    assert_eq!(report.errors.len(), 2);
    assert_eq!(report.warnings, vec![Issue::MalformedTag { path: text("p"), tag: text("U") }]);
    assert_eq!(
        report.into_first_error(),
        Some(Issue::Unparsable { path: text("p"), detail: text("d") })
    );
    assert_eq!(ValidationReport::new().into_first_error(), None);
    assert!(Strategy::CollectAll.collects());
    assert!(!Strategy::FailFast.collects());
}

#[test]
fn compiling_valid_files_gives_the_collections_in_the_order_of_the_files() {
    let package_files = vec![
        package_file(depends_on(package("zsh"), &["git"], &[])),
        package_file(package("git")),
    ];
    let group_files = vec![file("groups/shell.yaml", group("shell", &["zsh"], &["git"]))];
    let database = compile(package_files, group_files, text("2024-01-01T00:00:00+00:00")).unwrap();
    let names: Vec<&str> = database.packages.iter().map(|p| p.name.as_str()).collect();
    assert_eq!(names, vec!["zsh", "git"]);
    assert_eq!(database.groups, vec![group("shell", &["zsh"], &["git"])]);
    assert_eq!(database.index_by_name.get("git"), Some(1));
    assert_eq!(database.index_by_name.get("zsh"), Some(0));
    assert_eq!(database.index_by_name.get("fish"), None);
}
