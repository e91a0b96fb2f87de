use heimdal_packages::issue::Issue;
use heimdal_packages::text::{format_decimal, is_valid_tag};

fn text(s: &str) -> String {
    s.to_string()
}

#[test]
fn tags_are_lowercase_letters_digits_and_hyphens() {
    assert!(is_valid_tag("cli"));
    assert!(is_valid_tag("version-control"));
    assert!(is_valid_tag("k8s"));
    assert!(is_valid_tag("-"));
    assert!(is_valid_tag("0"));
    assert!(is_valid_tag("az09-"));
    assert!(!is_valid_tag(""));
    assert!(!is_valid_tag("Foo_Bar"));
    assert!(!is_valid_tag("foo_bar"));
    assert!(!is_valid_tag("Foo"));
    assert!(!is_valid_tag("foo bar"));
    assert!(!is_valid_tag("foo."));
    assert!(!is_valid_tag("caf\u{e9}"));
    assert!(!is_valid_tag("\u{663}"));
    assert!(!is_valid_tag("a{"));
    assert!(!is_valid_tag("a`"));
    assert!(!is_valid_tag("a/"));
    assert!(!is_valid_tag("a:"));
}

#[test]
fn numbers_are_written_in_decimal() {
    assert_eq!(format_decimal(0), "0");
    assert_eq!(format_decimal(7), "7");
    assert_eq!(format_decimal(10), "10");
    assert_eq!(format_decimal(150), "150");
    assert_eq!(format_decimal(255), "255");
    assert_eq!(format_decimal(1234567890), "1234567890");
    assert_eq!(format_decimal(u64::MAX), "18446744073709551615");
}

#[test]
fn hard_errors_and_warnings_are_told_apart() {
    let errors = vec![
        Issue::Unparsable { path: text("p"), detail: text("d") },
        Issue::SchemaViolation { path: text("p"), constraint: text("c") },
        Issue::FilenameMismatch { path: text("p"), file_name: text("f"), package: text("n") },
        Issue::PopularityOutOfRange { path: text("p"), popularity: 101 },
        Issue::DuplicateName { name: text("n"), first_path: text("a"), path: text("b") },
        Issue::UnknownDependency { package: text("a"), dependency: text("b"), optional: true },
        Issue::UnknownGroupPackage { group: text("g"), package: text("b"), optional: false },
    ];
    let warnings = vec![
        Issue::MalformedTag { path: text("p"), tag: text("T") },
        Issue::UnknownAlternative { package: text("a"), alternative: text("b") },
        Issue::UnknownRelated { package: text("a"), related: text("b") },
        Issue::LowPlatformCoverage { package: text("a"), platforms: 1 },
    ];
    for error in &errors {
        assert!(error.is_error(), "{:?}", error);
    }
    for warning in &warnings {
        assert!(!warning.is_error(), "{:?}", warning);
    }
}

#[test]
fn every_finding_has_its_line() {
    assert_eq!(
        Issue::Unparsable { path: text("packages/a.yaml"), detail: text("no such file") }.message(),
        "packages/a.yaml: no such file"
    );
    assert_eq!(
        Issue::SchemaViolation {
            path: text("packages/a.yaml"),
            constraint: text("\"name\" is a required property"),
        }
        .message(),
        "packages/a.yaml: \"name\" is a required property"
    );
    assert_eq!(
        Issue::FilenameMismatch {
            path: text("packages/b.yaml"),
            file_name: text("b.yaml"),
            package: text("a"),
        }
        .message(),
        "packages/b.yaml: Filename 'b.yaml' doesn't match package name 'a' (expected 'a.yaml')"
    );
    assert_eq!(
        Issue::PopularityOutOfRange { path: text("packages/a.yaml"), popularity: 255 }.message(),
        "packages/a.yaml: Popularity 255 exceeds maximum of 100"
    );
    assert_eq!(
        Issue::DuplicateName { name: text("a"), first_path: text("x/a.yaml"), path: text("y/a.yaml") }
            .message(),
        "Duplicate package name 'a' in y/a.yaml (first seen in x/a.yaml)"
    );
    assert_eq!(
        Issue::UnknownDependency { package: text("a"), dependency: text("b"), optional: false }
            .message(),
        "Package 'a' has unknown required dependency: 'b'"
    );
    assert_eq!(
        Issue::UnknownDependency { package: text("a"), dependency: text("b"), optional: true }
            .message(),
        "Package 'a' has unknown optional dependency: 'b'"
    );
    assert_eq!(
        Issue::UnknownGroupPackage { group: text("g"), package: text("b"), optional: false }
            .message(),
        "Group 'g' references unknown required package: 'b'"
    );
    assert_eq!(
        Issue::UnknownGroupPackage { group: text("g"), package: text("b"), optional: true }
            .message(),
        "Group 'g' references unknown optional package: 'b'"
    );
    assert_eq!(
        Issue::MalformedTag { path: text("packages/a.yaml"), tag: text("A") }.message(),
        "packages/a.yaml: Tag 'A' should be lowercase with hyphens only"
    );
    assert_eq!(
        Issue::UnknownAlternative { package: text("a"), alternative: text("b") }.message(),
        "Package 'a' references unknown alternative: 'b'"
    );
    assert_eq!(
        Issue::UnknownRelated { package: text("a"), related: text("b") }.message(),
        "Package 'a' references unknown related package: 'b'"
    );
    assert_eq!(
        Issue::LowPlatformCoverage { package: text("a"), platforms: 0 }.message(),
        "Package 'a' has only 0 platform mapping(s) (recommended: at least 2)"
    );
}
