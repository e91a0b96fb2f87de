use heimdal_packages::layout::{
    is_record_file_name, required_directories, CHECKSUM_FILE, DATABASE_FILE, GROUPS_DIRECTORY,
    GROUP_SCHEMA, OUTPUT_DIRECTORY, PACKAGES_DIRECTORY, PACKAGE_SCHEMA,
};

#[test]
fn test_required_directories_exist() {
    let required_dirs = [
        "packages",
        "groups",
        "profiles",
        "mappings",
        "dependencies",
        "suggestions",
        "templates",
        "schemas",
        "scripts",
    ];

    let layout = required_directories();
    for dir in &required_dirs {
        assert!(
            layout.contains(dir),
            "Required directory '{}' does not exist",
            dir
        );
    }
    assert_eq!(layout.len(), required_dirs.len());
}

#[test]
fn the_layout_names_the_inputs_and_the_outputs() {
    assert_eq!(PACKAGES_DIRECTORY, "packages");
    assert_eq!(GROUPS_DIRECTORY, "groups");
    assert_eq!(PACKAGE_SCHEMA, "schemas/package.schema.json");
    assert_eq!(GROUP_SCHEMA, "schemas/group.schema.json");
    assert_eq!(OUTPUT_DIRECTORY, "target");
    assert_eq!(DATABASE_FILE, "target/packages.db");
    assert_eq!(CHECKSUM_FILE, "target/packages.db.sha256");
}

#[test]
fn record_files_end_in_yaml_and_have_a_stem() {
    assert!(is_record_file_name("git.yaml"));
    assert!(is_record_file_name("a.b.yaml"));
    assert!(is_record_file_name("..yaml"));
    assert!(is_record_file_name("é.yaml"));
    assert!(!is_record_file_name(".yaml"));
    assert!(!is_record_file_name("yaml"));
    assert!(!is_record_file_name("git.yml"));
    assert!(!is_record_file_name("git.yaml.bak"));
    assert!(!is_record_file_name("git.YAML"));
    assert!(!is_record_file_name(""));
}
