use heimdal_packages::schema::{
    describe_failure, is_definition_reference, judge, load, load_record, Conformance, SchemaError,
    SchemaValidator,
};
use heimdal_packages::source::{Loaded, SourceFile};

fn text(s: &str) -> String {
    s.to_string()
}

const PACKAGE_SCHEMA: &str = r#"{
    "$schema": "http://json-schema.org/draft-07/schema#",
    "type": "object",
    "required": ["name", "popularity"],
    "properties": {
        "name": { "type": "string", "minLength": 1 },
        "popularity": { "type": "integer", "minimum": 0, "maximum": 100 },
        "tags": { "type": "array", "items": { "type": "string", "pattern": "^[a-z0-9-]+$" } }
    },
    "additionalProperties": false
}"#;

fn validator() -> SchemaValidator {
    match SchemaValidator::compile(PACKAGE_SCHEMA) {
        Ok(validator) => validator,
        Err(error) => panic!("the schema should compile: {:?}", error),
    }
}

#[test]
fn a_schema_compiles_from_its_text() {
    assert!(SchemaValidator::compile(PACKAGE_SCHEMA).is_ok());
    assert!(SchemaValidator::compile("{}").is_ok());
    assert!(SchemaValidator::compile("true").is_ok());
}

#[test]
fn text_that_is_not_json_is_no_schema() {
    match SchemaValidator::compile("{ not json") {
        Err(SchemaError::NotJson { detail }) => assert!(!detail.is_empty()),
        _ => panic!("expected a JSON error"),
    }
    match SchemaValidator::compile("") {
        Err(SchemaError::NotJson { .. }) => {}
        _ => panic!("expected a JSON error"),
    }
}

#[test]
fn json_that_is_not_a_schema_is_refused() {
    match SchemaValidator::compile(r#"{ "type": 12 }"#) {
        Err(SchemaError::NotSchema { detail }) => assert!(!detail.is_empty()),
        _ => panic!("expected a schema error"),
    }
}

#[test]
fn a_conforming_record_conforms() {
    let verdict = validator().check("name: git\npopularity: 95\ntags:\n  - cli\n  - version-control\n");
    assert_eq!(verdict, Conformance::Conforms);
}

#[test]
fn each_violated_constraint_is_reported() {
    match validator().check("name: git\npopularity: 150\n") {
        Conformance::Rejected { violations } => {
            assert_eq!(violations, vec![text("150 is greater than the maximum of 100")]);
        }
        other => panic!("expected a rejection, got {:?}", other),
    }
    match validator().check("popularity: high\nextra: 1\n") {
        Conformance::Rejected { violations } => {
            assert_eq!(violations.len(), 3);
            assert!(violations.contains(&text("\"name\" is a required property")));
            assert!(violations.contains(&text("\"high\" is not of type \"integer\"")));
        }
        other => panic!("expected a rejection, got {:?}", other),
    }
    match validator().check("- a\n- list\n") {
        Conformance::Rejected { violations } => assert_eq!(violations.len(), 1),
        other => panic!("expected a rejection, got {:?}", other),
    }
}

#[test]
fn text_that_is_not_yaml_is_malformed() {
    match validator().check("name: [unclosed\n") {
        Conformance::Malformed { detail } => {
            assert!(detail.starts_with("Failed to parse YAML: "), "{}", detail);
            assert!(detail.len() > "Failed to parse YAML: ".len());
        }
        other => panic!("expected a malformed document, got {:?}", other),
    }
}

#[test]
fn yaml_without_a_json_form_is_malformed() {
    match validator().check("? [a, b]\n: value\n") {
        Conformance::Malformed { detail } => {
            assert!(detail.starts_with("Failed to convert YAML to JSON: "), "{}", detail);
        }
        other => panic!("expected a malformed document, got {:?}", other),
    }
}

#[test]
fn a_validator_checks_any_number_of_records() {
    let validator = validator();
    assert_eq!(validator.check("name: a\npopularity: 1\n"), Conformance::Conforms);
    assert!(matches!(validator.check("name: a\n"), Conformance::Rejected { .. }));
    assert_eq!(validator.check("name: b\npopularity: 2\n"), Conformance::Conforms);
    assert!(matches!(validator.check("name: a\n"), Conformance::Rejected { .. }));
}

#[test]
fn judge_turns_violations_into_a_verdict() {
    assert_eq!(judge(vec![]), Conformance::Conforms);
    assert_eq!(
        judge(vec![text("a"), text("b")]),
        Conformance::Rejected { violations: vec![text("a"), text("b")] }
    );
}

#[test]
fn describe_failure_joins_the_attempt_and_the_cause() {
    assert_eq!(
        describe_failure("Failed to read", &text("permission denied")),
        "Failed to read: permission denied"
    );
    assert_eq!(describe_failure("", &text("")), ": ");
}

#[test]
fn load_joins_the_verdict_with_the_typed_record() {
    let conforming: SourceFile<u8> =
        load(text("packages/a.yaml"), text("a.yaml"), Conformance::Conforms, Ok(7));
    assert_eq!(
        conforming,
        SourceFile { path: text("packages/a.yaml"), file_name: text("a.yaml"), loaded: Loaded::Entity(7) }
    );

    let untyped: SourceFile<u8> = load(
        text("p"),
        text("f"),
        Conformance::Conforms,
        Err(text("Failed to parse package: missing field `name`")),
    );
    assert_eq!(
        untyped.loaded,
        Loaded::Malformed { detail: text("Failed to parse package: missing field `name`") }
    );

    let rejected: SourceFile<u8> = load(
        text("p"),
        text("f"),
        Conformance::Rejected { violations: vec![text("v")] },
        Ok(7),
    );
    assert_eq!(rejected.loaded, Loaded::Rejected { violations: vec![text("v")] });

    let malformed: SourceFile<u8> =
        load(text("p"), text("f"), Conformance::Malformed { detail: text("bad") }, Ok(7));
    assert_eq!(malformed.loaded, Loaded::Malformed { detail: text("bad") });
}

#[test]
fn load_record_holds_the_text_against_the_schema_before_the_typed_record_counts() {
    let validator = validator();

    let conforming: SourceFile<u8> = load_record(
        Some(&validator),
        text("packages/git.yaml"),
        text("git.yaml"),
        "name: git\npopularity: 95\n",
        Ok(1),
    );
    assert_eq!(
        conforming,
        SourceFile {
            path: text("packages/git.yaml"),
            file_name: text("git.yaml"),
            loaded: Loaded::Entity(1),
        }
    );

    let rejected: SourceFile<u8> = load_record(
        Some(&validator),
        text("packages/git.yaml"),
        text("git.yaml"),
        "name: git\npopularity: 150\n",
        Ok(1),
    );
    assert_eq!(
        rejected.loaded,
        Loaded::Rejected { violations: vec![text("150 is greater than the maximum of 100")] }
    );

    let untyped: SourceFile<u8> = load_record(
        Some(&validator),
        text("p"),
        text("f"),
        "name: git\npopularity: 95\n",
        Err(text("Failed to parse: missing field `category`")),
    );
    assert_eq!(
        untyped.loaded,
        Loaded::Malformed { detail: text("Failed to parse: missing field `category`") }
    );
}

#[test]
fn load_record_without_a_schema_takes_the_typed_record() {
    let taken: SourceFile<u8> =
        load_record(None, text("p"), text("f"), "popularity: 150\n", Ok(9));
    assert_eq!(taken.loaded, Loaded::Entity(9));
    let failed: SourceFile<u8> =
        load_record(None, text("p"), text("f"), "{{{", Err(text("Failed to parse: bad")));
    assert_eq!(failed.loaded, Loaded::Malformed { detail: text("Failed to parse: bad") });
}

#[test]
fn text_that_is_not_json_is_refused_with_the_error_of_the_parser() {
    for schema_text in ["", "{ not json", "[1, 2", "{\"type\": \"object\"} trailing", "nul"] {
        let expected = match serde_json::from_str::<serde_json::Value>(schema_text) {
            Ok(_) => panic!("{:?} should not parse", schema_text),
            Err(error) => error.to_string(),
        };
        match SchemaValidator::compile(schema_text) {
            Err(SchemaError::NotJson { detail }) => assert_eq!(detail, expected),
            _ => panic!("expected a JSON error for {:?}", schema_text),
        }
    }
    match SchemaValidator::compile("") {
        Err(SchemaError::NotJson { detail }) => {
            assert_eq!(detail, "EOF while parsing a value at line 1 column 0")
        }
        _ => panic!("expected a JSON error"),
    }
}

#[test]
fn a_json_document_is_compiled_or_refused_as_no_schema() {
    for schema_text in ["{}", "true", "{\"type\": \"object\"}", "{\"type\": 12}", "[]", "7"] {
        assert!(serde_json::from_str::<serde_json::Value>(schema_text).is_ok());
        match SchemaValidator::compile(schema_text) {
            Ok(_) => {}
            Err(SchemaError::NotSchema { detail }) => assert!(!detail.is_empty()),
            Err(other) => panic!("{:?} is JSON without references, yet: {:?}", schema_text, other),
        }
    }
}

#[test]
fn text_that_is_not_yaml_is_malformed_with_the_error_of_the_parser() {
    let validator = validator();
    for record_text in ["name: [unclosed\n", "a: b: c\n", "\t- x\n", "key: 'open\n", "a: 1\na: 2\n"] {
        let expected = match serde_yaml::from_str::<serde_yaml::Value>(record_text) {
            Ok(_) => panic!("{:?} should not parse", record_text),
            Err(error) => format!("Failed to parse YAML: {}", error),
        };
        assert_eq!(
            validator.check(record_text),
            Conformance::Malformed { detail: expected },
            "{:?}",
            record_text
        );
    }
}

#[test]
fn a_yaml_document_is_never_malformed_for_its_syntax() {
    let validator = validator();
    for record_text in ["name: git\npopularity: 1\n", "- a\n", "", "42", "? [a]\n: b\n"] {
        assert!(serde_yaml::from_str::<serde_yaml::Value>(record_text).is_ok());
        match validator.check(record_text) {
            Conformance::Malformed { detail } => {
                assert!(detail.starts_with("Failed to convert YAML to JSON: "), "{}", detail)
            }
            Conformance::Rejected { violations } => assert!(!violations.is_empty()),
            Conformance::Conforms => {}
        }
    }
}

#[test]
fn a_schema_whose_references_need_not_end_is_refused() {
    let refused = [
        r##"{"$ref": "#"}"##,
        r##"{"definitions": {"a": {"$ref": "#/definitions/b"}, "b": {"$ref": "#/definitions/a"}}}"##,
        r##"{"definitions": {"a": {"$ref": "#/definitions/a"}}}"##,
        r##"{"definitions": {"a": {"properties": {"x": {"$ref": "#/definitions/b"}}}, "b": {}}}"##,
        r##"{"allOf": [{"$ref": "#"}]}"##,
        r##"{"properties": {"x": {"$ref": "#/properties/x"}}}"##,
        r##"{"properties": {"x": {"$ref": "#/definitions/"}}}"##,
        r##"{"properties": {"x": {"$ref": "#/definitions/a/b"}}}"##,
        r##"{"properties": {"x": {"$ref": "#/definitions/a~1b"}}}"##,
        r##"{"properties": {"x": {"$ref": "#/definitions/a%2Fb"}}}"##,
        r##"{"properties": {"x": {"$ref": "other.json#/definitions/a"}}}"##,
        r##"{"properties": {"x": {"$ref": "http://example.org/schema.json"}}}"##,
        r##"{"properties": {"x": {"$ref": 7}}}"##,
        r##"{"$ref": "#"}"##,
        r##"{"$id": "http://example.org/root.json", "type": "object"}"##,
        r##"{"properties": {"x": {"id": "http://example.org/x.json"}}}"##,
        r##"{"items": [{"definitions": {}}, {"$ref": "#/items/1"}]}"##,
    ];
    for schema_text in refused {
        assert!(serde_json::from_str::<serde_json::Value>(schema_text).is_ok());
        match SchemaValidator::compile(schema_text) {
            Err(SchemaError::UnsafeReference) => {}
            Err(other) => panic!("expected a refusal for {}, got {:?}", schema_text, other),
            Ok(_) => panic!("expected a refusal for {}", schema_text),
        }
    }
}

#[test]
fn a_schema_nested_too_deep_to_read_is_not_json() {
    let deep = format!("{}{}", "[".repeat(200), "]".repeat(200));
    assert!(matches!(SchemaValidator::compile(&deep), Err(SchemaError::NotJson { .. })));
    let nested = format!("{}{}", "[".repeat(120), "]".repeat(120));
    assert!(serde_json::from_str::<serde_json::Value>(&nested).is_ok());
    assert!(!matches!(SchemaValidator::compile(&nested), Err(SchemaError::UnsafeReference)));
}

#[test]
fn text_that_is_not_json_is_not_json_whatever_it_mentions() {
    match SchemaValidator::compile(r##"{"$ref": "#""##) {
        Err(SchemaError::NotJson { detail }) => assert!(!detail.is_empty()),
        _ => panic!("expected a JSON error"),
    }
}

#[test]
fn a_schema_whose_references_lead_to_definitions_is_taken() {
    let taken = [
        PACKAGE_SCHEMA,
        r##"{"type": "string", "pattern": "^\\d+\\.\\d+$"}"##,
        r##"{"properties": {"ref": {"type": "string"}, "id": {"type": "string"}, "$id": {}}}"##,
        r##"{"description": "see $ref and café, a \"quoted\" word"}"##,
        r##"{"definitions": {"name": {"type": "string"}},
             "properties": {"name": {"$ref": "#/definitions/name"}}}"##,
        r##"{"definitions": {"dep_1-a": {"type": "object"}},
             "properties": {"deps": {"type": "array", "items": {"$ref": "#/definitions/dep_1-a"}}}}"##,
        r##"{"definitions": {"a": {"type": "integer"}}, "$ref": "#/definitions/a"}"##,
        r##"{"properties": {"x": {"$ref": "#/definitions/missing"}}}"##,
    ];
    for schema_text in taken {
        match SchemaValidator::compile(schema_text) {
            Ok(_) => {}
            Err(error) => panic!("{} should be taken, got {:?}", schema_text, error),
        }
    }
}

#[test]
fn a_record_is_held_against_what_a_reference_leads_to() {
    let schema = r##"{
        "type": "object",
        "required": ["name"],
        "definitions": {
            "name": { "type": "string", "minLength": 2 },
            "dependency": {
                "type": "object",
                "required": ["package", "reason"],
                "properties": { "package": { "type": "string" }, "reason": { "type": "string" } }
            }
        },
        "properties": {
            "name": { "$ref": "#/definitions/name" },
            "dependencies": { "type": "array", "items": { "$ref": "#/definitions/dependency" } }
        }
    }"##;
    let validator = match SchemaValidator::compile(schema) {
        Ok(validator) => validator,
        Err(error) => panic!("the schema should be taken: {:?}", error),
    };
    assert_eq!(
        validator.check("name: git\ndependencies:\n  - package: curl\n    reason: fetch\n"),
        Conformance::Conforms
    );
    match validator.check("name: g\n") {
        Conformance::Rejected { violations } => {
            assert_eq!(violations, vec![text("\"g\" is shorter than 2 characters")])
        }
        other => panic!("expected a rejection, got {:?}", other),
    }
    match validator.check("name: git\ndependencies:\n  - package: curl\n") {
        Conformance::Rejected { violations } => {
            assert_eq!(violations, vec![text("\"reason\" is a required property")])
        }
        other => panic!("expected a rejection, got {:?}", other),
    }

    // A reference to a definition that does not exist ends too: in an error.
    let dangling = match SchemaValidator::compile(
        r##"{"properties": {"x": {"$ref": "#/definitions/missing"}}}"##,
    ) {
        Ok(validator) => validator,
        Err(error) => panic!("the schema should be taken: {:?}", error),
    };
    assert_eq!(dangling.check("y: 1\n"), Conformance::Conforms);
    assert!(matches!(dangling.check("x: 1\n"), Conformance::Rejected { .. }));
}

#[test]
fn a_reference_to_a_definition_has_a_plain_name() {
    assert!(is_definition_reference("#/definitions/a"));
    assert!(is_definition_reference("#/definitions/Dependency_1-b"));
    assert!(!is_definition_reference("#/definitions/"));
    assert!(!is_definition_reference("#/definitions"));
    assert!(!is_definition_reference("#"));
    assert!(!is_definition_reference(""));
    assert!(!is_definition_reference("#/definitions/a/b"));
    assert!(!is_definition_reference("#/definitions/a b"));
    assert!(!is_definition_reference("#/definitions/a.b"));
    assert!(!is_definition_reference("#/definitions/a~0"));
    assert!(!is_definition_reference("#/definitions/a%20"));
    assert!(!is_definition_reference("#/definitions/\u{e9}"));
    assert!(!is_definition_reference("#/Definitions/a"));
    assert!(!is_definition_reference("x#/definitions/a"));
    assert!(!is_definition_reference("#/properties/aaaaa"));
    assert!(!is_definition_reference("#/definitionz/a"));
}
