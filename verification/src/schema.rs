//! Schema validation of records in their generic document form, through the
//! `serde_yaml`, `serde_json` and `jsonschema` crates, and the step that
//! joins its verdict with the typed record.
//!
//! Validation follows the references of a schema without looking for cycles,
//! and on a cycle it would not return. So a schema is taken only where every
//! reference is known to end: it leads to a definition at the root, and no
//! definition holds a reference.

use vstd::prelude::*;
use vstd::string::*;
use crate::source::{Loaded, LoadedModel, SourceFile, SourceFileModel};
use crate::text::Text;

verus! {

/// A JSON document of `serde_json`. Nothing inside it is visible here.
#[verifier::external_type_specification]
#[verifier::external_body]
pub struct ExJsonValue(serde_json::Value);

/// A YAML document of `serde_yaml`. Nothing inside it is visible here.
#[verifier::external_type_specification]
#[verifier::external_body]
pub struct ExYamlValue(serde_yaml::Value);

/// A compiled schema of `jsonschema`. Nothing inside it is visible here.
#[verifier::external_type_specification]
#[verifier::external_body]
pub struct ExJsonSchema(jsonschema::JSONSchema);

/// What `serde_json::from_str` makes of `text` as a JSON document: the text
/// of the error that it reports, or `None` where it gives a document.
pub uninterp spec fn json_parse_error(text: Seq<char>) -> Option<Seq<char>>;

/// What `serde_yaml::from_str` makes of `text` as a YAML document: the text
/// of the error that it reports, or `None` where it gives a document.
pub uninterp spec fn yaml_parse_error(text: Seq<char>) -> Option<Seq<char>>;

/// The JSON document that `serde_json::from_str` gives for `text`, where it
/// gives one.
pub uninterp spec fn json_document(text: Seq<char>) -> serde_json::Value;

/// The YAML document that `serde_yaml::from_str` gives for `text`, where it
/// gives one.
pub uninterp spec fn yaml_document(text: Seq<char>) -> serde_yaml::Value;

/// What `serde_json::to_value` makes of a YAML document: its form in the JSON
/// document model, or the text of the error that it reports.
pub uninterp spec fn json_form(document: serde_yaml::Value) -> Result<
    serde_json::Value,
    Seq<char>,
>;

/// What `jsonschema::JSONSchema::compile` makes of a JSON document as a
/// schema: the text of the error that it reports, or `None` where it
/// compiles the document.
pub uninterp spec fn schema_refusal(document: serde_json::Value) -> Option<Seq<char>>;

/// The texts of the errors that `jsonschema::JSONSchema::validate` yields for
/// `document`, held against the schema compiled from `schema`, in the order
/// in which it yields them.
pub uninterp spec fn violation_texts(
    schema: serde_json::Value,
    document: serde_json::Value,
) -> Seq<Seq<char>>;

/// The names of the members of a JSON document, in the order in which
/// `serde_json` walks them; none where the document is not an object.
pub uninterp spec fn member_names(document: serde_json::Value) -> Seq<Seq<char>>;

/// The values of the members of a JSON document, in the order of
/// `member_names`; none where the document is not an object.
pub uninterp spec fn member_values(document: serde_json::Value) -> Seq<serde_json::Value>;

/// The elements of a JSON document, in order; none where the document is not
/// an array.
pub uninterp spec fn elements_of(document: serde_json::Value) -> Seq<serde_json::Value>;

/// The text of a JSON document that is a string; `None` for any other.
pub uninterp spec fn text_of(document: serde_json::Value) -> Option<Seq<char>>;

/// Calls `serde_json::Map::keys` on a document that is an object and hands
/// back a copy of each name, in order; nothing for any other document. The
/// claim is that the names are what `member_names` names.
#[verifier::external_body]
fn json_member_names(document: &serde_json::Value) -> (names: Vec<String>)
    ensures
        names.deep_view() == member_names(*document),
{
    match document.as_object() {
        Some(members) => members.keys().cloned().collect(),
        None => Vec::new(),
    }
}

/// Calls `serde_json::Map::values` on a document that is an object and hands
/// back a copy of each value, in order; nothing for any other document. The
/// claim is that the values are what `member_values` names, and that there
/// is one for each name: both walks go over the same map in the same order.
#[verifier::external_body]
fn json_member_values(document: &serde_json::Value) -> (values: Vec<serde_json::Value>)
    ensures
        values@ == member_values(*document),
        values@.len() == member_names(*document).len(),
{
    match document.as_object() {
        Some(members) => members.values().cloned().collect(),
        None => Vec::new(),
    }
}

/// Calls `serde_json::Value::as_array` and hands back a copy of each element,
/// in order; nothing for a document that is not an array. The claim is that
/// the elements are what `elements_of` names.
#[verifier::external_body]
fn json_elements(document: &serde_json::Value) -> (elements: Vec<serde_json::Value>)
    ensures
        elements@ == elements_of(*document),
{
    match document.as_array() {
        Some(elements) => elements.clone(),
        None => Vec::new(),
    }
}

/// Calls `serde_json::Value::as_str` and hands back a copy of the text;
/// `None` for a document that is not a string. The claim is that the text is
/// what `text_of` names.
#[verifier::external_body]
fn json_text(document: &serde_json::Value) -> (text: Option<String>)
    ensures
        text.deep_view() == text_of(*document),
{
    match document.as_str() {
        Some(text) => Some(text.to_string()),
        None => None,
    }
}

/// Calls `serde_json::from_str` to parse `text` as a JSON document; an error
/// is handed back as the text that `serde_json` gives it. The claim is that
/// the parser looks at `text` alone: whether it fails and with which error
/// is what `json_parse_error` names, and the document that it gives is what
/// `json_document` names.
#[verifier::external_body]
fn parse_json(text: &str) -> (outcome: Result<serde_json::Value, String>)
    ensures
        match outcome {
            Ok(document) => json_parse_error(text@) is None && document == json_document(text@),
            Err(error) => json_parse_error(text@) == Some(error@),
        },
{
    match serde_json::from_str::<serde_json::Value>(text) {
        Ok(document) => Ok(document),
        Err(error) => Err(error.to_string()),
    }
}

/// Calls `serde_yaml::from_str` to parse `text` as a YAML document; an error
/// is handed back as the text that `serde_yaml` gives it. The claim is that
/// the parser looks at `text` alone: whether it fails and with which error
/// is what `yaml_parse_error` names, and the document that it gives is what
/// `yaml_document` names.
#[verifier::external_body]
fn parse_yaml(text: &str) -> (outcome: Result<serde_yaml::Value, String>)
    ensures
        match outcome {
            Ok(document) => yaml_parse_error(text@) is None && document == yaml_document(text@),
            Err(error) => yaml_parse_error(text@) == Some(error@),
        },
{
    match serde_yaml::from_str::<serde_yaml::Value>(text) {
        Ok(document) => Ok(document),
        Err(error) => Err(error.to_string()),
    }
}

/// Calls `serde_json::to_value` to turn a YAML document into the JSON
/// document model; an error is handed back as the text that `serde_json`
/// gives it. The claim is that the conversion looks at the document alone:
/// its outcome is what `json_form` names.
#[verifier::external_body]
fn yaml_to_json(document: &serde_yaml::Value) -> (outcome: Result<serde_json::Value, String>)
    ensures
        match outcome {
            Ok(json) => json_form(*document) == Ok::<serde_json::Value, Seq<char>>(json),
            Err(error) => json_form(*document) == Err::<serde_json::Value, Seq<char>>(error@),
        },
{
    match serde_json::to_value(document) {
        Ok(json) => Ok(json),
        Err(error) => Err(error.to_string()),
    }
}

/// Calls `jsonschema::JSONSchema::compile` on a schema document; an error is
/// handed back as the text that `jsonschema` gives it. The claim is that
/// compiling looks at the document alone: whether it is refused, and with
/// which error, is what `schema_refusal` names. Nothing is claimed of the
/// compiled schema.
#[verifier::external_body]
fn compile_json_schema(schema: &serde_json::Value) -> (outcome: Result<
    jsonschema::JSONSchema,
    String,
>)
    ensures
        match outcome {
            Ok(_) => schema_refusal(*schema) is None,
            Err(error) => schema_refusal(*schema) == Some(error@),
        },
{
    match jsonschema::JSONSchema::compile(schema) {
        Ok(compiled) => Ok(compiled),
        Err(error) => Err(error.to_string()),
    }
}

/// Calls `jsonschema::JSONSchema::validate` on the schema of `validator` and
/// hands back the text of each error that it yields, in the order in which
/// it yields them: none where the document conforms. The schema of a
/// validator is the one compiled from the document of its source text, for
/// `SchemaValidator::compile` alone makes validators. The claim is that
/// validation looks at that schema document and at `document` alone: the
/// texts are what `violation_texts` names. The call follows a `$ref` without
/// looking for cycles, so on a schema whose references lead back to
/// themselves it need not return. Such schemas are left out: in the schema
/// document of the validator every reference leads to a definition at the
/// root, no definition holds a reference, and nothing changes the base that
/// references are resolved against. So what a reference leads to has no
/// reference to follow.
#[verifier::external_body]
fn schema_violations(validator: &SchemaValidator, document: &serde_json::Value) -> (violations:
    Vec<String>)
    requires
        references_end(json_document(validator.source())),
    ensures
        violations.deep_view() == violation_texts(json_document(validator.source()), *document),
{
    let mut violations: Vec<String> = Vec::new();
    if let Err(errors) = validator.schema.validate(document) {
        for error in errors {
            violations.push(error.to_string());
        }
    }
    violations
}

/// Why a schema could not be made ready.
#[derive(Debug, Clone, PartialEq, Eq)]
pub enum SchemaError {
    /// The schema text is not a JSON document.
    NotJson { detail: String },
    /// The schema holds a reference that is not known to end, or an
    /// identifier, which changes what references mean. Validation follows
    /// references without looking for cycles, so such a schema is not taken.
    UnsafeReference,
    /// The JSON document is not a schema.
    NotSchema { detail: String },
}

/// How deep a schema document is read for references. The parser takes no
/// document that is nested deeper than 128.
pub const READING_DEPTH: usize = 192;

/// The characters that the name of a definition may be made of, for a
/// reference to it to be taken: ASCII letters and digits, `_` and `-`.
pub open spec fn is_name_char(c: char) -> bool {
    ('a' <= c && c <= 'z') || ('A' <= c && c <= 'Z') || ('0' <= c && c <= '9') || c == '_' || c
        == '-'
}

/// Whether `reference` is `#/definitions/` followed by the plain name of a
/// definition.
pub open spec fn names_definition(reference: Text) -> bool {
    &&& reference.len() > "#/definitions/"@.len()
    &&& reference.subrange(0, "#/definitions/"@.len() as int) == "#/definitions/"@
    &&& forall|k: int|
        "#/definitions/"@.len() <= k < reference.len() ==> is_name_char(#[trigger] reference[k])
}

/// Whether a member stands in the way of taking the schema, given its name,
/// the text of its value where the value is a text, and whether its value
/// does (`deeper`). A member called `$ref` does, where it stands inside a
/// definition (`strict`) or is anything but the text of a reference to a
/// definition. A member called `$id` or `id` does, where it is a text. Any
/// other member does where its value does.
pub open spec fn member_verdict(name: Text, text: Option<Text>, strict: bool, deeper: bool) -> bool {
    if name == "$ref"@ {
        strict || !(text is Some && names_definition(text->0))
    } else if (name == "$id"@ || name == "id"@) && text is Some {
        true
    } else {
        deeper
    }
}

/// Whether `document`, read `depth` deep, holds something that stands in the
/// way of taking the schema: in one of its members, in one of its elements,
/// or deeper than it is read. The value of `definitions` at the root is read
/// as the inside of a definition.
pub open spec fn reading_unsafe(
    document: serde_json::Value,
    strict: bool,
    at_root: bool,
    depth: nat,
) -> bool
    decreases depth,
{
    if depth == 0 {
        true
    } else {
        ||| exists|i: int|
            0 <= i < member_names(document).len() && member_verdict(
                #[trigger] member_names(document)[i],
                text_of(member_values(document)[i]),
                strict,
                reading_unsafe(
                    member_values(document)[i],
                    strict || (at_root && member_names(document)[i] == "definitions"@),
                    false,
                    (depth - 1) as nat,
                ),
            )
        ||| exists|j: int|
            0 <= j < elements_of(document).len() && reading_unsafe(
                #[trigger] elements_of(document)[j],
                strict,
                false,
                (depth - 1) as nat,
            )
    }
}

/// Whether member `i` of `document`, read `depth` deep, stands in the way of
/// taking the schema.
pub open spec fn member_unsafe(
    document: serde_json::Value,
    i: int,
    strict: bool,
    at_root: bool,
    depth: nat,
) -> bool {
    member_verdict(
        member_names(document)[i],
        text_of(member_values(document)[i]),
        strict,
        reading_unsafe(
            member_values(document)[i],
            strict || (at_root && member_names(document)[i] == "definitions"@),
            false,
            (depth - 1) as nat,
        ),
    )
}

/// Every reference of the schema document ends: each member called `$ref`
/// is the text of a reference to a definition at the root, no definition
/// holds a member called `$ref`, and no member called `$id` or `id` is a
/// text.
pub open spec fn references_end(document: serde_json::Value) -> bool {
    !reading_unsafe(document, false, true, READING_DEPTH as nat)
}

/// Decides whether two texts are the same.
fn is_text(text: &String, wanted: &str) -> (same: bool)
    ensures
        same == (text@ == wanted@),
{
    *text == String::from_str(wanted)
}

/// Decides whether `reference` is `#/definitions/` followed by the plain
/// name of a definition.
pub fn is_definition_reference(reference: &str) -> (taken: bool)
    ensures
        taken == names_definition(reference@),
{
    proof {
        reveal_strlit("#/definitions/");
    }
    let prefix = "#/definitions/";
    let n: usize = reference.unicode_len();
    if n <= 14 {
        return false;
    }
    let mut k: usize = 0;
    while k < 14
        invariant
            k <= 14,
            n == reference@.len(),
            n > 14,
            prefix@ == "#/definitions/"@,
            prefix@.len() == 14,
            forall|m: int| 0 <= m < k ==> reference@[m] == prefix@[m],
        decreases 14 - k,
    {
        if reference.get_char(k) != prefix.get_char(k) {
            assert(reference@.subrange(0, 14)[k as int] != prefix@[k as int]);
            return false;
        }
        k += 1;
    }
    assert(reference@.subrange(0, 14) =~= prefix@);
    while k < n
        invariant
            14 <= k <= n,
            n == reference@.len(),
            "#/definitions/"@.len() == 14,
            reference@.subrange(0, 14) == "#/definitions/"@,
            forall|m: int| 14 <= m < k ==> is_name_char(#[trigger] reference@[m]),
        decreases n - k,
    {
        let c: char = reference.get_char(k);
        let fits: bool = ('a' <= c && c <= 'z') || ('A' <= c && c <= 'Z') || ('0' <= c && c <= '9')
            || c == '_' || c == '-';
        if !fits {
            assert(!is_name_char(reference@[k as int]));
            return false;
        }
        k += 1;
    }
    true
}

/// Decides whether member `i` of `document` stands in the way of taking the
/// schema.
fn member_stands_in_the_way(
    document: &serde_json::Value,
    name: &String,
    value: &serde_json::Value,
    Ghost(i): Ghost<int>,
    strict: bool,
    at_root: bool,
    depth: usize,
) -> (found: bool)
    requires
        depth > 0,
        0 <= i < member_names(*document).len(),
        member_names(*document).len() == member_values(*document).len(),
        name@ == member_names(*document)[i],
        *value == member_values(*document)[i],
    ensures
        found == member_unsafe(*document, i, strict, at_root, depth as nat),
    decreases depth, 0nat,
{
    if is_text(name, "$ref") {
        if strict {
            return true;
        }
        match json_text(value) {
            Some(reference) => !is_definition_reference(reference.as_str()),
            None => true,
        }
    } else if (is_text(name, "$id") || is_text(name, "id")) && json_text(value).is_some() {
        true
    } else {
        let inside: bool = strict || (at_root && is_text(name, "definitions"));
        stands_in_the_way(value, inside, false, depth - 1)
    }
}

/// Decides whether `document`, read `depth` deep, holds something that stands
/// in the way of taking the schema.
fn stands_in_the_way(document: &serde_json::Value, strict: bool, at_root: bool, depth: usize) -> (found:
    bool)
    ensures
        found == reading_unsafe(*document, strict, at_root, depth as nat),
    decreases depth, 1nat,
{
    if depth == 0 {
        return true;
    }
    let names = json_member_names(document);
    let values = json_member_values(document);
    assert(names.deep_view().len() == names.len());
    let mut i: usize = 0;
    while i < names.len()
        invariant
            i <= names.len(),
            depth > 0,
            names.len() == member_names(*document).len(),
            names.deep_view() == member_names(*document),
            values@ == member_values(*document),
            values@.len() == names@.len(),
            forall|k: int| 0 <= k < i ==> !member_unsafe(*document, k, strict, at_root, depth as nat),
        decreases names.len() - i,
    {
        assert(names.deep_view()[i as int] == names[i as int]@);
        if member_stands_in_the_way(
            document,
            &names[i],
            &values[i],
            Ghost(i as int),
            strict,
            at_root,
            depth,
        ) {
            assert(member_unsafe(*document, i as int, strict, at_root, depth as nat));
            return true;
        }
        i += 1;
    }
    let elements = json_elements(document);
    let mut j: usize = 0;
    while j < elements.len()
        invariant
            j <= elements.len(),
            depth > 0,
            names.len() == member_names(*document).len(),
            elements@ == elements_of(*document),
            forall|k: int|
                0 <= k < names.len() ==> !member_unsafe(*document, k, strict, at_root, depth as nat),
            forall|k: int|
                0 <= k < j ==> !reading_unsafe(
                    #[trigger] elements_of(*document)[k],
                    strict,
                    false,
                    (depth - 1) as nat,
                ),
        decreases elements.len() - j,
    {
        if stands_in_the_way(&elements[j], strict, false, depth - 1) {
            assert(reading_unsafe(
                elements_of(*document)[j as int],
                strict,
                false,
                (depth - 1) as nat,
            ));
            return true;
        }
        j += 1;
    }
    proof {
        assert forall|k: int| 0 <= k < member_names(*document).len() implies !member_verdict(
            #[trigger] member_names(*document)[k],
            text_of(member_values(*document)[k]),
            strict,
            reading_unsafe(
                member_values(*document)[k],
                strict || (at_root && member_names(*document)[k] == "definitions"@),
                false,
                (depth - 1) as nat,
            ),
        ) by {
            assert(!member_unsafe(*document, k, strict, at_root, depth as nat));
        }
    }
    false
}

/// Decides whether every reference of the schema document ends.
fn has_safe_references(document: &serde_json::Value) -> (safe: bool)
    ensures
        safe == references_end(*document),
{
    !stands_in_the_way(document, false, true, READING_DEPTH)
}

/// The verdict of the schema validator on one record.
#[derive(Debug, Clone, PartialEq, Eq)]
pub enum Conformance {
    /// The text is not a document that can be held against a schema.
    Malformed { detail: String },
    /// The document violates the schema; one text per violated constraint.
    Rejected { violations: Vec<String> },
    /// The document conforms.
    Conforms,
}

/// The model of [`Conformance`].
pub enum ConformanceModel {
    Malformed { detail: Text },
    Rejected { violations: Seq<Text> },
    Conforms,
}

impl DeepView for Conformance {
    type V = ConformanceModel;

    open spec fn deep_view(&self) -> ConformanceModel {
        match *self {
            Conformance::Malformed { detail } => ConformanceModel::Malformed { detail: detail@ },
            Conformance::Rejected { violations } => ConformanceModel::Rejected {
                violations: violations.deep_view(),
            },
            Conformance::Conforms => ConformanceModel::Conforms,
        }
    }
}

/// The verdict for a document with the given violations: it conforms where
/// there are none.
pub open spec fn judged(violations: Seq<Text>) -> ConformanceModel {
    if violations.len() == 0 {
        ConformanceModel::Conforms
    } else {
        ConformanceModel::Rejected { violations }
    }
}

/// Turns the violations that the validator found into a verdict.
pub fn judge(violations: Vec<String>) -> (verdict: Conformance)
    ensures
        verdict.deep_view() == judged(violations.deep_view()),
{
    if violations.len() == 0 {
        Conformance::Conforms
    } else {
        Conformance::Rejected { violations }
    }
}

/// The detail of a finding: what was attempted, and what went wrong.
pub open spec fn failure_detail(attempt: Text, cause: Text) -> Text {
    attempt + ": "@ + cause
}

/// Writes the detail of a finding.
pub fn describe_failure(attempt: &str, cause: &String) -> (detail: String)
    ensures
        detail@ == failure_detail(attempt@, cause@),
{
    let mut detail: String = String::from_str(attempt);
    detail.append(": ");
    detail.append(cause.as_str());
    detail
}

/// The verdict on the record in `record_text`, held against the schema
/// compiled from `schema_text`.
pub open spec fn checked(schema_text: Text, record_text: Text) -> ConformanceModel {
    match yaml_parse_error(record_text) {
        Some(cause) => ConformanceModel::Malformed {
            detail: failure_detail("Failed to parse YAML"@, cause),
        },
        None => match json_form(yaml_document(record_text)) {
            Err(cause) => ConformanceModel::Malformed {
                detail: failure_detail("Failed to convert YAML to JSON"@, cause),
            },
            Ok(json) => judged(violation_texts(json_document(schema_text), json)),
        },
    }
}

/// The verdict on a record where a schema may be given: without one every
/// document counts as conforming.
pub open spec fn verdict_under(schema: Option<&SchemaValidator>, record_text: Text) -> ConformanceModel {
    match schema {
        Some(validator) => checked(validator.source(), record_text),
        None => ConformanceModel::Conforms,
    }
}

/// A schema, compiled once and ready to check any number of records. It
/// owns everything it needs: the compiled schema, and the text that the
/// schema was compiled from. Every reference of that schema ends.
pub struct SchemaValidator {
    schema: jsonschema::JSONSchema,
    source: String,
}

impl SchemaValidator {
    /// The text that the schema was compiled from.
    pub closed spec fn source(&self) -> Text {
        self.source@
    }

    #[verifier::type_invariant]
    spec fn safe(&self) -> bool {
        references_end(json_document(self.source@))
    }

    /// Parses `schema_text` as JSON and compiles the document as a schema.
    /// Text that is not a JSON document is refused as `NotJson`, with the
    /// error of the parser. A JSON document with a reference that is not
    /// known to end is refused as `UnsafeReference`. Any other JSON document
    /// is compiled, unless `jsonschema` refuses it as a schema: then it is
    /// refused as `NotSchema`, with the error of the compiler.
    pub fn compile(schema_text: &str) -> (outcome: Result<SchemaValidator, SchemaError>)
        ensures
            match json_parse_error(schema_text@) {
                Some(cause) => outcome matches Err(SchemaError::NotJson { detail }) && detail@
                    == cause,
                None => if !references_end(json_document(schema_text@)) {
                    outcome matches Err(SchemaError::UnsafeReference)
                } else {
                    match schema_refusal(json_document(schema_text@)) {
                        None => outcome matches Ok(validator) && validator.source()
                            == schema_text@,
                        Some(cause) => outcome matches Err(SchemaError::NotSchema { detail })
                            && detail@ == cause,
                    }
                },
            },
    {
        match parse_json(schema_text) {
            Err(cause) => Err(SchemaError::NotJson { detail: cause }),
            Ok(document) => {
                if !has_safe_references(&document) {
                    return Err(SchemaError::UnsafeReference);
                }
                match compile_json_schema(&document) {
                    Err(cause) => Err(SchemaError::NotSchema { detail: cause }),
                    Ok(schema) => Ok(
                        SchemaValidator { schema, source: String::from_str(schema_text) },
                    ),
                }
            },
        }
    }

    /// Checks the record in `record_text` against the schema: the text is
    /// parsed as a generic YAML document, carried over to the JSON document
    /// model, and validated. The verdict is `checked`: malformed where the
    /// text is not a YAML document or the document has no JSON form, rejected
    /// with one text per violated constraint where the validator finds any,
    /// and conforming otherwise.
    pub fn check(&self, record_text: &str) -> (verdict: Conformance)
        ensures
            verdict.deep_view() == checked(self.source(), record_text@),
    {
        proof {
            use_type_invariant(self);
        }
        match parse_yaml(record_text) {
            Err(cause) => Conformance::Malformed {
                detail: describe_failure("Failed to parse YAML", &cause),
            },
            Ok(document) => match yaml_to_json(&document) {
                Err(cause) => Conformance::Malformed {
                    detail: describe_failure("Failed to convert YAML to JSON", &cause),
                },
                Ok(json) => judge(schema_violations(self, &json)),
            },
        }
    }
}

/// What a file holds, given the verdict of the schema validator and the
/// outcome of parsing the record into its typed form: the entity where the
/// document conforms and the typed parse succeeded.
pub open spec fn joined<M>(verdict: ConformanceModel, typed: Result<M, Text>) -> LoadedModel<M> {
    match verdict {
        ConformanceModel::Malformed { detail } => LoadedModel::Malformed { detail },
        ConformanceModel::Rejected { violations } => LoadedModel::Rejected { violations },
        ConformanceModel::Conforms => match typed {
            Ok(entity) => LoadedModel::Entity(entity),
            Err(cause) => LoadedModel::Malformed { detail: cause },
        },
    }
}

/// The model of the outcome of a typed parse.
pub open spec fn typed_model<T: DeepView>(typed: Result<T, String>) -> Result<T::V, Text> {
    match typed {
        Ok(entity) => Ok(entity.deep_view()),
        Err(cause) => Err(cause@),
    }
}

/// Joins the verdict of the schema validator with the outcome of the typed
/// parse into the value that the checks take. A record that fails schema
/// validation is kept out of everything that follows, whatever the typed
/// parse gave.
pub fn load<T: DeepView>(
    path: String,
    file_name: String,
    verdict: Conformance,
    typed: Result<T, String>,
) -> (file: SourceFile<T>)
    ensures
        file.deep_view() == (SourceFileModel {
            path: path@,
            file_name: file_name@,
            loaded: joined(verdict.deep_view(), typed_model(typed)),
        }),
{
    let loaded = match verdict {
        Conformance::Malformed { detail } => Loaded::Malformed { detail },
        Conformance::Rejected { violations } => Loaded::Rejected { violations },
        Conformance::Conforms => match typed {
            Ok(entity) => Loaded::Entity(entity),
            Err(cause) => Loaded::Malformed { detail: cause },
        },
    };
    SourceFile { path, file_name, loaded }
}

/// Loads one record: holds its text against `schema`, where one is given,
/// and joins the verdict with the outcome of the typed parse. Without a
/// schema every document counts as conforming.
pub fn load_record<T: DeepView>(
    schema: Option<&SchemaValidator>,
    path: String,
    file_name: String,
    record_text: &str,
    typed: Result<T, String>,
) -> (file: SourceFile<T>)
    ensures
        file.deep_view() == (SourceFileModel {
            path: path@,
            file_name: file_name@,
            loaded: joined(verdict_under(schema, record_text@), typed_model(typed)),
        }),
{
    let verdict = match schema {
        Some(validator) => validator.check(record_text),
        None => Conformance::Conforms,
    };
    load(path, file_name, verdict, typed)
}

} // verus!
