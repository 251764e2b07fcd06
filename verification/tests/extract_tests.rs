use personal_site::errors::{DecodeError, ExtractError};
use personal_site::frontmatter::extract;
use personal_site::schema::{ProjectFrontmatter, WishlistFrontmatter};

const PROJECT_DOC: &str = "---\nname: Sample\ndescription: A sample project\ncreated_at: 2024-01-01\n---\n\n# Body\n";

#[test]
fn extracts_valid_project_frontmatter() {
    let fm = extract::<ProjectFrontmatter>(PROJECT_DOC).unwrap();
    assert_eq!(fm.name, "Sample");
    assert_eq!(fm.description, "A sample project");
    assert_eq!(fm.created_at, "2024-01-01");
    assert_eq!(fm.updated_at, None);
    assert!(fm.links.is_none());
}

#[test]
fn extract_agrees_with_direct_yaml_decode() {
    // the same YAML text decoded directly with the deserialization engine
    let yaml = "name: Sample\ndescription: A sample project\ncreated_at: 2024-01-01\n";
    let direct: serde_yaml::Value = serde_yaml::from_str(yaml).unwrap();
    let fm = extract::<ProjectFrontmatter>(PROJECT_DOC).unwrap();
    assert_eq!(direct["name"].as_str().unwrap(), fm.name);
    assert_eq!(direct["description"].as_str().unwrap(), fm.description);
    assert_eq!(direct["created_at"].as_str().unwrap(), fm.created_at);
}

#[test]
fn extract_without_frontmatter_is_missing() {
    let r = extract::<ProjectFrontmatter>("# Just a heading\n\nText.\n");
    assert_eq!(r.unwrap_err(), ExtractError::MissingFrontmatter);
}

#[test]
fn extract_empty_document_is_missing() {
    let r = extract::<ProjectFrontmatter>("");
    assert_eq!(r.unwrap_err(), ExtractError::MissingFrontmatter);
}

#[test]
fn extract_frontmatter_not_first_is_missing() {
    let r = extract::<ProjectFrontmatter>("# Heading first\n\n---\nname: X\n---\n");
    assert_eq!(r.unwrap_err(), ExtractError::MissingFrontmatter);
}

#[test]
fn invalid_yaml_is_a_syntax_error() {
    let r = extract::<ProjectFrontmatter>("---\nname: [\n---\n");
    assert!(matches!(
        r.unwrap_err(),
        ExtractError::Decode(DecodeError::Syntax(_))
    ));
}

#[test]
fn non_mapping_frontmatter_is_rejected() {
    let r = extract::<ProjectFrontmatter>("---\njust a string\n---\n");
    assert_eq!(
        r.unwrap_err(),
        ExtractError::Decode(DecodeError::NotMapping)
    );
}

#[test]
fn missing_required_field_is_reported_by_name() {
    let r = extract::<ProjectFrontmatter>("---\nname: OnlyName\n---\n");
    assert_eq!(
        r.unwrap_err(),
        ExtractError::Decode(DecodeError::MissingField(String::from("description")))
    );
}

#[test]
fn wrong_field_type_is_reported_by_name() {
    let r = extract::<WishlistFrontmatter>("---\nname: X\ncreated_at: 123\n---\n");
    assert_eq!(
        r.unwrap_err(),
        ExtractError::Decode(DecodeError::WrongType(String::from("created_at")))
    );
}

#[test]
fn null_optional_field_decodes_to_none() {
    let doc = "---\nname: X\ncreated_at: 2024-02-02\nupdated_at:\n---\n";
    let fm = extract::<WishlistFrontmatter>(doc).unwrap();
    assert_eq!(fm.updated_at, None);
}

#[test]
fn present_optional_field_decodes_to_some() {
    let doc = "---\nname: X\ncreated_at: 2024-02-02\nupdated_at: 2024-03-03\n---\n";
    let fm = extract::<WishlistFrontmatter>(doc).unwrap();
    assert_eq!(fm.updated_at, Some(String::from("2024-03-03")));
}

#[test]
fn unknown_keys_are_ignored() {
    let doc = "---\nname: X\ncreated_at: 2024-02-02\nsomething_else: hi\n---\n";
    let fm = extract::<WishlistFrontmatter>(doc).unwrap();
    assert_eq!(fm.name, "X");
}
