use package_manager::known_package::{KnownPackage, TagType};

#[test]
fn test_tag_type_from_tag_release() {
    assert_eq!(TagType::from_tag("latest"), TagType::Release);
    assert_eq!(TagType::from_tag("v1.0.0"), TagType::Release);
    assert_eq!(TagType::from_tag("1.2.3"), TagType::Release);
    assert_eq!(TagType::from_tag("main"), TagType::Release);
}

#[test]
fn test_tag_type_from_tag_signature() {
    assert_eq!(TagType::from_tag("v1.0.0.sig"), TagType::Signature);
    assert_eq!(TagType::from_tag("latest.sig"), TagType::Signature);
    assert_eq!(TagType::from_tag(".sig"), TagType::Signature);
}

#[test]
fn test_tag_type_from_tag_attestation() {
    assert_eq!(TagType::from_tag("v1.0.0.att"), TagType::Attestation);
    assert_eq!(TagType::from_tag("latest.att"), TagType::Attestation);
    assert_eq!(TagType::from_tag(".att"), TagType::Attestation);
}

#[test]
fn tag_type_edge_cases() {
    assert_eq!(TagType::from_tag(""), TagType::Release);
    assert_eq!(TagType::from_tag("sig"), TagType::Release);
    assert_eq!(TagType::from_tag("v1.sig.att"), TagType::Attestation);
    assert_eq!(TagType::from_tag("v1.att.sig"), TagType::Signature);
    assert_eq!(TagType::from_tag("v1.SIG"), TagType::Release);
    assert_eq!(TagType::from_tag("caf\u{e9}.sig"), TagType::Signature);
}

#[test]
fn tag_type_stored_names() {
    assert_eq!(TagType::Release.as_str(), "release");
    assert_eq!(TagType::Signature.as_str(), "signature");
    assert_eq!(TagType::Attestation.as_str(), "attestation");
}

fn package(tags: Vec<&str>) -> KnownPackage {
    KnownPackage::new_for_testing(
        "ghcr.io".to_string(),
        "user/repo".to_string(),
        None,
        tags.into_iter().map(|t| t.to_string()).collect(),
        vec![],
        vec![],
        "2024-01-01 00:00:00".to_string(),
        "2024-01-01 00:00:00".to_string(),
    )
}

#[test]
fn known_package_reference() {
    assert_eq!(package(vec![]).reference(), "ghcr.io/user/repo");
}

#[test]
fn known_package_reference_with_tag_defaults_to_latest() {
    assert_eq!(package(vec![]).reference_with_tag(), "ghcr.io/user/repo:latest");
}

#[test]
fn known_package_reference_with_tag_uses_first_tag() {
    assert_eq!(
        package(vec!["v1.0.0", "v0.9.0"]).reference_with_tag(),
        "ghcr.io/user/repo:v1.0.0"
    );
}

fn pair(tag: &str, kind: &str) -> (String, String) {
    (tag.to_string(), kind.to_string())
}

#[test]
fn from_package_and_tags_separates_tag_types() {
    let p = KnownPackage::from_package_and_tags(
        7,
        "ghcr.io".to_string(),
        "user/repo".to_string(),
        Some("A test package".to_string()),
        "seen".to_string(),
        "created".to_string(),
        vec![
            pair("v2.0.0", "release"),
            pair("v1.0.0.sig", "signature"),
            pair("v1.0.0", "release"),
            pair("v1.0.0.att", "attestation"),
            pair("odd", "unknown-kind"),
            pair("v2.0.0.sig", "signature"),
        ],
    );
    assert_eq!(p.tags, vec!["v2.0.0", "v1.0.0", "odd"]);
    assert_eq!(p.signature_tags, vec!["v1.0.0.sig", "v2.0.0.sig"]);
    assert_eq!(p.attestation_tags, vec!["v1.0.0.att"]);
    assert_eq!(p.registry, "ghcr.io");
    assert_eq!(p.repository, "user/repo");
    assert_eq!(p.description, Some("A test package".to_string()));
    assert_eq!(p.last_seen_at, "seen");
    assert_eq!(p.created_at, "created");
    assert_eq!(p.reference_with_tag(), "ghcr.io/user/repo:v2.0.0");
}

#[test]
fn stored_tag_types_read_back_to_their_lists() {
    let tags = ["v1.0.0", "v1.0.0.sig", "v1.0.0.att", "latest"];
    let pairs: Vec<(String, String)> = tags
        .iter()
        .map(|t| (t.to_string(), TagType::from_tag(t).as_str().to_string()))
        .collect();
    let p = KnownPackage::from_package_and_tags(
        1,
        "ghcr.io".to_string(),
        "user/repo".to_string(),
        None,
        String::new(),
        String::new(),
        pairs,
    );
    assert_eq!(p.tags, vec!["v1.0.0", "latest"]);
    assert_eq!(p.signature_tags, vec!["v1.0.0.sig"]);
    assert_eq!(p.attestation_tags, vec!["v1.0.0.att"]);
    assert_eq!(
        p.tags.len() + p.signature_tags.len() + p.attestation_tags.len(),
        tags.len()
    );
}

#[test]
fn from_package_and_tags_without_tags() {
    let p = KnownPackage::from_package_and_tags(
        1,
        "docker.io".to_string(),
        "library/nginx".to_string(),
        None,
        String::new(),
        String::new(),
        vec![],
    );
    assert!(p.tags.is_empty());
    assert!(p.signature_tags.is_empty());
    assert!(p.attestation_tags.is_empty());
    assert_eq!(p.reference(), "docker.io/library/nginx");
}
