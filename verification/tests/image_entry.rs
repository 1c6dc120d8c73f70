use package_manager::entities::image::Model;
use package_manager::image_entry::{ColumnMatch, ImageEntry, ImageEntryError, InsertResult};

fn manifest_json() -> String {
    r#"{"schemaVersion":2,"mediaType":"application/vnd.oci.image.manifest.v1+json","config":{"mediaType":"application/vnd.oci.image.config.v1+json","digest":"sha256:abc123","size":100},"layers":[]}"#.to_string()
}

fn row(tag: Option<&str>, digest: Option<&str>, size: i64) -> Model {
    Model {
        id: 3,
        ref_registry: "ghcr.io".to_string(),
        ref_repository: "user/repo".to_string(),
        ref_mirror_registry: None,
        ref_tag: tag.map(|s| s.to_string()),
        ref_digest: digest.map(|s| s.to_string()),
        manifest: manifest_json(),
        size_on_disk: size,
    }
}

#[test]
fn image_reference_with_tag() {
    let e = ImageEntry::new_for_testing(
        "ghcr.io".to_string(),
        "user/repo".to_string(),
        Some("v1.0.0".to_string()),
        None,
        1024,
    );
    assert_eq!(e.reference(), "ghcr.io/user/repo:v1.0.0");
}

#[test]
fn image_reference_with_digest() {
    let e = ImageEntry::new_for_testing(
        "ghcr.io".to_string(),
        "user/repo".to_string(),
        None,
        Some("sha256:abc123".to_string()),
        1024,
    );
    assert_eq!(e.reference(), "ghcr.io/user/repo@sha256:abc123");
}

#[test]
fn image_reference_plain() {
    let e = ImageEntry::new_for_testing("ghcr.io".to_string(), "user/repo".to_string(), None, None, 1024);
    assert_eq!(e.reference(), "ghcr.io/user/repo");
}

#[test]
fn image_reference_prefers_tag_over_digest() {
    let e = ImageEntry::new_for_testing(
        "ghcr.io".to_string(),
        "user/repo".to_string(),
        Some("v1.0.0".to_string()),
        Some("sha256:abc123".to_string()),
        1,
    );
    assert_eq!(e.reference(), "ghcr.io/user/repo:v1.0.0");
}

#[test]
fn new_for_testing_holds_a_wasm_layer() {
    let e = ImageEntry::new_for_testing("ghcr.io".to_string(), "user/repo".to_string(), None, None, 12345678);
    assert_eq!(e.size_on_disk, 12345678);
    assert_eq!(e.manifest.schema_version, 2);
    assert_eq!(e.manifest.layers.len(), 1);
    assert_eq!(e.manifest.layers[0].media_type, "application/wasm");
    assert_eq!(e.manifest.config.digest, "sha256:abc123");
}

#[test]
fn from_model_reads_row_and_manifest() {
    let e = ImageEntry::from_model(row(Some("v1.0.0"), None, 12345678)).unwrap();
    assert_eq!(e.ref_registry, "ghcr.io");
    assert_eq!(e.ref_repository, "user/repo");
    assert_eq!(e.ref_tag, Some("v1.0.0".to_string()));
    assert_eq!(e.ref_digest, None);
    assert_eq!(e.size_on_disk, 12345678);
    assert_eq!(e.manifest.config.size, 100);
    assert!(e.manifest.layers.is_empty());
    assert_eq!(e.reference(), "ghcr.io/user/repo:v1.0.0");
}

#[test]
fn from_model_reads_negative_size_as_unsigned() {
    let e = ImageEntry::from_model(row(None, None, -1)).unwrap();
    assert_eq!(e.size_on_disk, u64::MAX);
}

#[test]
fn from_model_rejects_invalid_manifest() {
    let mut m = row(None, None, 1);
    m.manifest = "not json".to_string();
    assert!(matches!(ImageEntry::from_model(m), Err(ImageEntryError::InvalidManifest(_))));
}

#[test]
fn exists_filter_matches_exact_rows() {
    let f = ImageEntry::exists_filter("ghcr.io", "user/repo", Some("v1.0.0"), None);
    assert_eq!(f.tag, ColumnMatch::Equals("v1.0.0".to_string()));
    assert_eq!(f.digest, ColumnMatch::IsNull);
    assert!(f.matches(&row(Some("v1.0.0"), None, 1)));
    assert!(!f.matches(&row(Some("v2.0.0"), None, 1)));
    assert!(!f.matches(&row(Some("v1.0.0"), Some("sha256:abc123"), 1)));
    assert!(!f.matches(&row(None, None, 1)));
}

#[test]
fn exists_filter_with_digest() {
    let f = ImageEntry::exists_filter("ghcr.io", "user/repo", None, Some("sha256:abc123"));
    assert!(f.matches(&row(None, Some("sha256:abc123"), 1)));
    assert!(!f.matches(&row(None, Some("sha256:def456"), 1)));
}

#[test]
fn exists_filter_with_tag_and_digest() {
    let f = ImageEntry::exists_filter("ghcr.io", "user/repo", Some("v1.0.0"), Some("sha256:abc123"));
    assert!(f.matches(&row(Some("v1.0.0"), Some("sha256:abc123"), 1)));
    let wrong = ImageEntry::exists_filter("ghcr.io", "user/repo", Some("v1.0.0"), Some("sha256:wrong"));
    assert!(!wrong.matches(&row(Some("v1.0.0"), Some("sha256:abc123"), 1)));
}

#[test]
fn delete_filter_by_repository_only_matches_every_tag() {
    let f = ImageEntry::delete_filter("ghcr.io", "user/repo", None, None);
    assert_eq!(f.tag, ColumnMatch::Any);
    assert!(f.matches(&row(Some("v1.0.0"), None, 1)));
    assert!(f.matches(&row(Some("v2.0.0"), Some("sha256:abc123"), 1)));
    assert!(f.matches(&row(None, None, 1)));
    let other = ImageEntry::delete_filter("ghcr.io", "nonexistent/repo", Some("v1.0.0"), None);
    assert!(!other.matches(&row(Some("v1.0.0"), None, 1)));
}

#[test]
fn delete_filter_with_tag_or_digest() {
    let by_tag = ImageEntry::delete_filter("ghcr.io", "user/repo", Some("v1.0.0"), None);
    assert!(by_tag.matches(&row(Some("v1.0.0"), Some("sha256:abc123"), 1)));
    assert!(!by_tag.matches(&row(Some("v2.0.0"), None, 1)));
    let by_digest = ImageEntry::delete_filter("ghcr.io", "user/repo", None, Some("sha256:abc123"));
    assert!(by_digest.matches(&row(None, Some("sha256:abc123"), 1)));
    assert!(!by_digest.matches(&row(None, None, 1)));
}

#[test]
fn insert_results_differ() {
    assert_ne!(InsertResult::Inserted, InsertResult::AlreadyExists);
}

#[test]
fn from_model_and_manifest_keeps_the_given_manifest() {
    let mut manifest = oci_client::manifest::OciImageManifest::default();
    manifest.layers.push(oci_client::manifest::OciDescriptor::default());
    let e = ImageEntry::from_model_and_manifest(row(Some("v1.0.0"), None, 9), Ok(manifest)).unwrap();
    assert_eq!(e.manifest.layers.len(), 1);
    assert_eq!(e.size_on_disk, 9);
    assert_eq!(e.reference(), "ghcr.io/user/repo:v1.0.0");
    let err = serde_json::from_str::<oci_client::manifest::OciImageManifest>("x").unwrap_err();
    assert!(matches!(
        ImageEntry::from_model_and_manifest(row(None, None, 1), Err(err)),
        Err(ImageEntryError::InvalidManifest(_))
    ));
}
