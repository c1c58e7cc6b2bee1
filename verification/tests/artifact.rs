use ommx::anonymous::{
    anonymous_artifact_image_name, anonymous_artifact_image_name_at, is_anonymous_artifact_ref_name,
    is_anonymous_artifact_tag, AnonymousNameError, ANONYMOUS_ARTIFACT_REF_NAME_SUFFIX,
};
use ommx::builder::{
    empty_config_descriptor, resolve_build_name, staged_blobs, staged_image_name, staged_manifest, BuilderImageName,
    ManifestDescriptor, RefConflictPolicy, UnresolvedAnonymousName,
};
use ommx::image_ref::ImageRef;
use ommx::media_types as mt;
use ommx::push::{collect_blob_descriptors, deduplicate_blob_descriptors, outcome_for, BlobDescriptor, PushBlobOutcome};
use ommx::remote::{classify_oci_error, Category, OciErrorKind, RegistryErrorCode};

/// The full text of a reference with a tag and no digest.
fn render(r: &ImageRef) -> String {
    format!("{}/{}:{}", r.registry(), r.repository(), r.tag().unwrap())
}

#[test]
fn anonymous_image_name_parses() {
    let fake_registry_id = "deadbeef0123456789abcdef01234567";
    let name = anonymous_artifact_image_name(fake_registry_id).expect("synthetic ref parses");
    let s = render(&name);
    let (before_colon, tag) = s.rsplit_once(':').expect("ref must include `:tag`");
    assert!(
        before_colon.ends_with(ANONYMOUS_ARTIFACT_REF_NAME_SUFFIX),
        "ref `{before_colon}` must end with `{ANONYMOUS_ARTIFACT_REF_NAME_SUFFIX}`",
    );
    assert!(before_colon.starts_with("deadbeef."), "ref `{before_colon}` must start with the truncated registry-id prefix",);
    assert_eq!(tag.len(), 15, "tag `{tag}` must be 15 chars");
    assert!(tag.chars().nth(8) == Some('T'), "tag `{tag}` must have `T` at position 8",);
}

#[test]
fn anonymous_ref_filter_rejects_false_positives() {
    let synth = render(&anonymous_artifact_image_name("0123456789abcdef0123456789abcdef").unwrap());
    let (name, tag) = synth.rsplit_once(':').unwrap();
    assert!(is_anonymous_artifact_ref_name(name));
    assert!(is_anonymous_artifact_tag(tag));

    assert!(!is_anonymous_artifact_ref_name("myhost.ommx.local/anonymous"));
    assert!(!is_anonymous_artifact_ref_name("ABCDEFGH.ommx.local/anonymous"));

    assert!(!is_anonymous_artifact_tag("v1"));
    assert!(!is_anonymous_artifact_tag("20260512-153045"));
    assert!(!is_anonymous_artifact_tag("2026051215304500"));
    assert!(!is_anonymous_artifact_tag("XXXXXXXXTXXXXXX"));
}

#[test]
fn anonymous_image_name_truncates_registry_id() {
    let full = "0123456789abcdef0123456789abcdef";
    let name = render(&anonymous_artifact_image_name(full).unwrap());
    let host = name.split('/').next().expect("synthetic ref has a host segment");
    assert_eq!(host, format!("{}.ommx.local", &full[..8]));
}

#[test]
fn anonymous_image_name_at_a_fixed_stamp() {
    let name = anonymous_artifact_image_name_at("deadbeef99", "20260512T153045").unwrap();
    assert_eq!(name.registry(), "deadbeef.ommx.local");
    assert_eq!(name.repository(), "anonymous");
    assert_eq!(name.tag(), Some("20260512T153045"));
    match anonymous_artifact_image_name_at("DEADBEEF", "20260512T153045") {
        Err(AnonymousNameError::InvalidRegistryId(prefix)) => assert_eq!(prefix, "DEADBEEF"),
        other => panic!("unexpected {other:?}"),
    }
    match anonymous_artifact_image_name_at("dead", "20260512T153045") {
        Err(AnonymousNameError::InvalidRegistryId(prefix)) => assert_eq!(prefix, "dead"),
        other => panic!("unexpected {other:?}"),
    }
}

#[test]
fn anonymous_tag_shape() {
    assert!(is_anonymous_artifact_tag("20260512T153045"));
    assert!(!is_anonymous_artifact_tag("20260512t153045"));
    assert!(is_anonymous_artifact_ref_name("0123abcd.ommx.local/anonymous"));
    assert!(!is_anonymous_artifact_ref_name("0123abcd.ommx.local/anonymous/x"));
}

fn registry_error(codes: Vec<RegistryErrorCode>) -> OciErrorKind {
    OciErrorKind::RegistryError { codes }
}

#[test]
fn classifies_manifest_absence_without_string_matching() {
    assert_eq!(classify_oci_error(&registry_error(vec![RegistryErrorCode::ManifestUnknown])), Category::ManifestNotFound);
    assert_eq!(classify_oci_error(&registry_error(vec![RegistryErrorCode::NameUnknown])), Category::ManifestNotFound);
}

#[test]
fn authentication_and_authorization_take_priority_over_absence() {
    assert_eq!(
        classify_oci_error(&registry_error(vec![RegistryErrorCode::ManifestUnknown, RegistryErrorCode::Unauthorized])),
        Category::Authentication
    );
    assert_eq!(classify_oci_error(&registry_error(vec![RegistryErrorCode::Denied])), Category::Authorization);
}

#[test]
fn classifies_registry_server_failure_as_transport() {
    assert_eq!(classify_oci_error(&OciErrorKind::ServerError { code: 503 }), Category::Transport);
}

#[test]
fn registry_envelopes_and_status_codes() {
    assert_eq!(classify_oci_error(&registry_error(vec![])), Category::Other);
    assert_eq!(
        classify_oci_error(&registry_error(vec![RegistryErrorCode::ManifestUnknown, RegistryErrorCode::ManifestInvalid])),
        Category::InvalidArtifact
    );
    assert_eq!(classify_oci_error(&registry_error(vec![RegistryErrorCode::Other("X".to_string())])), Category::Other);
    assert_eq!(classify_oci_error(&OciErrorKind::ServerError { code: 401 }), Category::Authentication);
    assert_eq!(classify_oci_error(&OciErrorKind::ServerError { code: 403 }), Category::Authorization);
    assert_eq!(classify_oci_error(&OciErrorKind::ServerError { code: 404 }), Category::ManifestNotFound);
    assert_eq!(classify_oci_error(&OciErrorKind::ServerError { code: 418 }), Category::Other);
    assert_eq!(classify_oci_error(&OciErrorKind::ImageManifestNotFoundError), Category::ManifestNotFound);
    assert_eq!(classify_oci_error(&OciErrorKind::JsonError), Category::InvalidArtifact);
}

fn blob(digest: &str, size: u64) -> BlobDescriptor {
    BlobDescriptor { digest: digest.to_string(), size }
}

const SAME: &str = "sha256:f20c6bfb794699d9135d7a40dd2beceb9e40a561e9d5fc3ee4004e76b32d7840";
const OTHER: &str = "sha256:dd29cbf4ea7ddf38a67e400c8e3ac7ad6f8fa8f464434ff9c3a548cdcad9e1a8";

#[test]
fn duplicate_descriptors_are_deduplicated_by_digest() {
    let first = blob(SAME, 9);
    let duplicate = blob(SAME, 9);
    let other = blob(OTHER, 10);
    let descriptors = vec![first, duplicate, other];

    let unique = deduplicate_blob_descriptors(&descriptors).unwrap();

    assert_eq!(unique.len(), 2);
    assert_eq!(unique[0].digest, descriptors[0].digest);
    assert_eq!(unique[1].digest, descriptors[2].digest);
}

#[test]
fn conflicting_blob_sizes_are_refused() {
    let descriptors = vec![blob(SAME, 9), blob(OTHER, 10), blob(SAME, 8)];
    let err = deduplicate_blob_descriptors(&descriptors).err().unwrap();
    assert_eq!(err.digest, SAME);
    assert_eq!((err.first, err.second), (9, 8));
}

#[test]
fn push_order_and_outcomes() {
    let all = collect_blob_descriptors(blob("sha256:c", 2), vec![blob("sha256:a", 1), blob("sha256:b", 3)]);
    let digests: Vec<&str> = all.iter().map(|b| b.digest.as_str()).collect();
    assert_eq!(digests, vec!["sha256:c", "sha256:a", "sha256:b"]);
    assert_eq!(outcome_for(true), PushBlobOutcome::Skipped);
    assert_eq!(outcome_for(false), PushBlobOutcome::Transferred);
}

#[test]
fn build_names_and_staged_blobs() {
    let explicit = ImageRef::parse("ghcr.io/jij-inc/ommx/demo:v1").unwrap();
    let (name, policy) =
        resolve_build_name(BuilderImageName::Explicit(explicit.clone()), RefConflictPolicy::KeepExisting, "ignored").unwrap();
    assert_eq!(name, explicit);
    assert_eq!(policy, RefConflictPolicy::KeepExisting);

    let (name, policy) =
        resolve_build_name(BuilderImageName::Anonymous, RefConflictPolicy::KeepExisting, "0123abcd4567").unwrap();
    assert_eq!(name.registry(), "0123abcd.ommx.local");
    assert_eq!(policy, RefConflictPolicy::Replace);
    assert!(matches!(
        resolve_build_name(BuilderImageName::Anonymous, RefConflictPolicy::KeepExisting, "xyz"),
        Err(AnonymousNameError::InvalidRegistryId(_))
    ));

    assert_eq!(staged_image_name(BuilderImageName::Explicit(explicit.clone())).unwrap(), explicit);
    assert_eq!(staged_image_name(BuilderImageName::Anonymous).err(), Some(UnresolvedAnonymousName));

    let (layers, blobs) = staged_blobs(vec![blob("sha256:a", 1), blob("sha256:b", 2)], blob("sha256:e", 2));
    let layer_digests: Vec<&str> = layers.iter().map(|b| b.digest.as_str()).collect();
    let blob_digests: Vec<&str> = blobs.iter().map(|b| b.digest.as_str()).collect();
    assert_eq!(layer_digests, vec!["sha256:a", "sha256:b"]);
    assert_eq!(blob_digests, vec!["sha256:a", "sha256:b", "sha256:e"]);
}

#[test]
fn payload_versions_follow_the_media_type() {
    assert_eq!(mt::instance_payload_version(mt::V1_INSTANCE_MEDIA_TYPE), Ok(mt::RootPayloadVersion::V1));
    assert_eq!(mt::instance_payload_version(mt::V2_INSTANCE_MEDIA_TYPE), Ok(mt::RootPayloadVersion::V2));
    assert_eq!(
        mt::solution_payload_version(mt::V1_INSTANCE_MEDIA_TYPE),
        Err(mt::UnexpectedMediaType {
            expected_v1: mt::V1_SOLUTION_MEDIA_TYPE,
            expected_v2: mt::V2_SOLUTION_MEDIA_TYPE,
            actual: mt::V1_INSTANCE_MEDIA_TYPE.to_string(),
        })
    );
    assert!(mt::is_sample_set_payload_media_type("application/org.ommx.v2.sample-set"));
    assert!(!mt::is_parametric_instance_payload_media_type("application/org.ommx.v1.instance"));
    assert!(mt::is_parametric_instance_payload_media_type(mt::V1_PARAMETRIC_INSTANCE_MEDIA_TYPE));
    assert!(mt::is_solution_payload_media_type(mt::V2_SOLUTION_MEDIA_TYPE));
    assert_eq!(mt::parametric_instance_payload_version("x").err().map(|e| e.actual), Some("x".to_string()));
    assert_eq!(mt::sample_set_payload_version(mt::V1_SAMPLE_SET_MEDIA_TYPE), Ok(mt::RootPayloadVersion::V1));
}

#[test]
fn only_ommx_image_manifests_are_read() {
    assert_eq!(mt::ensure_ommx_image_manifest(Some("application/org.ommx.v1.artifact")), Ok(()));
    assert_eq!(mt::ensure_ommx_image_manifest(None), Err(mt::NotOmmxArtifact::MissingArtifactType));
    assert_eq!(
        mt::ensure_ommx_image_manifest(Some("application/other")),
        Err(mt::NotOmmxArtifact::OtherArtifactType("application/other".to_string()))
    );
    assert!(mt::check_persisted_manifest_media_type(mt::OCI_IMAGE_MANIFEST_MEDIA_TYPE).is_ok());
    assert_eq!(
        mt::check_persisted_manifest_media_type("application/vnd.oci.artifact.manifest.v1+json").err().map(|e| e.media_type),
        Some("application/vnd.oci.artifact.manifest.v1+json".to_string())
    );
}

#[test]
fn already_present_descriptors_are_not_uploaded() {
    assert_eq!(outcome_for(true), PushBlobOutcome::Skipped);
}

#[test]
fn missing_descriptor_is_read_and_uploaded_in_one_operation() {
    assert_eq!(outcome_for(false), PushBlobOutcome::Transferred);
}

#[test]
fn instance_media_types() {
    assert!(mt::is_instance_payload_media_type(mt::V1_INSTANCE_MEDIA_TYPE));
    assert!(mt::is_instance_payload_media_type(mt::V2_INSTANCE_MEDIA_TYPE));
    assert!(!mt::is_instance_payload_media_type(mt::V1_SOLUTION_MEDIA_TYPE));
}

#[test]
fn staged_manifest_has_the_artifact_shape() {
    let layer = ManifestDescriptor {
        media_type: mt::V1_INSTANCE_MEDIA_TYPE.to_string(),
        digest: "sha256:0000000000000000000000000000000000000000000000000000000000000000".to_string(),
        size: 8,
        annotations: Some(vec![]),
    };
    let m = staged_manifest(mt::V1_ARTIFACT_MEDIA_TYPE.to_string(), vec![layer.clone()], None, vec![]);
    assert_eq!(m.schema_version, 2);
    assert_eq!(m.artifact_type, mt::V1_ARTIFACT_MEDIA_TYPE);
    assert_eq!(m.config, empty_config_descriptor());
    assert_eq!(m.config.media_type, mt::OCI_EMPTY_CONFIG_MEDIA_TYPE);
    assert_eq!(m.config.digest, mt::OCI_EMPTY_CONFIG_DIGEST);
    assert_eq!(m.config.size, b"{}".len() as u64);
    assert_eq!(m.config.annotations, None);
    assert_eq!(m.layers, vec![layer.clone()]);
    assert_eq!(m.annotations, None);
    assert_eq!(m.subject, None);

    let annotations = vec![("org.ommx.v1.instance.title".to_string(), "demo".to_string())];
    let m = staged_manifest(mt::V1_ARTIFACT_MEDIA_TYPE.to_string(), vec![], Some(layer.clone()), annotations.clone());
    assert_eq!(m.annotations, Some(annotations));
    assert_eq!(m.subject, Some(layer));
}
