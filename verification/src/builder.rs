//! Decisions of building an artifact into the local registry: the image
//! name it is published under, the policy for an existing ref, and the
//! order of the staged blobs, and the shape of the staged manifest.
use crate::anonymous::{anonymous_artifact_image_name, all_lower_hex, anonymous_name_text, registry_id_prefix, AnonymousNameError};
use crate::image_ref::{spec_parse_reference, ImageRef};
use crate::media_types::{OCI_EMPTY_CONFIG_DIGEST, OCI_EMPTY_CONFIG_MEDIA_TYPE};
use crate::push::BlobDescriptor;
use vstd::string::StringExecFns;
use vstd::prelude::*;

verus! {

/// The name an artifact builder publishes under: given by the caller, or
/// synthesized from the target registry when the artifact is built.
#[derive(Debug)]
pub enum BuilderImageName {
    Explicit(ImageRef),
    Anonymous,
}

/// What publishing does when the ref already points at another manifest.
#[derive(Clone, Copy, PartialEq, Eq, Structural, Debug)]
pub enum RefConflictPolicy {
    KeepExisting,
    Replace,
}

/// Resolves the name of a build against the id of the target registry. An
/// explicit name keeps the caller's policy. An anonymous name is synthesized
/// from the registry id and the current local time, and replaces an existing
/// ref: two anonymous builds in the same second get the same name.
pub fn resolve_build_name(name: BuilderImageName, policy: RefConflictPolicy, registry_id: &str) -> (r: Result<
    (ImageRef, RefConflictPolicy),
    AnonymousNameError,
>)
    ensures
        match name {
            BuilderImageName::Explicit(n) => r matches Ok((m, p)) && m@ == n@ && p == policy,
            BuilderImageName::Anonymous => {
                let prefix = registry_id_prefix(registry_id@);
                &&& r matches Ok((_, p)) ==> p == RefConflictPolicy::Replace
                &&& !(prefix.len() == 8 && all_lower_hex(prefix)) ==> (r matches Err(
                    AnonymousNameError::InvalidRegistryId(q),
                ) && q@ == prefix)
                &&& (prefix.len() == 8 && all_lower_hex(prefix)) ==> exists|stamp: Seq<char>|
                    match #[trigger] spec_parse_reference(anonymous_name_text(prefix, stamp)) {
                        Ok(v) => r matches Ok((i, _)) && i@ == v,
                        Err(e) => r matches Err(AnonymousNameError::Reference(f)) && f == e,
                    }
            },
        },
{
    match name {
        BuilderImageName::Explicit(n) => Ok((n, policy)),
        BuilderImageName::Anonymous => {
            let named = anonymous_artifact_image_name(registry_id);
            match named {
                Ok(n) => Ok((n, RefConflictPolicy::Replace)),
                Err(e) => Err(e),
            }
        },
    }
}

/// Staging was reached with an anonymous name that was never resolved.
#[derive(Clone, Copy, PartialEq, Eq, Structural, Debug)]
pub struct UnresolvedAnonymousName;

/// The name a staged manifest is published under; an anonymous name must
/// have been resolved before staging.
pub fn staged_image_name(name: BuilderImageName) -> (r: Result<ImageRef, UnresolvedAnonymousName>)
    ensures
        match name {
            BuilderImageName::Explicit(n) => r matches Ok(m) && m@ == n@,
            BuilderImageName::Anonymous => r == Err::<ImageRef, UnresolvedAnonymousName>(UnresolvedAnonymousName),
        },
{
    match name {
        BuilderImageName::Explicit(n) => Ok(n),
        BuilderImageName::Anonymous => Err(UnresolvedAnonymousName),
    }
}

/// The blobs of a staged artifact: the manifest lists the layers in the
/// order they were added, and the blobs to store are those layers followed
/// by the empty config blob.
pub fn staged_blobs(layers: Vec<BlobDescriptor>, config: BlobDescriptor) -> (r: (Vec<BlobDescriptor>, Vec<BlobDescriptor>))
    ensures
        r.0@.map_values(|b: BlobDescriptor| b@) == layers@.map_values(|b: BlobDescriptor| b@),
        r.1@ == layers@.push(config),
{
    let mut manifest_layers: Vec<BlobDescriptor> = Vec::new();
    let mut i: usize = 0;
    while i < layers.len()
        invariant
            i <= layers@.len(),
            manifest_layers@.len() == i,
            forall|j: int| 0 <= j < i ==> (#[trigger] manifest_layers@[j])@ == layers@[j]@,
        decreases layers@.len() - i,
    {
        manifest_layers.push(layers[i].duplicate());
        i = i + 1;
    }
    assert(manifest_layers@.map_values(|b: BlobDescriptor| b@) =~= layers@.map_values(|b: BlobDescriptor| b@));
    let mut blobs = layers;
    blobs.push(config);
    (manifest_layers, blobs)
}

/// A descriptor as an image manifest lists it: media type, digest, size in
/// bytes, and annotations where the descriptor carries an annotation field.
#[derive(Clone, Debug, PartialEq)]
pub struct ManifestDescriptor {
    pub media_type: String,
    pub digest: String,
    pub size: u64,
    pub annotations: Option<Vec<(String, String)>>,
}

/// The OCI image manifest of an artifact, before it is written as JSON.
#[derive(Clone, Debug, PartialEq)]
pub struct ArtifactManifest {
    pub schema_version: u32,
    pub artifact_type: String,
    pub config: ManifestDescriptor,
    pub layers: Vec<ManifestDescriptor>,
    pub subject: Option<ManifestDescriptor>,
    /// Absent when the artifact has no annotations.
    pub annotations: Option<Vec<(String, String)>>,
}

/// The OCI empty descriptor used as the config of every artifact manifest:
/// the media type of the empty JSON document, the digest of `{}`, its size
/// of 2 bytes, and no annotation field.
pub fn empty_config_descriptor() -> (r: ManifestDescriptor)
    ensures
        r.media_type@ == OCI_EMPTY_CONFIG_MEDIA_TYPE@,
        r.digest@ == OCI_EMPTY_CONFIG_DIGEST@,
        r.size == 2,
        r.annotations is None,
{
    ManifestDescriptor {
        media_type: String::from_str(OCI_EMPTY_CONFIG_MEDIA_TYPE),
        digest: String::from_str(OCI_EMPTY_CONFIG_DIGEST),
        size: 2,
        annotations: None,
    }
}

/// The manifest of a staged artifact: schema version 2, the artifact type,
/// the empty config, the layers in the order they were added, the subject
/// where there is one, and the annotations only when there are some.
pub fn staged_manifest(
    artifact_type: String,
    layers: Vec<ManifestDescriptor>,
    subject: Option<ManifestDescriptor>,
    annotations: Vec<(String, String)>,
) -> (r: ArtifactManifest)
    ensures
        r.schema_version == 2,
        r.artifact_type@ == artifact_type@,
        r.config.media_type@ == OCI_EMPTY_CONFIG_MEDIA_TYPE@,
        r.config.digest@ == OCI_EMPTY_CONFIG_DIGEST@,
        r.config.size == 2,
        r.config.annotations is None,
        r.layers@ == layers@,
        r.subject == subject,
        annotations@.len() == 0 ==> r.annotations is None,
        annotations@.len() > 0 ==> r.annotations == Some(annotations),
{
    let kept = if annotations.len() == 0 {
        None
    } else {
        Some(annotations)
    };
    ArtifactManifest {
        schema_version: 2,
        artifact_type,
        config: empty_config_descriptor(),
        layers,
        subject,
        annotations: kept,
    }
}

} // verus!
