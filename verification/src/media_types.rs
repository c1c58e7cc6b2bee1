//! Media types of OMMX artifacts and their layers, and which payload
//! version a layer's media type announces.
use vstd::prelude::*;
use vstd::string::StringExecFns;

verus! {

pub const OCI_IMAGE_MANIFEST_MEDIA_TYPE: &'static str = "application/vnd.oci.image.manifest.v1+json";

/// Media type of the OCI empty descriptor used as the config blob.
pub const OCI_EMPTY_CONFIG_MEDIA_TYPE: &'static str = "application/vnd.oci.empty.v1+json";

/// SHA-256 digest of the two-byte empty JSON document `{}`.
pub const OCI_EMPTY_CONFIG_DIGEST: &'static str = "sha256:44136fa355b3678a1146ad16f7e8649e94fb4fc21fe77e8310c060f61caaff8a";

pub const V1_ARTIFACT_MEDIA_TYPE: &'static str = "application/org.ommx.v1.artifact";

pub const V1_CONFIG_MEDIA_TYPE: &'static str = "application/org.ommx.v1.config+json";

pub const V1_INSTANCE_MEDIA_TYPE: &'static str = "application/org.ommx.v1.instance";

pub const V1_PARAMETRIC_INSTANCE_MEDIA_TYPE: &'static str = "application/org.ommx.v1.parametric-instance";

pub const V1_SOLUTION_MEDIA_TYPE: &'static str = "application/org.ommx.v1.solution";

pub const V1_SAMPLE_SET_MEDIA_TYPE: &'static str = "application/org.ommx.v1.sample-set";

pub const V2_INSTANCE_MEDIA_TYPE: &'static str = "application/org.ommx.v2.instance";

pub const V2_PARAMETRIC_INSTANCE_MEDIA_TYPE: &'static str = "application/org.ommx.v2.parametric-instance";

pub const V2_SOLUTION_MEDIA_TYPE: &'static str = "application/org.ommx.v2.solution";

pub const V2_SAMPLE_SET_MEDIA_TYPE: &'static str = "application/org.ommx.v2.sample-set";

pub const TRACE_OTLP_PROTOBUF_MEDIA_TYPE: &'static str = "application/org.ommx.trace.otlp+protobuf";

pub const DIAGNOSTIC_MSGPACK_MEDIA_TYPE: &'static str = "application/org.ommx.diagnostic+msgpack";

/// Whether two texts are the same.
pub(crate) fn same_text(a: &str, b: &str) -> (r: bool)
    ensures
        r == (a@ == b@),
{
    let x = String::from_str(a);
    let y = String::from_str(b);
    x == y
}

/// The version of the encoding of a root payload layer.
#[derive(Clone, Copy, PartialEq, Eq, Structural, Debug)]
pub enum RootPayloadVersion {
    V1,
    V2,
}

/// A layer media type that is neither of the two expected ones.
#[derive(Clone, Debug, PartialEq)]
pub struct UnexpectedMediaType {
    pub expected_v1: &'static str,
    pub expected_v2: &'static str,
    pub actual: String,
}

/// The payload version a media type announces, given the v1 and v2 media
/// types of the payload; any other media type is refused.
pub fn root_payload_version(media_type: &str, v1: &'static str, v2: &'static str) -> (r: Result<
    RootPayloadVersion,
    UnexpectedMediaType,
>)
    ensures
        media_type@ == v1@ ==> r == Ok::<RootPayloadVersion, UnexpectedMediaType>(RootPayloadVersion::V1),
        media_type@ != v1@ && media_type@ == v2@ ==> r == Ok::<RootPayloadVersion, UnexpectedMediaType>(
            RootPayloadVersion::V2,
        ),
        media_type@ != v1@ && media_type@ != v2@ ==> (r matches Err(e) && e.expected_v1 == v1 && e.expected_v2 == v2
            && e.actual@ == media_type@),
{
    if same_text(media_type, v1) {
        Ok(RootPayloadVersion::V1)
    } else if same_text(media_type, v2) {
        Ok(RootPayloadVersion::V2)
    } else {
        Err(UnexpectedMediaType { expected_v1: v1, expected_v2: v2, actual: String::from_str(media_type) })
    }
}

/// The encoding version of an instance layer.
pub fn instance_payload_version(media_type: &str) -> (r: Result<RootPayloadVersion, UnexpectedMediaType>)
    ensures
        media_type@ == V1_INSTANCE_MEDIA_TYPE@ ==> r == Ok::<RootPayloadVersion, UnexpectedMediaType>(RootPayloadVersion::V1),
        media_type@ != V1_INSTANCE_MEDIA_TYPE@ && media_type@ == V2_INSTANCE_MEDIA_TYPE@ ==> r == Ok::<
            RootPayloadVersion,
            UnexpectedMediaType,
        >(RootPayloadVersion::V2),
        media_type@ != V1_INSTANCE_MEDIA_TYPE@ && media_type@ != V2_INSTANCE_MEDIA_TYPE@ ==> r is Err,
{
    root_payload_version(media_type, V1_INSTANCE_MEDIA_TYPE, V2_INSTANCE_MEDIA_TYPE)
}

/// The encoding version of a parametric-instance layer.
pub fn parametric_instance_payload_version(media_type: &str) -> (r: Result<RootPayloadVersion, UnexpectedMediaType>)
    ensures
        media_type@ == V1_PARAMETRIC_INSTANCE_MEDIA_TYPE@ ==> r == Ok::<RootPayloadVersion, UnexpectedMediaType>(
            RootPayloadVersion::V1,
        ),
        media_type@ != V1_PARAMETRIC_INSTANCE_MEDIA_TYPE@ && media_type@ == V2_PARAMETRIC_INSTANCE_MEDIA_TYPE@ ==> r
            == Ok::<RootPayloadVersion, UnexpectedMediaType>(RootPayloadVersion::V2),
        media_type@ != V1_PARAMETRIC_INSTANCE_MEDIA_TYPE@ && media_type@ != V2_PARAMETRIC_INSTANCE_MEDIA_TYPE@ ==> r is Err,
{
    root_payload_version(media_type, V1_PARAMETRIC_INSTANCE_MEDIA_TYPE, V2_PARAMETRIC_INSTANCE_MEDIA_TYPE)
}

/// The encoding version of a solution layer.
pub fn solution_payload_version(media_type: &str) -> (r: Result<RootPayloadVersion, UnexpectedMediaType>)
    ensures
        media_type@ == V1_SOLUTION_MEDIA_TYPE@ ==> r == Ok::<RootPayloadVersion, UnexpectedMediaType>(RootPayloadVersion::V1),
        media_type@ != V1_SOLUTION_MEDIA_TYPE@ && media_type@ == V2_SOLUTION_MEDIA_TYPE@ ==> r == Ok::<
            RootPayloadVersion,
            UnexpectedMediaType,
        >(RootPayloadVersion::V2),
        media_type@ != V1_SOLUTION_MEDIA_TYPE@ && media_type@ != V2_SOLUTION_MEDIA_TYPE@ ==> r is Err,
{
    root_payload_version(media_type, V1_SOLUTION_MEDIA_TYPE, V2_SOLUTION_MEDIA_TYPE)
}

/// The encoding version of a sample-set layer.
pub fn sample_set_payload_version(media_type: &str) -> (r: Result<RootPayloadVersion, UnexpectedMediaType>)
    ensures
        media_type@ == V1_SAMPLE_SET_MEDIA_TYPE@ ==> r == Ok::<RootPayloadVersion, UnexpectedMediaType>(RootPayloadVersion::V1),
        media_type@ != V1_SAMPLE_SET_MEDIA_TYPE@ && media_type@ == V2_SAMPLE_SET_MEDIA_TYPE@ ==> r == Ok::<
            RootPayloadVersion,
            UnexpectedMediaType,
        >(RootPayloadVersion::V2),
        media_type@ != V1_SAMPLE_SET_MEDIA_TYPE@ && media_type@ != V2_SAMPLE_SET_MEDIA_TYPE@ ==> r is Err,
{
    root_payload_version(media_type, V1_SAMPLE_SET_MEDIA_TYPE, V2_SAMPLE_SET_MEDIA_TYPE)
}

/// Whether the media type stores an instance, in either encoding.
pub fn is_instance_payload_media_type(media_type: &str) -> (r: bool)
    ensures
        r == (media_type@ == V1_INSTANCE_MEDIA_TYPE@ || media_type@ == V2_INSTANCE_MEDIA_TYPE@),
{
    instance_payload_version(media_type).is_ok()
}

/// Whether the media type stores a parametric instance, in either encoding.
pub fn is_parametric_instance_payload_media_type(media_type: &str) -> (r: bool)
    ensures
        r == (media_type@ == V1_PARAMETRIC_INSTANCE_MEDIA_TYPE@ || media_type@ == V2_PARAMETRIC_INSTANCE_MEDIA_TYPE@),
{
    parametric_instance_payload_version(media_type).is_ok()
}

/// Whether the media type stores a solution, in either encoding.
pub fn is_solution_payload_media_type(media_type: &str) -> (r: bool)
    ensures
        r == (media_type@ == V1_SOLUTION_MEDIA_TYPE@ || media_type@ == V2_SOLUTION_MEDIA_TYPE@),
{
    solution_payload_version(media_type).is_ok()
}

/// Whether the media type stores a sample set, in either encoding.
pub fn is_sample_set_payload_media_type(media_type: &str) -> (r: bool)
    ensures
        r == (media_type@ == V1_SAMPLE_SET_MEDIA_TYPE@ || media_type@ == V2_SAMPLE_SET_MEDIA_TYPE@),
{
    sample_set_payload_version(media_type).is_ok()
}

/// Why an image manifest is not an OMMX artifact.
#[derive(Clone, Debug, PartialEq)]
pub enum NotOmmxArtifact {
    /// The manifest has no `artifactType`.
    MissingArtifactType,
    /// The manifest's `artifactType` is another one.
    OtherArtifactType(String),
}

/// An image manifest is an OMMX artifact exactly when its `artifactType` is
/// the OMMX artifact media type.
pub fn ensure_ommx_image_manifest(artifact_type: Option<&str>) -> (r: Result<(), NotOmmxArtifact>)
    ensures
        match artifact_type {
            None => r == Err::<(), NotOmmxArtifact>(NotOmmxArtifact::MissingArtifactType),
            Some(t) => if t@ == V1_ARTIFACT_MEDIA_TYPE@ {
                r is Ok
            } else {
                r matches Err(NotOmmxArtifact::OtherArtifactType(s)) && s@ == t@
            },
        },
{
    match artifact_type {
        None => Err(NotOmmxArtifact::MissingArtifactType),
        Some(t) => if same_text(t, V1_ARTIFACT_MEDIA_TYPE) {
            Ok(())
        } else {
            Err(NotOmmxArtifact::OtherArtifactType(String::from_str(t)))
        },
    }
}

/// A manifest record persisted under a media type other than the OCI image
/// manifest one, which this build does not read.
#[derive(Clone, Debug, PartialEq)]
pub struct UnsupportedManifestMediaType {
    pub media_type: String,
}

/// The local registry reads only manifests persisted as OCI image manifests.
pub fn check_persisted_manifest_media_type(media_type: &str) -> (r: Result<(), UnsupportedManifestMediaType>)
    ensures
        media_type@ == OCI_IMAGE_MANIFEST_MEDIA_TYPE@ ==> r is Ok,
        media_type@ != OCI_IMAGE_MANIFEST_MEDIA_TYPE@ ==> (r matches Err(e) && e.media_type@ == media_type@),
{
    if same_text(media_type, OCI_IMAGE_MANIFEST_MEDIA_TYPE) {
        Ok(())
    } else {
        Err(UnsupportedManifestMediaType { media_type: String::from_str(media_type) })
    }
}

} // verus!
