//! Stable classification of failures while looking up or importing an
//! artifact from a remote registry.
use crate::image_ref::ImageRef;
use crate::transport::{InvalidAuthenticationConfiguration, InvalidRemoteResponse, RemoteTransportFailure};
use vstd::prelude::*;
use vstd::string::StringExecFns;

verus! {

/// The stable categories a remote failure is sorted into.
#[derive(Clone, Copy, PartialEq, Eq, Structural, Debug)]
pub enum Category {
    ManifestNotFound,
    Authentication,
    Authorization,
    Transport,
    InvalidArtifact,
    Other,
}

/// Error codes of the OCI distribution error envelope.
#[derive(Clone, Debug, PartialEq)]
pub enum RegistryErrorCode {
    BlobUnknown,
    BlobUploadInvalid,
    BlobUploadUnknown,
    DigestInvalid,
    ManifestBlobUnknown,
    ManifestInvalid,
    ManifestUnknown,
    ManifestUnverified,
    NameInvalid,
    NameUnknown,
    NotFound,
    SizeInvalid,
    TagInvalid,
    Unauthorized,
    Denied,
    Unsupported,
    Toomanyrequests,
    Other(String),
}

pub open spec fn code_means_absent(c: RegistryErrorCode) -> bool {
    c is ManifestUnknown || c is NameUnknown || c is NotFound
}

pub open spec fn code_means_invalid(c: RegistryErrorCode) -> bool {
    c is DigestInvalid || c is ManifestBlobUnknown || c is ManifestInvalid || c is ManifestUnverified
        || c is NameInvalid || c is SizeInvalid || c is TagInvalid
}

/// Category of a registry error envelope: authentication and authorization
/// codes take priority; a non-empty envelope of "not found" codes means the
/// manifest is absent; an invalid-content code means an invalid artifact.
pub open spec fn registry_codes_category(codes: Seq<RegistryErrorCode>) -> Category {
    if exists|i: int| 0 <= i < codes.len() && (#[trigger] codes[i]) is Unauthorized {
        Category::Authentication
    } else if exists|i: int| 0 <= i < codes.len() && (#[trigger] codes[i]) is Denied {
        Category::Authorization
    } else if codes.len() > 0 && forall|i: int| 0 <= i < codes.len() ==> code_means_absent(#[trigger] codes[i]) {
        Category::ManifestNotFound
    } else if exists|i: int| 0 <= i < codes.len() && code_means_invalid(#[trigger] codes[i]) {
        Category::InvalidArtifact
    } else {
        Category::Other
    }
}

/// Sorts the codes of a registry error envelope into a category.
pub fn classify_registry_codes(codes: &Vec<RegistryErrorCode>) -> (r: Category)
    ensures
        r == registry_codes_category(codes@),
{
    let n = codes.len();
    let mut i: usize = 0;
    while i < n
        invariant
            n == codes@.len(),
            i <= n,
            forall|j: int| 0 <= j < i ==> !(#[trigger] codes@[j] is Unauthorized),
        decreases n - i,
    {
        if let RegistryErrorCode::Unauthorized = codes[i] {
            return Category::Authentication;
        }
        i = i + 1;
    }
    let mut i: usize = 0;
    while i < n
        invariant
            n == codes@.len(),
            i <= n,
            forall|j: int| 0 <= j < n ==> !(#[trigger] codes@[j] is Unauthorized),
            forall|j: int| 0 <= j < i ==> !(#[trigger] codes@[j] is Denied),
        decreases n - i,
    {
        if let RegistryErrorCode::Denied = codes[i] {
            return Category::Authorization;
        }
        i = i + 1;
    }
    let mut all_absent = n > 0;
    let mut i: usize = 0;
    while i < n
        invariant
            n == codes@.len(),
            i <= n,
            all_absent == (n > 0 && forall|j: int| 0 <= j < i ==> code_means_absent(#[trigger] codes@[j])),
            forall|j: int| 0 <= j < n ==> !(#[trigger] codes@[j] is Unauthorized),
            forall|j: int| 0 <= j < n ==> !(#[trigger] codes@[j] is Denied),
        decreases n - i,
    {
        let absent = match codes[i] {
            RegistryErrorCode::ManifestUnknown | RegistryErrorCode::NameUnknown | RegistryErrorCode::NotFound => true,
            _ => false,
        };
        proof {
            assert(absent == code_means_absent(codes@[i as int]));
        }
        all_absent = all_absent && absent;
        i = i + 1;
    }
    if all_absent {
        return Category::ManifestNotFound;
    }
    let mut i: usize = 0;
    while i < n
        invariant
            n == codes@.len(),
            i <= n,
            forall|j: int| 0 <= j < i ==> !code_means_invalid(#[trigger] codes@[j]),
            forall|j: int| 0 <= j < n ==> !(#[trigger] codes@[j] is Unauthorized),
            forall|j: int| 0 <= j < n ==> !(#[trigger] codes@[j] is Denied),
            !(n > 0 && forall|j: int| 0 <= j < n ==> code_means_absent(#[trigger] codes@[j])),
        decreases n - i,
    {
        let invalid = match codes[i] {
            RegistryErrorCode::DigestInvalid | RegistryErrorCode::ManifestBlobUnknown
            | RegistryErrorCode::ManifestInvalid | RegistryErrorCode::ManifestUnverified
            | RegistryErrorCode::NameInvalid | RegistryErrorCode::SizeInvalid
            | RegistryErrorCode::TagInvalid => true,
            _ => false,
        };
        proof {
            assert(invalid == code_means_invalid(codes@[i as int]));
        }
        if invalid {
            return Category::InvalidArtifact;
        }
        i = i + 1;
    }
    Category::Other
}

/// The kinds of failure the OCI distribution client reports, with the data the
/// classification reads.
#[derive(Clone, Debug, PartialEq)]
pub enum OciErrorKind {
    AuthenticationFailure,
    ConfigConversionError,
    DigestError,
    GenericError,
    HeaderValueError,
    ImageManifestNotFoundError,
    ImageIndexParsingNoPlatformResolverError,
    IncompatibleLayerMediaTypeError,
    IoError,
    JsonError,
    ManifestEncodingError,
    ManifestParsingError,
    PushNoDataError,
    PushLayerNoDataError,
    PullNoLayersError,
    RegistryError { codes: Vec<RegistryErrorCode> },
    RegistryNoDigestError,
    RegistryNoLocationError,
    RegistryTokenDecodeError,
    RequestError,
    ServerError { code: u16 },
    SpecViolationError,
    UnauthorizedError,
    UrlParseError,
    UnsupportedMediaTypeError,
    UnsupportedSchemaVersionError,
    VersionedParsingError,
}

/// Category of an OCI distribution client failure.
pub open spec fn oci_error_category(e: OciErrorKind) -> Category {
    match e {
        OciErrorKind::ImageManifestNotFoundError => Category::ManifestNotFound,
        OciErrorKind::AuthenticationFailure | OciErrorKind::ConfigConversionError
        | OciErrorKind::RegistryTokenDecodeError | OciErrorKind::UnauthorizedError => Category::Authentication,
        OciErrorKind::RegistryError { codes } => registry_codes_category(codes@),
        OciErrorKind::RequestError | OciErrorKind::IoError => Category::Transport,
        OciErrorKind::ServerError { code } => if code == 401 {
            Category::Authentication
        } else if code == 403 {
            Category::Authorization
        } else if code == 404 {
            Category::ManifestNotFound
        } else if code >= 500 {
            Category::Transport
        } else {
            Category::Other
        },
        OciErrorKind::DigestError | OciErrorKind::HeaderValueError | OciErrorKind::JsonError
        | OciErrorKind::ManifestEncodingError | OciErrorKind::ManifestParsingError
        | OciErrorKind::RegistryNoDigestError | OciErrorKind::SpecViolationError
        | OciErrorKind::UnsupportedMediaTypeError | OciErrorKind::UnsupportedSchemaVersionError
        | OciErrorKind::VersionedParsingError | OciErrorKind::ImageIndexParsingNoPlatformResolverError
        | OciErrorKind::IncompatibleLayerMediaTypeError => Category::InvalidArtifact,
        OciErrorKind::GenericError | OciErrorKind::PushNoDataError | OciErrorKind::PushLayerNoDataError
        | OciErrorKind::PullNoLayersError | OciErrorKind::RegistryNoLocationError
        | OciErrorKind::UrlParseError => Category::Other,
    }
}

/// How each kind of client failure is classified: a missing manifest is
/// `ManifestNotFound`; failed authentication, credential conversion, token
/// decoding and unauthorized replies are `Authentication`; a failed HTTP
/// request and an I/O failure are `Transport`; a server status of 401, 403
/// and 404 is `Authentication`, `Authorization` and `ManifestNotFound`, one of
/// 500 or above is `Transport` and any other is `Other`; content that breaks
/// the OCI format is `InvalidArtifact`; the remaining client failures are
/// `Other`. A registry error envelope is classified by its codes:
/// `Unauthorized` anywhere wins, then `Denied`, then a non-empty list of
/// "not found" codes, then any invalid-content code.
pub proof fn lemma_oci_error_categories(e: OciErrorKind)
    ensures
        e is ImageManifestNotFoundError ==> oci_error_category(e) == Category::ManifestNotFound,
        (e is AuthenticationFailure || e is ConfigConversionError || e is RegistryTokenDecodeError
            || e is UnauthorizedError) ==> oci_error_category(e) == Category::Authentication,
        (e is RequestError || e is IoError) ==> oci_error_category(e) == Category::Transport,
        e matches OciErrorKind::ServerError { code } ==> oci_error_category(e) == (if code == 401 {
            Category::Authentication
        } else if code == 403 {
            Category::Authorization
        } else if code == 404 {
            Category::ManifestNotFound
        } else if code >= 500 {
            Category::Transport
        } else {
            Category::Other
        }),
        (e is DigestError || e is HeaderValueError || e is JsonError || e is ManifestEncodingError
            || e is ManifestParsingError || e is RegistryNoDigestError || e is SpecViolationError
            || e is UnsupportedMediaTypeError || e is UnsupportedSchemaVersionError || e is VersionedParsingError
            || e is ImageIndexParsingNoPlatformResolverError || e is IncompatibleLayerMediaTypeError)
            ==> oci_error_category(e) == Category::InvalidArtifact,
        (e is GenericError || e is PushNoDataError || e is PushLayerNoDataError || e is PullNoLayersError
            || e is RegistryNoLocationError || e is UrlParseError) ==> oci_error_category(e) == Category::Other,
        e matches OciErrorKind::RegistryError { codes } ==> {
            &&& (exists|i: int| 0 <= i < codes@.len() && (#[trigger] codes@[i]) is Unauthorized)
                ==> oci_error_category(e) == Category::Authentication
            &&& (forall|i: int| 0 <= i < codes@.len() ==> !((#[trigger] codes@[i]) is Unauthorized))
                && (exists|i: int| 0 <= i < codes@.len() && (#[trigger] codes@[i]) is Denied)
                ==> oci_error_category(e) == Category::Authorization
            &&& (forall|i: int| 0 <= i < codes@.len() ==> !((#[trigger] codes@[i]) is Unauthorized)
                && !(codes@[i] is Denied)) && codes@.len() > 0 && (forall|i: int| 0 <= i < codes@.len() ==> {
                ||| (#[trigger] codes@[i]) is ManifestUnknown
                ||| codes@[i] is NameUnknown
                ||| codes@[i] is NotFound
            }) ==> oci_error_category(e) == Category::ManifestNotFound
            &&& (forall|i: int| 0 <= i < codes@.len() ==> !((#[trigger] codes@[i]) is Unauthorized)
                && !(codes@[i] is Denied)) && (exists|i: int| 0 <= i < codes@.len() && {
                &&& !((#[trigger] codes@[i]) is ManifestUnknown || codes@[i] is NameUnknown || codes@[i] is NotFound)
            }) && (exists|i: int| 0 <= i < codes@.len() && {
                ||| (#[trigger] codes@[i]) is DigestInvalid
                ||| codes@[i] is ManifestBlobUnknown
                ||| codes@[i] is ManifestInvalid
                ||| codes@[i] is ManifestUnverified
                ||| codes@[i] is NameInvalid
                ||| codes@[i] is SizeInvalid
                ||| codes@[i] is TagInvalid
            }) ==> oci_error_category(e) == Category::InvalidArtifact
            &&& codes@.len() == 0 ==> oci_error_category(e) == Category::Other
        },
{
}

/// Sorts an OCI distribution client failure into a category.
pub fn classify_oci_error(error: &OciErrorKind) -> (r: Category)
    ensures
        r == oci_error_category(*error),
{
    match error {
        OciErrorKind::ImageManifestNotFoundError => Category::ManifestNotFound,
        OciErrorKind::AuthenticationFailure | OciErrorKind::ConfigConversionError
        | OciErrorKind::RegistryTokenDecodeError | OciErrorKind::UnauthorizedError => Category::Authentication,
        OciErrorKind::RegistryError { codes } => classify_registry_codes(codes),
        OciErrorKind::RequestError | OciErrorKind::IoError => Category::Transport,
        OciErrorKind::ServerError { code } => if *code == 401 {
            Category::Authentication
        } else if *code == 403 {
            Category::Authorization
        } else if *code == 404 {
            Category::ManifestNotFound
        } else if *code >= 500 {
            Category::Transport
        } else {
            Category::Other
        },
        OciErrorKind::DigestError | OciErrorKind::HeaderValueError | OciErrorKind::JsonError
        | OciErrorKind::ManifestEncodingError | OciErrorKind::ManifestParsingError
        | OciErrorKind::RegistryNoDigestError | OciErrorKind::SpecViolationError
        | OciErrorKind::UnsupportedMediaTypeError | OciErrorKind::UnsupportedSchemaVersionError
        | OciErrorKind::VersionedParsingError | OciErrorKind::ImageIndexParsingNoPlatformResolverError
        | OciErrorKind::IncompatibleLayerMediaTypeError => Category::InvalidArtifact,
        OciErrorKind::GenericError | OciErrorKind::PushNoDataError | OciErrorKind::PushLayerNoDataError
        | OciErrorKind::PullNoLayersError | OciErrorKind::RegistryNoLocationError
        | OciErrorKind::UrlParseError => Category::Other,
    }
}

/// One link of the cause chain of a remote failure, as far as classification
/// reads it.
#[derive(Clone, Debug, PartialEq)]
pub enum ErrorCause {
    InvalidAuthenticationConfiguration(InvalidAuthenticationConfiguration),
    InvalidRemoteResponse(InvalidRemoteResponse),
    RemoteTransportFailure(RemoteTransportFailure),
    Oci(OciErrorKind),
    Json,
    Other(String),
}

/// Category of a cause chain: explicit-credential, response-shape and
/// transport markers come first (in that order), then the first OCI client
/// failure in the chain, then JSON failures; anything else is `Other`.
pub open spec fn chain_category(chain: Seq<ErrorCause>) -> Category {
    if exists|i: int| 0 <= i < chain.len() && (#[trigger] chain[i]) is InvalidAuthenticationConfiguration {
        Category::Authentication
    } else if exists|i: int| 0 <= i < chain.len() && (#[trigger] chain[i]) is InvalidRemoteResponse {
        Category::InvalidArtifact
    } else if exists|i: int| 0 <= i < chain.len() && (#[trigger] chain[i]) is RemoteTransportFailure {
        Category::Transport
    } else if exists|i: int| 0 <= i < chain.len() && (#[trigger] chain[i]) is Oci {
        oci_error_category(chain[first_oci(chain)]->Oci_0)
    } else if exists|i: int| 0 <= i < chain.len() && (#[trigger] chain[i]) is Json {
        Category::InvalidArtifact
    } else {
        Category::Other
    }
}

/// Index of the first OCI client failure in the chain.
pub open spec fn first_oci(chain: Seq<ErrorCause>) -> int {
    choose|i: int| 0 <= i < chain.len() && chain[i] is Oci && forall|j: int| 0 <= j < i ==> !(#[trigger] chain[j] is Oci)
}

/// Failure while looking up or importing an artifact from a remote registry.
#[derive(Debug)]
pub enum RemoteArtifactError {
    /// The requested repository, manifest, or tag does not exist.
    ManifestNotFound { image: Box<ImageRef>, source: Vec<ErrorCause> },
    /// Authentication credentials were missing, rejected, or malformed.
    Authentication { image: Box<ImageRef>, source: Vec<ErrorCause> },
    /// The caller is not authorized to read the artifact.
    Authorization { image: Box<ImageRef>, source: Vec<ErrorCause> },
    /// The registry could not be reached or failed on its side.
    Transport { image: Box<ImageRef>, source: Vec<ErrorCause> },
    /// The remote response does not describe a valid artifact.
    InvalidArtifact { image: Box<ImageRef>, source: Vec<ErrorCause> },
    /// Any other remote failure.
    Other { image: Box<ImageRef>, source: Vec<ErrorCause> },
}

impl RemoteArtifactError {
    /// The category of the failure.
    pub open spec fn category(&self) -> Category {
        match self {
            RemoteArtifactError::ManifestNotFound { .. } => Category::ManifestNotFound,
            RemoteArtifactError::Authentication { .. } => Category::Authentication,
            RemoteArtifactError::Authorization { .. } => Category::Authorization,
            RemoteArtifactError::Transport { .. } => Category::Transport,
            RemoteArtifactError::InvalidArtifact { .. } => Category::InvalidArtifact,
            RemoteArtifactError::Other { .. } => Category::Other,
        }
    }

    /// The reference the failure is about.
    pub open spec fn image_view(&self) -> crate::image_ref::ImageRefView {
        match self {
            RemoteArtifactError::ManifestNotFound { image, .. } => image@,
            RemoteArtifactError::Authentication { image, .. } => image@,
            RemoteArtifactError::Authorization { image, .. } => image@,
            RemoteArtifactError::Transport { image, .. } => image@,
            RemoteArtifactError::InvalidArtifact { image, .. } => image@,
            RemoteArtifactError::Other { image, .. } => image@,
        }
    }

    /// The cause chain kept with the failure.
    pub open spec fn source_view(&self) -> Seq<ErrorCause> {
        match self {
            RemoteArtifactError::ManifestNotFound { source, .. } => source@,
            RemoteArtifactError::Authentication { source, .. } => source@,
            RemoteArtifactError::Authorization { source, .. } => source@,
            RemoteArtifactError::Transport { source, .. } => source@,
            RemoteArtifactError::InvalidArtifact { source, .. } => source@,
            RemoteArtifactError::Other { source, .. } => source@,
        }
    }

    /// Sorts a failure by its cause chain.
    pub fn classify(image: &ImageRef, source: Vec<ErrorCause>) -> (r: Self)
        ensures
            r.category() == chain_category(source@),
            r.image_view() == image@,
            r.source_view() == source@,
    {
        let category = classify_chain(&source);
        Self::from_category(image, source, category)
    }

    /// A failure known to be an invalid artifact.
    pub fn invalid_artifact(image: &ImageRef, source: Vec<ErrorCause>) -> (r: Self)
        ensures
            r.category() == Category::InvalidArtifact,
            r.image_view() == image@,
            r.source_view() == source@,
    {
        Self::from_category(image, source, Category::InvalidArtifact)
    }

    /// The failure of the given category.
    pub fn from_category(image: &ImageRef, source: Vec<ErrorCause>, category: Category) -> (r: Self)
        ensures
            r.category() == category,
            r.image_view() == image@,
            r.source_view() == source@,
    {
        let image = Box::new(image.duplicate());
        match category {
            Category::ManifestNotFound => RemoteArtifactError::ManifestNotFound { image, source },
            Category::Authentication => RemoteArtifactError::Authentication { image, source },
            Category::Authorization => RemoteArtifactError::Authorization { image, source },
            Category::Transport => RemoteArtifactError::Transport { image, source },
            Category::InvalidArtifact => RemoteArtifactError::InvalidArtifact { image, source },
            Category::Other => RemoteArtifactError::Other { image, source },
        }
    }

    /// The exact remote reference associated with this failure.
    pub fn image(&self) -> (r: &ImageRef)
        ensures
            r@ == self.image_view(),
    {
        match self {
            RemoteArtifactError::ManifestNotFound { image, .. } => image,
            RemoteArtifactError::Authentication { image, .. } => image,
            RemoteArtifactError::Authorization { image, .. } => image,
            RemoteArtifactError::Transport { image, .. } => image,
            RemoteArtifactError::InvalidArtifact { image, .. } => image,
            RemoteArtifactError::Other { image, .. } => image,
        }
    }
}

/// Sorts a cause chain into a category.
pub fn classify_chain(chain: &Vec<ErrorCause>) -> (r: Category)
    ensures
        r == chain_category(chain@),
{
    let n = chain.len();
    let mut i: usize = 0;
    while i < n
        invariant
            n == chain@.len(),
            i <= n,
            forall|j: int| 0 <= j < i ==> !(#[trigger] chain@[j] is InvalidAuthenticationConfiguration),
        decreases n - i,
    {
        if let ErrorCause::InvalidAuthenticationConfiguration(_) = &chain[i] {
            return Category::Authentication;
        }
        i = i + 1;
    }
    let mut i: usize = 0;
    while i < n
        invariant
            n == chain@.len(),
            i <= n,
            forall|j: int| 0 <= j < n ==> !(#[trigger] chain@[j] is InvalidAuthenticationConfiguration),
            forall|j: int| 0 <= j < i ==> !(#[trigger] chain@[j] is InvalidRemoteResponse),
        decreases n - i,
    {
        if let ErrorCause::InvalidRemoteResponse(_) = &chain[i] {
            return Category::InvalidArtifact;
        }
        i = i + 1;
    }
    let mut i: usize = 0;
    while i < n
        invariant
            n == chain@.len(),
            i <= n,
            forall|j: int| 0 <= j < n ==> !(#[trigger] chain@[j] is InvalidAuthenticationConfiguration),
            forall|j: int| 0 <= j < n ==> !(#[trigger] chain@[j] is InvalidRemoteResponse),
            forall|j: int| 0 <= j < i ==> !(#[trigger] chain@[j] is RemoteTransportFailure),
        decreases n - i,
    {
        if let ErrorCause::RemoteTransportFailure(_) = &chain[i] {
            return Category::Transport;
        }
        i = i + 1;
    }
    let mut i: usize = 0;
    while i < n
        invariant
            n == chain@.len(),
            i <= n,
            forall|j: int| 0 <= j < n ==> !(#[trigger] chain@[j] is InvalidAuthenticationConfiguration),
            forall|j: int| 0 <= j < n ==> !(#[trigger] chain@[j] is InvalidRemoteResponse),
            forall|j: int| 0 <= j < n ==> !(#[trigger] chain@[j] is RemoteTransportFailure),
            forall|j: int| 0 <= j < i ==> !(#[trigger] chain@[j] is Oci),
        decreases n - i,
    {
        if let ErrorCause::Oci(e) = &chain[i] {
            proof {
                assert(chain@[i as int] is Oci);
                let f = first_oci(chain@);
                assert(0 <= f < chain@.len() && chain@[f] is Oci && forall|j: int| 0 <= j < f ==> !(#[trigger] chain@[j] is Oci));
                if f < i {
                    assert(!(chain@[f] is Oci));
                }
                if f > i {
                    assert(!(chain@[i as int] is Oci));
                }
            }
            return classify_oci_error(e);
        }
        i = i + 1;
    }
    let mut i: usize = 0;
    while i < n
        invariant
            n == chain@.len(),
            i <= n,
            forall|j: int| 0 <= j < n ==> !(#[trigger] chain@[j] is InvalidAuthenticationConfiguration),
            forall|j: int| 0 <= j < n ==> !(#[trigger] chain@[j] is InvalidRemoteResponse),
            forall|j: int| 0 <= j < n ==> !(#[trigger] chain@[j] is RemoteTransportFailure),
            forall|j: int| 0 <= j < n ==> !(#[trigger] chain@[j] is Oci),
            forall|j: int| 0 <= j < i ==> !(#[trigger] chain@[j] is Json),
        decreases n - i,
    {
        if let ErrorCause::Json = &chain[i] {
            return Category::InvalidArtifact;
        }
        i = i + 1;
    }
    Category::Other
}

/// The failure recorded when reading a pulled blob's stream fails: a digest
/// verification failure is an invalid response, anything else a transport
/// failure.
pub fn blob_stream_error(digest: &str, is_digest_error: bool) -> (r: ErrorCause)
    ensures
        is_digest_error ==> (r matches ErrorCause::InvalidRemoteResponse(InvalidRemoteResponse::BlobDigestMismatch { digest: d }) && d@ == digest@),
        !is_digest_error ==> (r matches ErrorCause::RemoteTransportFailure(f) && f.digest@ == digest@),
{
    if is_digest_error {
        ErrorCause::InvalidRemoteResponse(InvalidRemoteResponse::BlobDigestMismatch { digest: String::from_str(digest) })
    } else {
        ErrorCause::RemoteTransportFailure(RemoteTransportFailure { digest: String::from_str(digest) })
    }
}

} // verus!
