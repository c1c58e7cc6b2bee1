//! References to images in an OCI registry.
use oci_spec::distribution::ParseError as P;
use vstd::prelude::*;

verus! {

/// Why a string is not a valid image reference.
#[derive(Clone, Copy, PartialEq, Eq, Structural, Debug)]
pub enum ReferenceError {
    DigestInvalidFormat,
    DigestInvalidLength,
    DigestUnsupported,
    NameContainsUppercase,
    NameEmpty,
    NameTooLong,
    ReferenceInvalidFormat,
    TagInvalidFormat,
}

/// Plain-value picture of an [`ImageRef`]: registry, repository, tag, digest.
pub type ImageRefView = (Seq<char>, Seq<char>, Option<Seq<char>>, Option<Seq<char>>);

/// What the OCI reference grammar makes of a string.
pub uninterp spec fn spec_parse_reference(s: Seq<char>) -> Result<ImageRefView, ReferenceError>;

/// A parsed image reference `registry/repository[:tag][@digest]`.
#[derive(Clone, Debug, PartialEq)]
pub struct ImageRef {
    registry: String,
    repository: String,
    tag: Option<String>,
    digest: Option<String>,
}

pub open spec fn opt_view(o: Option<String>) -> Option<Seq<char>> {
    match o {
        Some(s) => Some(s@),
        None => None,
    }
}

impl View for ImageRef {
    type V = ImageRefView;

    closed spec fn view(&self) -> ImageRefView {
        (self.registry@, self.repository@, opt_view(self.tag), opt_view(self.digest))
    }
}

/// Parses `s` with the OCI distribution reference grammar
/// (`oci_spec::distribution::Reference::try_from`) and copies out its registry,
/// repository, tag and digest. The contract states only that the outcome is the
/// one the grammar gives for `s`.
#[verifier::external_body]
fn parse_reference(s: &str) -> (r: Result<ImageRef, ReferenceError>)
    ensures
        match r {
            Ok(i) => spec_parse_reference(s@) == Ok::<ImageRefView, ReferenceError>(i@),
            Err(e) => spec_parse_reference(s@) == Err::<ImageRefView, ReferenceError>(e),
        },
{
    match oci_spec::distribution::Reference::try_from(s) {
        Ok(r) => Ok(ImageRef { registry: r.registry().to_string(), repository: r.repository().to_string(),
            tag: r.tag().map(|t| t.to_string()), digest: r.digest().map(|d| d.to_string()) }),
        Err(P::DigestInvalidFormat) => Err(ReferenceError::DigestInvalidFormat),
        Err(P::DigestInvalidLength) => Err(ReferenceError::DigestInvalidLength),
        Err(P::DigestUnsupported) => Err(ReferenceError::DigestUnsupported),
        Err(P::NameContainsUppercase) => Err(ReferenceError::NameContainsUppercase),
        Err(P::NameEmpty) => Err(ReferenceError::NameEmpty),
        Err(P::NameTooLong) => Err(ReferenceError::NameTooLong),
        Err(P::ReferenceInvalidFormat) => Err(ReferenceError::ReferenceInvalidFormat),
        Err(P::TagInvalidFormat) => Err(ReferenceError::TagInvalidFormat),
    }
}

impl ImageRef {
    /// Parses an image reference.
    pub fn parse(s: &str) -> (r: Result<ImageRef, ReferenceError>)
        ensures
            match r {
                Ok(i) => spec_parse_reference(s@) == Ok::<ImageRefView, ReferenceError>(i@),
                Err(e) => spec_parse_reference(s@) == Err::<ImageRefView, ReferenceError>(e),
            },
    {
        parse_reference(s)
    }

    /// The `host[:port]` of the registry.
    pub fn registry(&self) -> (r: &str)
        ensures
            r@ == self@.0,
    {
        self.registry.as_str()
    }

    /// The repository path within the registry.
    pub fn repository(&self) -> (r: &str)
        ensures
            r@ == self@.1,
    {
        self.repository.as_str()
    }

    pub fn tag(&self) -> (r: Option<&str>)
        ensures
            match r {
                Some(t) => self@.2 == Some(t@),
                None => self@.2 is None,
            },
    {
        match &self.tag {
            Some(t) => Some(t.as_str()),
            None => None,
        }
    }

    pub fn digest(&self) -> (r: Option<&str>)
        ensures
            match r {
                Some(d) => self@.3 == Some(d@),
                None => self@.3 is None,
            },
    {
        match &self.digest {
            Some(d) => Some(d.as_str()),
            None => None,
        }
    }

    /// Copies the reference.
    pub fn duplicate(&self) -> (r: ImageRef)
        ensures
            r@ == self@,
    {
        let tag = match &self.tag {
            Some(t) => Some(t.clone()),
            None => None,
        };
        let digest = match &self.digest {
            Some(d) => Some(d.clone()),
            None => None,
        };
        ImageRef { registry: self.registry.clone(), repository: self.repository.clone(), tag, digest }
    }
}

} // verus!
