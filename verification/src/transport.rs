//! Decision logic of the registry transport: blob-transfer concurrency,
//! transport protocol, credential resolution and the size checks applied to
//! pulled blobs.
use crate::messages::text_around;
use vstd::prelude::*;
use vstd::string::StringExecFns;

verus! {

/// Name of the environment variable that overrides the blob-transfer concurrency.
pub const ARTIFACT_TRANSFER_CONCURRENCY_ENV: &'static str = "OMMX_ARTIFACT_TRANSFER_CONCURRENCY";

/// Number of concurrent blob operations used when no override is set.
pub const DEFAULT_ARTIFACT_TRANSFER_CONCURRENCY: usize = 4;

/// Upper bound, in bytes, on the buffer reserved up front for a pulled blob.
pub const BLOB_PREALLOC_CAP_BYTES: u64 = 268435456;

/// A positive number of concurrent blob transfers.
#[derive(Clone, Copy, PartialEq, Eq, Structural, Debug)]
pub struct BlobTransferConcurrency(usize);

impl BlobTransferConcurrency {
    pub closed spec fn value(self) -> usize {
        self.0
    }

    /// The number of concurrent transfers.
    pub fn get(self) -> (r: usize)
        ensures
            r == self.value(),
            r > 0,
    {
        proof {
            use_type_invariant(self);
        }
        self.0
    }

    #[verifier::type_invariant]
    closed spec fn inv(self) -> bool {
        self.0 > 0
    }
}

/// Why a concurrency override was refused.
#[derive(Clone, Debug, PartialEq)]
pub enum ConcurrencyError {
    /// The value is not a positive integer that fits in `usize`.
    NotPositiveInteger(String),
    /// The variable is set but is not valid UTF-8.
    NotUnicode,
}

impl ConcurrencyError {
    /// The text that reports the error. The refused value is quoted as
    /// given.
    pub open spec fn message_spec(self) -> Seq<char> {
        match self {
            ConcurrencyError::NotPositiveInteger(v) => "OMMX_ARTIFACT_TRANSFER_CONCURRENCY must be a positive integer, got \""@
                + v@ + "\""@,
            ConcurrencyError::NotUnicode => "OMMX_ARTIFACT_TRANSFER_CONCURRENCY must be a positive integer encoded as UTF-8"@,
        }
    }

    /// The text that reports the error.
    pub fn message(&self) -> (r: String)
        ensures
            r@ == self.message_spec(),
    {
        match self {
            ConcurrencyError::NotPositiveInteger(v) => text_around(
                "OMMX_ARTIFACT_TRANSFER_CONCURRENCY must be a positive integer, got \"",
                v.as_str(),
                "\"",
            ),
            ConcurrencyError::NotUnicode => String::from_str(
                "OMMX_ARTIFACT_TRANSFER_CONCURRENCY must be a positive integer encoded as UTF-8",
            ),
        }
    }
}

/// What reading an environment variable produced.
#[derive(Clone, Debug, PartialEq)]
pub enum EnvLookup {
    Present(String),
    NotPresent,
    NotUnicode,
}

pub open spec fn is_ascii_digit(c: char) -> bool {
    '0' <= c && c <= '9'
}

/// Decimal value of a string of digits.
pub open spec fn decimal_value(s: Seq<char>) -> nat
    decreases s.len(),
{
    if s.len() == 0 {
        0
    } else {
        decimal_value(s.drop_last()) * 10 + ((s.last() as u32 - '0' as u32) as nat)
    }
}

/// The digits of an unsigned literal: the text after an optional leading `+`.
pub open spec fn literal_digits(s: Seq<char>) -> Seq<char> {
    if s.len() > 0 && s[0] == '+' {
        s.drop_first()
    } else {
        s
    }
}

/// Whether `d` is a non-empty string of ASCII digits.
pub open spec fn all_digits(d: Seq<char>) -> bool {
    d.len() > 0 && forall|i: int| 0 <= i < d.len() ==> is_ascii_digit(#[trigger] d[i])
}

/// The value of an unsigned decimal integer literal as Rust's integer parsing
/// reads it: an optional leading `+`, then one or more ASCII digits.
pub open spec fn unsigned_literal(s: Seq<char>) -> Option<nat> {
    if all_digits(literal_digits(s)) {
        Some(decimal_value(literal_digits(s)))
    } else {
        None
    }
}

/// The concurrency an override string denotes, if it is a valid one.
pub open spec fn concurrency_override(s: Seq<char>) -> Option<nat> {
    match unsigned_literal(s) {
        Some(n) => if 0 < n && n <= usize::MAX { Some(n) } else { None },
        None => None,
    }
}

/// Digits `s[from..]` accumulated into `acc`, or `None` on overflow.
fn accumulate_digits(s: &str, from: usize, len: usize) -> (r: Option<usize>)
    requires
        len == s@.len(),
        from <= len,
        forall|i: int| from <= i < len ==> is_ascii_digit(#[trigger] s@[i]),
    ensures
        match r {
            Some(v) => v == decimal_value(s@.subrange(from as int, len as int)),
            None => decimal_value(s@.subrange(from as int, len as int)) > usize::MAX,
        },
{
    let mut acc: usize = 0;
    let mut i: usize = from;
    while i < len
        invariant
            len == s@.len(),
            from <= i <= len,
            forall|j: int| from <= j < len ==> is_ascii_digit(#[trigger] s@[j]),
            acc == decimal_value(s@.subrange(from as int, i as int)),
        decreases len - i,
    {
        let c = s.get_char(i);
        let d: usize = ((c as u32) - ('0' as u32)) as usize;
        proof {
            assert(is_ascii_digit(s@[i as int]));
            let sub = s@.subrange(from as int, i + 1);
            assert(sub.drop_last() =~= s@.subrange(from as int, i as int));
            assert(sub.last() == c);
        }
        match acc.checked_mul(10) {
            Some(m) => match m.checked_add(d) {
                Some(v) => {
                    acc = v;
                },
                None => {
                    proof {
                        lemma_decimal_suffix_grows(s@, from as int, i as int + 1, len as int);
                    }
                    return None;
                },
            },
            None => {
                proof {
                    lemma_decimal_suffix_grows(s@, from as int, i as int + 1, len as int);
                }
                return None;
            },
        }
        i = i + 1;
    }
    Some(acc)
}

/// Appending digits never decreases a decimal value.
proof fn lemma_decimal_suffix_grows(s: Seq<char>, from: int, mid: int, to: int)
    requires
        0 <= from <= mid <= to <= s.len(),
        forall|i: int| from <= i < to ==> is_ascii_digit(#[trigger] s[i]),
    ensures
        decimal_value(s.subrange(from, mid)) <= decimal_value(s.subrange(from, to)),
    decreases to - mid,
{
    if mid < to {
        lemma_decimal_suffix_grows(s, from, mid, to - 1);
        let sub = s.subrange(from, to);
        assert(sub.drop_last() =~= s.subrange(from, to - 1));
    }
}

/// Reads the concurrency override; `None` gives the default of four.
pub fn parse_blob_transfer_concurrency(value: Option<&str>) -> (r: Result<BlobTransferConcurrency, ConcurrencyError>)
    ensures
        match value {
            None => r matches Ok(c) && c.value() == DEFAULT_ARTIFACT_TRANSFER_CONCURRENCY,
            Some(s) => match concurrency_override(s@) {
                Some(n) => r matches Ok(c) && c.value() == n,
                None => r matches Err(ConcurrencyError::NotPositiveInteger(v)) && v@ == s@,
            },
        },
{
    match value {
        None => Ok(BlobTransferConcurrency(DEFAULT_ARTIFACT_TRANSFER_CONCURRENCY)),
        Some(s) => {
            let len = s.unicode_len();
            let start: usize = if len > 0 && s.get_char(0) == '+' { 1 } else { 0 };
            let ghost digits = literal_digits(s@);
            proof {
                assert(digits =~= s@.subrange(start as int, len as int));
            }
            if start == len {
                assert(digits.len() == 0);
                return Err(ConcurrencyError::NotPositiveInteger(String::from_str(s)));
            }
            let mut i: usize = start;
            while i < len
                invariant
                    len == s@.len(),
                    value == Some(s),
                    start <= i <= len,
                    digits == s@.subrange(start as int, len as int),
                    digits == literal_digits(s@),
                    forall|j: int| start <= j < i ==> is_ascii_digit(#[trigger] s@[j]),
                decreases len - i,
            {
                let c = s.get_char(i);
                if !('0' <= c && c <= '9') {
                    proof {
                        assert(s@[i as int] == c);
                        assert(digits[i - start] == s@[i as int]);
                        assert(!is_ascii_digit(digits[i - start]));
                        assert(!all_digits(digits));
                    }
                    return Err(ConcurrencyError::NotPositiveInteger(String::from_str(s)));
                }
                i = i + 1;
            }
            proof {
                assert forall|j: int| 0 <= j < digits.len() implies is_ascii_digit(#[trigger] digits[j]) by {
                    assert(is_ascii_digit(s@[j + start]));
                }
            }
            match accumulate_digits(s, start, len) {
                Some(v) => {
                    if v == 0 {
                        Err(ConcurrencyError::NotPositiveInteger(String::from_str(s)))
                    } else {
                        Ok(BlobTransferConcurrency(v))
                    }
                },
                None => Err(ConcurrencyError::NotPositiveInteger(String::from_str(s))),
            }
        },
    }
}

/// Resolves the shared push/pull blob-transfer concurrency from what the
/// environment holds for [`ARTIFACT_TRANSFER_CONCURRENCY_ENV`].
pub fn blob_transfer_concurrency(env_value: &EnvLookup) -> (r: Result<BlobTransferConcurrency, ConcurrencyError>)
    ensures
        match env_value {
            EnvLookup::NotPresent => r matches Ok(c) && c.value() == DEFAULT_ARTIFACT_TRANSFER_CONCURRENCY,
            EnvLookup::NotUnicode => r == Err::<BlobTransferConcurrency, ConcurrencyError>(ConcurrencyError::NotUnicode),
            EnvLookup::Present(s) => match concurrency_override(s@) {
                Some(n) => r matches Ok(c) && c.value() == n,
                None => r matches Err(ConcurrencyError::NotPositiveInteger(v)) && v@ == s@,
            },
        },
{
    match env_value {
        EnvLookup::Present(s) => parse_blob_transfer_concurrency(Some(s.as_str())),
        EnvLookup::NotPresent => parse_blob_transfer_concurrency(None),
        EnvLookup::NotUnicode => Err(ConcurrencyError::NotUnicode),
    }
}

} // verus!

verus! {

/// Transport protocol used to reach a registry.
#[derive(Clone, Copy, PartialEq, Eq, Structural, Debug)]
pub enum ClientProtocol {
    Http,
    Https,
}

/// Index of the first `:` in `s`, if any.
pub open spec fn first_colon(s: Seq<char>) -> Option<int> {
    if exists|i: int| 0 <= i < s.len() && s[i] == ':' {
        Some(choose|i: int| 0 <= i < s.len() && s[i] == ':' && forall|j: int| 0 <= j < i ==> s[j] != ':')
    } else {
        None
    }
}

/// The host of a `host[:port]` registry string: everything before the first `:`.
pub open spec fn registry_host(s: Seq<char>) -> Seq<char> {
    match first_colon(s) {
        Some(i) => s.subrange(0, i),
        None => s,
    }
}

/// Whether `p` is a prefix of `s`.
pub open spec fn has_prefix(s: Seq<char>, p: Seq<char>) -> bool {
    p.len() <= s.len() && s.subrange(0, p.len() as int) == p
}

/// HTTP for local registries (`localhost`, `127.*`, `::1*`), HTTPS otherwise.
pub open spec fn protocol_of(registry: Seq<char>) -> ClientProtocol {
    let host = registry_host(registry);
    if host == "localhost"@ || has_prefix(host, "127."@) || has_prefix(host, "::1"@) {
        ClientProtocol::Http
    } else {
        ClientProtocol::Https
    }
}

/// Whether the characters `s[from..from + p.len()]` spell `p`.
fn chars_match_at(s: &Vec<char>, from: usize, p: &str) -> (r: bool)
    requires
        from <= s@.len(),
    ensures
        r == (from + p@.len() <= s@.len() && s@.subrange(from as int, from + p@.len()) == p@),
{
    let plen = p.unicode_len();
    let slen = s.len();
    if plen > slen - from {
        return false;
    }
    let mut i: usize = 0;
    while i < plen
        invariant
            plen == p@.len(),
            slen == s@.len(),
            from + plen <= slen,
            i <= plen,
            forall|j: int| 0 <= j < i ==> s@[from + j] == p@[j],
        decreases plen - i,
    {
        if s[from + i] != p.get_char(i) {
            proof {
                assert(s@.subrange(from as int, from + p@.len())[i as int] != p@[i as int]);
            }
            return false;
        }
        i = i + 1;
    }
    assert(s@.subrange(from as int, from + p@.len()) =~= p@);
    true
}

/// The characters of a string, one by one.
pub fn chars_of(s: &str) -> (r: Vec<char>)
    ensures
        r@ == s@,
{
    let n = s.unicode_len();
    let mut out: Vec<char> = Vec::new();
    let mut i: usize = 0;
    while i < n
        invariant
            n == s@.len(),
            i <= n,
            out@ == s@.subrange(0, i as int),
        decreases n - i,
    {
        out.push(s.get_char(i));
        i = i + 1;
        assert(out@ =~= s@.subrange(0, i as int));
    }
    assert(out@ =~= s@);
    out
}

/// Chooses the transport protocol for a `host[:port]` registry string.
pub fn protocol_for(registry: &str) -> (r: ClientProtocol)
    ensures
        r == protocol_of(registry@),
{
    let chars = chars_of(registry);
    let n = chars.len();
    let mut end: usize = 0;
    while end < n && chars[end] != ':'
        invariant
            end <= n,
            n == chars@.len(),
            forall|j: int| 0 <= j < end ==> chars@[j] != ':',
        decreases n - end,
    {
        end = end + 1;
    }
    let ghost host = registry_host(registry@);
    proof {
        if end < n {
            assert(chars@[end as int] == ':');
            let c = choose|i: int| 0 <= i < chars@.len() && chars@[i] == ':' && forall|j: int| 0 <= j < i ==> chars@[j] != ':';
            if c < end {
                assert(chars@[c] != ':');
            }
            if c > end {
                assert(chars@[end as int] != ':');
            }
            assert(host == chars@.subrange(0, end as int));
        } else {
            assert(host == chars@);
            assert(chars@.subrange(0, end as int) =~= chars@);
        }
    }
    let mut host_chars: Vec<char> = Vec::new();
    let mut i: usize = 0;
    while i < end
        invariant
            end <= n,
            n == chars@.len(),
            i <= end,
            host_chars@ == chars@.subrange(0, i as int),
        decreases end - i,
    {
        host_chars.push(chars[i]);
        i = i + 1;
        assert(host_chars@ =~= chars@.subrange(0, i as int));
    }
    let localhost = "localhost";
    proof {
        reveal_strlit("localhost");
        reveal_strlit("127.");
        reveal_strlit("::1");
    }
    let is_localhost = host_chars.len() == localhost.unicode_len() && chars_match_at(&host_chars, 0, localhost);
    let is_loopback = chars_match_at(&host_chars, 0, "127.");
    let is_ipv6_loopback = chars_match_at(&host_chars, 0, "::1");
    proof {
        assert(host_chars@ == host);
        assert(host_chars@.subrange(0, host_chars@.len() as int) =~= host_chars@);
        if host == "localhost"@ {
            assert(is_localhost);
        }
    }
    if is_localhost || is_loopback || is_ipv6_loopback {
        ClientProtocol::Http
    } else {
        ClientProtocol::Https
    }
}

/// Credentials presented to a registry.
#[derive(Clone, Debug, PartialEq)]
pub enum RegistryAuth {
    Anonymous,
    Basic(String, String),
    Bearer(String),
}

/// Plain-value picture of [`RegistryAuth`].
pub enum AuthView {
    Anonymous,
    Basic(Seq<char>, Seq<char>),
    Bearer(Seq<char>),
}

impl View for RegistryAuth {
    type V = AuthView;

    open spec fn view(&self) -> AuthView {
        match self {
            RegistryAuth::Anonymous => AuthView::Anonymous,
            RegistryAuth::Basic(u, p) => AuthView::Basic(u@, p@),
            RegistryAuth::Bearer(t) => AuthView::Bearer(t@),
        }
    }
}

/// Snapshot of the three `OMMX_BASIC_AUTH_*` environment variables.
#[derive(Clone, Debug, PartialEq)]
pub struct EnvCredentials {
    pub domain: Option<String>,
    pub username: Option<String>,
    pub password: Option<String>,
}

/// Explicit credentials that are only partly supplied: the domain override
/// matches the target, but the username or the password is missing.
#[derive(Clone, Debug, PartialEq)]
pub struct InvalidAuthenticationConfiguration {
    pub domain: String,
    pub username_state: &'static str,
    pub password_state: &'static str,
}

impl InvalidAuthenticationConfiguration {
    /// The text that reports the error.
    pub open spec fn message_spec(self) -> Seq<char> {
        "OMMX_BASIC_AUTH_DOMAIN="@ + self.domain@ + " is set (matches target "@ + self.domain@
            + "), but OMMX_BASIC_AUTH_USERNAME="@ + self.username_state@ + " and OMMX_BASIC_AUTH_PASSWORD="@
            + self.password_state@
            + ". Both variables are required for the env-var auth override; unset OMMX_BASIC_AUTH_DOMAIN to fall back to ~/.docker/config.json instead."@
    }

    /// The text that reports the error.
    pub fn message(&self) -> (r: String)
        ensures
            r@ == self.message_spec(),
    {
        let mut s = text_around("OMMX_BASIC_AUTH_DOMAIN=", self.domain.as_str(), " is set (matches target ");
        s.append(self.domain.as_str());
        s.append("), but OMMX_BASIC_AUTH_USERNAME=");
        s.append(self.username_state);
        s.append(" and OMMX_BASIC_AUTH_PASSWORD=");
        s.append(self.password_state);
        s.append(
            ". Both variables are required for the env-var auth override; unset OMMX_BASIC_AUTH_DOMAIN to fall back to ~/.docker/config.json instead.",
        );
        s
    }
}

/// `"set"` or `"unset"`.
pub open spec fn set_state(is_set: bool) -> Seq<char> {
    if is_set {
        "set"@
    } else {
        "unset"@
    }
}

/// Interprets the `OMMX_BASIC_AUTH_*` override for `registry_key`. The override
/// is inactive (`Ok(None)`) when the domain is unset or names another registry;
/// when it matches, both username and password are required.
pub fn classify_env_credentials(registry_key: &str, creds: EnvCredentials) -> (r: Result<Option<RegistryAuth>, InvalidAuthenticationConfiguration>)
    ensures
        match creds.domain {
            None => r matches Ok(None),
            Some(d) => if d@ != registry_key@ {
                r matches Ok(None)
            } else {
                match (creds.username, creds.password) {
                    (Some(u), Some(p)) => r matches Ok(Some(a)) && a@ == AuthView::Basic(u@, p@),
                    (u, p) => r matches Err(e) && e.domain@ == d@ && e.username_state@ == set_state(u is Some)
                        && e.password_state@ == set_state(p is Some),
                }
            },
        },
{
    let EnvCredentials { domain, username, password } = creds;
    let domain = match domain {
        None => return Ok(None),
        Some(d) => d,
    };
    let key = String::from_str(registry_key);
    if !(domain == key) {
        return Ok(None);
    }
    proof {
        reveal_strlit("set");
        reveal_strlit("unset");
    }
    match (username, password) {
        (Some(u), Some(p)) => Ok(Some(RegistryAuth::Basic(u, p))),
        (u, p) => {
            let username_state: &'static str = if u.is_some() { "set" } else { "unset" };
            let password_state: &'static str = if p.is_some() { "set" } else { "unset" };
            Err(InvalidAuthenticationConfiguration { domain, username_state, password_state })
        },
    }
}

/// A credential found in the docker configuration.
#[derive(Clone, Debug, PartialEq)]
pub enum DockerCredential {
    IdentityToken(String),
    UsernamePassword(String, String),
}

/// Why no credential could be read from the docker configuration.
#[derive(Clone, Copy, PartialEq, Eq, Structural, Debug)]
pub enum CredentialRetrievalError {
    HelperCommunicationError,
    MalformedHelperResponse,
    HelperFailure,
    CredentialDecodingError,
    CredentialMismatchError,
    NoCredentialConfigured,
    ConfigNotFound,
    ConfigReadError,
}

/// Maps a docker-configuration lookup to registry credentials: usernames and
/// passwords give Basic auth, identity tokens give Bearer auth, and every
/// failure falls through to `None`.
pub fn classify_docker_credential(hostname: &str, result: Result<DockerCredential, CredentialRetrievalError>) -> (r: Option<RegistryAuth>)
    ensures
        match result {
            Ok(DockerCredential::UsernamePassword(u, p)) => r matches Some(a) && a@ == AuthView::Basic(u@, p@),
            Ok(DockerCredential::IdentityToken(t)) => r matches Some(a) && a@ == AuthView::Bearer(t@),
            Err(_) => r is None,
        },
{
    match result {
        Ok(DockerCredential::UsernamePassword(username, password)) => Some(RegistryAuth::Basic(username, password)),
        Ok(DockerCredential::IdentityToken(token)) => Some(RegistryAuth::Bearer(token)),
        Err(_) => None,
    }
}

/// Three-tier credential choice: the environment override, then the docker
/// configuration, then anonymous access.
pub fn resolve_auth(env_auth: Option<RegistryAuth>, docker_auth: Option<RegistryAuth>) -> (r: RegistryAuth)
    ensures
        match env_auth {
            Some(a) => r == a,
            None => match docker_auth {
                Some(d) => r == d,
                None => r == RegistryAuth::Anonymous,
            },
        },
{
    match env_auth {
        Some(a) => a,
        None => match docker_auth {
            Some(d) => d,
            None => RegistryAuth::Anonymous,
        },
    }
}

/// A registry response that contradicts the pulled artifact's manifest.
#[derive(Clone, Debug, PartialEq)]
pub enum InvalidRemoteResponse {
    ContentLengthMismatch { digest: String, content_length: u64, expected_size: u64 },
    SizeOverflow { digest: String },
    BlobTooLarge { digest: String, expected_size: u64, actual_size: u64 },
    BlobDigestMismatch { digest: String },
}

/// I/O failure while consuming a response body from the remote registry.
#[derive(Clone, Debug, PartialEq)]
pub struct RemoteTransportFailure {
    pub digest: String,
}

/// Checks the announced `Content-Length` of a blob against its declared size.
pub fn check_content_length(digest: &str, content_length: Option<u64>, expected_size: u64) -> (r: Result<(), InvalidRemoteResponse>)
    ensures
        match content_length {
            Some(n) => if n != expected_size {
                r matches Err(InvalidRemoteResponse::ContentLengthMismatch { digest: d, content_length: c, expected_size: e })
                    && d@ == digest@ && c == n && e == expected_size
            } else {
                r is Ok
            },
            None => r is Ok,
        },
{
    if let Some(n) = content_length {
        if n != expected_size {
            return Err(InvalidRemoteResponse::ContentLengthMismatch {
                digest: String::from_str(digest),
                content_length: n,
                expected_size,
            });
        }
    }
    Ok(())
}

/// Adds one received chunk to the running byte count of a blob, refusing a
/// count that overflows `u64` or exceeds the declared size.
pub fn accumulate_chunk(digest: &str, accumulated: u64, chunk_len: u64, expected_size: u64) -> (r: Result<u64, InvalidRemoteResponse>)
    ensures
        accumulated + chunk_len > u64::MAX ==> (r matches Err(InvalidRemoteResponse::SizeOverflow { digest: d }) && d@ == digest@),
        accumulated + chunk_len <= u64::MAX && accumulated + chunk_len > expected_size ==> (r matches Err(
            InvalidRemoteResponse::BlobTooLarge { digest: d, expected_size: e, actual_size: a },
        ) && d@ == digest@ && e == expected_size && a == accumulated + chunk_len),
        accumulated + chunk_len <= expected_size ==> r == Ok::<u64, InvalidRemoteResponse>((accumulated + chunk_len) as u64),
{
    match accumulated.checked_add(chunk_len) {
        None => Err(InvalidRemoteResponse::SizeOverflow { digest: String::from_str(digest) }),
        Some(total) => {
            if total > expected_size {
                Err(InvalidRemoteResponse::BlobTooLarge {
                    digest: String::from_str(digest),
                    expected_size,
                    actual_size: total,
                })
            } else {
                Ok(total)
            }
        },
    }
}

/// Bytes reserved up front for a blob of the declared size.
pub fn blob_prealloc_capacity(expected_size: u64) -> (r: u64)
    ensures
        r == if expected_size < BLOB_PREALLOC_CAP_BYTES { expected_size } else { BLOB_PREALLOC_CAP_BYTES },
{
    if expected_size < BLOB_PREALLOC_CAP_BYTES {
        expected_size
    } else {
        BLOB_PREALLOC_CAP_BYTES
    }
}

} // verus!
