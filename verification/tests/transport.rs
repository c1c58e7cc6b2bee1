use ommx::image_ref::ImageRef;
use ommx::remote::{ErrorCause, RemoteArtifactError};
use ommx::transport::{
    blob_transfer_concurrency, classify_docker_credential, classify_env_credentials,
    parse_blob_transfer_concurrency, protocol_for, accumulate_chunk, check_content_length,
    blob_prealloc_capacity, resolve_auth, ClientProtocol, ConcurrencyError,
    CredentialRetrievalError, DockerCredential, EnvCredentials, EnvLookup, InvalidRemoteResponse,
    RegistryAuth, DEFAULT_ARTIFACT_TRANSFER_CONCURRENCY,
};

#[test]
fn artifact_transfer_concurrency_uses_conservative_default() {
    assert_eq!(
        parse_blob_transfer_concurrency(None).unwrap().get(),
        DEFAULT_ARTIFACT_TRANSFER_CONCURRENCY
    );
}

#[test]
fn artifact_transfer_concurrency_accepts_positive_override() {
    assert_eq!(parse_blob_transfer_concurrency(Some("8")).unwrap().get(), 8);
}

#[test]
fn artifact_transfer_concurrency_rejects_invalid_override() {
    for value in ["", "0", "-1", "four"] {
        let error = parse_blob_transfer_concurrency(Some(value)).unwrap_err();
        assert!(matches!(error, ConcurrencyError::NotPositiveInteger(ref v) if v == value));
        assert_eq!(
            error.message(),
            format!("OMMX_ARTIFACT_TRANSFER_CONCURRENCY must be a positive integer, got {value:?}")
        );
    }
}

#[test]
fn artifact_transfer_concurrency_reads_plus_sign_and_rejects_overflow() {
    assert_eq!(parse_blob_transfer_concurrency(Some("+12")).unwrap().get(), 12);
    assert!(parse_blob_transfer_concurrency(Some("+")).is_err());
    assert!(parse_blob_transfer_concurrency(Some("99999999999999999999999999")).is_err());
    assert!(parse_blob_transfer_concurrency(Some(" 8")).is_err());
}

#[test]
fn blob_transfer_concurrency_follows_the_environment() {
    assert_eq!(blob_transfer_concurrency(&EnvLookup::NotPresent).unwrap().get(), 4);
    assert_eq!(
        blob_transfer_concurrency(&EnvLookup::Present("16".to_string())).unwrap().get(),
        16
    );
    assert_eq!(
        blob_transfer_concurrency(&EnvLookup::NotUnicode).unwrap_err(),
        ConcurrencyError::NotUnicode
    );
}

fn assert_basic(auth: Option<RegistryAuth>, expected_user: &str, expected_pass: &str) {
    match auth {
        Some(RegistryAuth::Basic(u, p)) => {
            assert_eq!(u, expected_user);
            assert_eq!(p, expected_pass);
        }
        other => panic!("expected Basic({expected_user}, _), got {other:?}"),
    }
}

fn assert_bearer(auth: Option<RegistryAuth>, expected_token: &str) {
    match auth {
        Some(RegistryAuth::Bearer(t)) => assert_eq!(t, expected_token),
        other => panic!("expected Bearer(_), got {other:?}"),
    }
}

#[test]
fn classify_username_password_to_basic() {
    let auth = classify_docker_credential(
        "ghcr.io",
        Ok(DockerCredential::UsernamePassword(
            "alice".to_string(),
            "secret".to_string(),
        )),
    );
    assert_basic(auth, "alice", "secret");
}

#[test]
fn classify_identity_token_to_bearer() {
    let auth = classify_docker_credential(
        "ghcr.io",
        Ok(DockerCredential::IdentityToken("tok-123".to_string())),
    );
    assert_bearer(auth, "tok-123");
}

#[test]
fn classify_missing_credentials_falls_through() {
    for err in [
        CredentialRetrievalError::ConfigNotFound,
        CredentialRetrievalError::NoCredentialConfigured,
    ] {
        assert!(classify_docker_credential("ghcr.io", Err(err)).is_none());
    }
}

#[test]
fn classify_helper_failure_falls_through() {
    let auth = classify_docker_credential("ghcr.io", Err(CredentialRetrievalError::HelperFailure));
    assert!(auth.is_none());
}

#[test]
fn registry_string_includes_port_when_present() {
    let with_port = ImageRef::parse("localhost:5000/ommx/native-push:tag1").unwrap();
    assert_eq!(with_port.registry(), "localhost:5000");

    let no_port = ImageRef::parse("ghcr.io/jij-inc/ommx:tag1").unwrap();
    assert_eq!(no_port.registry(), "ghcr.io");
}

#[test]
fn protocol_for_picks_http_for_localhost_variants() {
    for registry in ["localhost", "localhost:5000", "127.0.0.1", "127.0.0.1:5000"] {
        assert!(
            matches!(protocol_for(registry), ClientProtocol::Http),
            "expected HTTP for local registry {registry}",
        );
    }
    for registry in ["ghcr.io", "registry.example.com:443"] {
        assert!(
            matches!(protocol_for(registry), ClientProtocol::Https),
            "expected HTTPS for remote registry {registry}",
        );
    }
}

fn env(domain: Option<&str>, username: Option<&str>, password: Option<&str>) -> EnvCredentials {
    EnvCredentials {
        domain: domain.map(str::to_string),
        username: username.map(str::to_string),
        password: password.map(str::to_string),
    }
}

#[test]
fn env_creds_no_domain_falls_through() {
    let out = classify_env_credentials("ghcr.io", env(None, None, None)).unwrap();
    assert!(out.is_none());

    let out = classify_env_credentials("ghcr.io", env(None, Some("u"), Some("p"))).unwrap();
    assert!(out.is_none());
}

#[test]
fn env_creds_domain_mismatch_falls_through() {
    let out = classify_env_credentials(
        "ghcr.io",
        env(Some("registry.example.com"), Some("u"), Some("p")),
    )
    .unwrap();
    assert!(out.is_none());
}

#[test]
fn env_creds_full_override_produces_basic() {
    let out = classify_env_credentials(
        "ghcr.io",
        env(Some("ghcr.io"), Some("alice"), Some("secret")),
    )
    .unwrap();
    assert_basic(out, "alice", "secret");
}

#[test]
fn env_creds_partial_override_errors() {
    let image = ImageRef::parse("ghcr.io/jij-inc/ommx:latest").unwrap();
    for (u, p) in [(Some("alice"), None), (None, Some("secret")), (None, None)] {
        let err = classify_env_credentials("ghcr.io", env(Some("ghcr.io"), u, p))
            .expect_err("partial OMMX_BASIC_AUTH_* should be an error");
        assert_eq!(err.domain, "ghcr.io");
        assert_eq!(err.username_state, if u.is_some() { "set" } else { "unset" });
        assert_eq!(err.password_state, if p.is_some() { "set" } else { "unset" });
        let msg = err.message();
        assert!(msg.contains("OMMX_BASIC_AUTH_DOMAIN=ghcr.io"));
        assert!(msg.contains("USERNAME="));
        assert!(msg.contains("PASSWORD="));
        assert!(matches!(
            RemoteArtifactError::classify(
                &image,
                vec![ErrorCause::InvalidAuthenticationConfiguration(err)]
            ),
            RemoteArtifactError::Authentication { .. }
        ));
    }
}

#[test]
fn invalid_remote_response_is_classified_without_message_matching() {
    let image = ImageRef::parse("ghcr.io/jij-inc/ommx:latest").unwrap();
    let source = vec![ErrorCause::InvalidRemoteResponse(
        InvalidRemoteResponse::ContentLengthMismatch {
            digest: "sha256:deadbeef".to_string(),
            content_length: 2,
            expected_size: 1,
        },
    )];
    assert!(matches!(
        RemoteArtifactError::classify(&image, source),
        RemoteArtifactError::InvalidArtifact { .. }
    ));
}

#[test]
fn blob_stream_io_is_classified_as_transport() {
    let image = ImageRef::parse("ghcr.io/jij-inc/ommx:latest").unwrap();
    let source = ommx::remote::blob_stream_error("sha256:deadbeef", false);
    assert!(matches!(
        RemoteArtifactError::classify(&image, vec![source]),
        RemoteArtifactError::Transport { .. }
    ));
}

#[test]
fn blob_digest_failure_is_classified_as_invalid_artifact() {
    let image = ImageRef::parse("ghcr.io/jij-inc/ommx:latest").unwrap();
    let source = ommx::remote::blob_stream_error("sha256:deadbeef", true);
    let err = RemoteArtifactError::classify(&image, vec![source]);
    assert!(matches!(err, RemoteArtifactError::InvalidArtifact { .. }));
    assert_eq!(err.image().repository(), "jij-inc/ommx");
    assert_eq!(err.image().tag(), Some("latest"));
}

#[test]
fn pulled_blob_size_checks() {
    assert!(check_content_length("d", None, 10).is_ok());
    assert!(check_content_length("d", Some(10), 10).is_ok());
    assert_eq!(
        check_content_length("d", Some(2), 1).unwrap_err(),
        InvalidRemoteResponse::ContentLengthMismatch {
            digest: "d".to_string(),
            content_length: 2,
            expected_size: 1
        }
    );
    assert_eq!(accumulate_chunk("d", 3, 4, 10).unwrap(), 7);
    assert_eq!(
        accumulate_chunk("d", 8, 4, 10).unwrap_err(),
        InvalidRemoteResponse::BlobTooLarge {
            digest: "d".to_string(),
            expected_size: 10,
            actual_size: 12
        }
    );
    assert_eq!(
        accumulate_chunk("d", u64::MAX, 1, u64::MAX).unwrap_err(),
        InvalidRemoteResponse::SizeOverflow {
            digest: "d".to_string()
        }
    );
    assert_eq!(blob_prealloc_capacity(100), 100);
    assert_eq!(blob_prealloc_capacity(u64::MAX), 256 * 1024 * 1024);
}

#[test]
fn auth_resolution_prefers_environment_then_docker() {
    let env_auth = Some(RegistryAuth::Basic("a".into(), "b".into()));
    let docker_auth = Some(RegistryAuth::Bearer("t".into()));
    assert_eq!(
        resolve_auth(env_auth.clone(), docker_auth.clone()),
        RegistryAuth::Basic("a".into(), "b".into())
    );
    assert_eq!(resolve_auth(None, docker_auth), RegistryAuth::Bearer("t".into()));
    assert_eq!(resolve_auth(None, None), RegistryAuth::Anonymous);
}

#[test]
fn invalid_artifact_failures_keep_image_and_causes() {
    let image = ImageRef::parse("ghcr.io/jij-inc/ommx:latest").unwrap();
    let err = RemoteArtifactError::invalid_artifact(&image, vec![ErrorCause::Json]);
    assert!(matches!(err, RemoteArtifactError::InvalidArtifact { .. }));
    assert_eq!(err.image(), &image);
}

#[test]
fn concurrency_error_for_non_unicode_names_the_variable() {
    assert_eq!(
        ConcurrencyError::NotUnicode.message(),
        "OMMX_ARTIFACT_TRANSFER_CONCURRENCY must be a positive integer encoded as UTF-8"
    );
}
