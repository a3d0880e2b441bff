use oauth_client_credentials::config::{
    default_grant_type, default_refresh_buffer_ms, default_timeout_ms, ConfigDocument, ConfigError,
    OAuthConfig, ProviderDocument,
};

fn github() -> ProviderDocument {
    ProviderDocument {
        token_url: "https://github.com/login/oauth/access_token".to_string(),
        client_id: "gh-app".to_string(),
        client_secret: "secret".to_string(),
        scopes: Some(vec!["repo".to_string()]),
        grant_type: None,
        refresh_buffer_ms: None,
        timeout_ms: None,
    }
}

fn document(providers: Vec<(&str, ProviderDocument)>) -> Result<ConfigDocument, String> {
    Ok(ConfigDocument {
        providers: providers.into_iter().map(|(name, provider)| (name.to_string(), provider)).collect(),
    })
}

fn minimal() -> Result<ConfigDocument, String> {
    document(vec![("github", github())])
}

fn fault_of(provider: ProviderDocument) -> ConfigError {
    OAuthConfig::parse(document(vec![("github", provider)])).unwrap_err()
}

#[test]
fn parses_minimal() {
    let cfg = OAuthConfig::parse(minimal()).unwrap();
    let p = cfg.providers.get("github").unwrap();
    assert_eq!(p.grant_type, "client_credentials");
    assert_eq!(p.refresh_buffer_ms, 60_000);
    assert_eq!(p.timeout_ms, 5_000);
    assert_eq!(p.token_url, "https://github.com/login/oauth/access_token");
    assert_eq!(p.client_id, "gh-app");
    assert_eq!(p.client_secret, "secret");
    assert_eq!(p.scopes, vec!["repo".to_string()]);
}

#[test]
fn rejects_empty_providers() {
    assert!(matches!(
        OAuthConfig::parse(document(vec![])).unwrap_err(),
        ConfigError::EmptyProviders
    ));
}

#[test]
fn rejects_missing_token_url() {
    let mut v = github();
    v.token_url = "".to_string();
    assert!(matches!(fault_of(v), ConfigError::EmptyTokenUrl { .. }));
}

#[test]
fn rejects_unknown_token_url_scheme() {
    let mut v = github();
    v.token_url = "file:///etc/oauth".to_string();
    assert!(matches!(fault_of(v), ConfigError::InvalidTokenUrlScheme { .. }));
}

#[test]
fn rejects_empty_client_secret() {
    let mut v = github();
    v.client_secret = "".to_string();
    assert!(matches!(fault_of(v), ConfigError::EmptyClientSecret { .. }));
}

#[test]
fn rejects_unsupported_grant_type() {
    let mut v = github();
    v.grant_type = Some("password".to_string());
    assert!(matches!(fault_of(v), ConfigError::UnsupportedGrantType { .. }));
}

#[test]
fn rejects_oversize_timeout() {
    let mut v = github();
    v.timeout_ms = Some(120_000);
    assert!(matches!(fault_of(v), ConfigError::InvalidTimeoutMs { .. }));
}

#[test]
fn rejects_oversize_refresh_buffer() {
    let mut v = github();
    v.refresh_buffer_ms = Some(700_000);
    assert!(matches!(fault_of(v), ConfigError::InvalidRefreshBufferMs { .. }));
}

#[test]
fn rejects_blank_client_id_but_not_a_blank_secret() {
    let mut v = github();
    v.client_id = " \t\u{3000}".to_string();
    assert_eq!(fault_of(v), ConfigError::EmptyClientId { name: "github".to_string() });
    let mut v = github();
    v.client_secret = " ".to_string();
    assert!(OAuthConfig::parse(document(vec![("github", v)])).is_ok());
}

#[test]
fn blank_token_url_is_empty_rather_than_of_a_wrong_scheme() {
    let mut v = github();
    v.token_url = "\u{2003}\n".to_string();
    assert_eq!(fault_of(v), ConfigError::EmptyTokenUrl { name: "github".to_string() });
    let mut v = github();
    v.token_url = " https://auth.example.com".to_string();
    assert_eq!(fault_of(v), ConfigError::InvalidTokenUrlScheme { name: "github".to_string() });
}

#[test]
fn bounds_of_timeout_and_buffer_belong_to_the_range() {
    for (timeout, buffer, accepted) in [
        (100, 0, true),
        (60_000, 600_000, true),
        (99, 0, false),
        (60_001, 0, false),
        (100, 600_001, false),
    ] {
        let mut v = github();
        v.timeout_ms = Some(timeout);
        v.refresh_buffer_ms = Some(buffer);
        assert_eq!(OAuthConfig::parse(document(vec![("github", v)])).is_ok(), accepted);
    }
}

#[test]
fn http_is_a_scheme_too() {
    let mut v = github();
    v.token_url = "http://localhost/token".to_string();
    assert!(OAuthConfig::parse(document(vec![("github", v)])).is_ok());
}

#[test]
fn first_offender_in_name_order_is_reported() {
    let mut late = github();
    late.client_secret = "".to_string();
    let mut early = github();
    early.token_url = "ftp://x".to_string();
    let err = OAuthConfig::parse(document(vec![
        ("zeta", late),
        ("alpha", github()),
        ("beta", early),
    ]))
    .unwrap_err();
    assert_eq!(err, ConfigError::InvalidTokenUrlScheme { name: "beta".to_string() });
}

#[test]
fn providers_are_kept_in_name_order_and_the_later_of_two_counts() {
    let mut other = github();
    other.client_id = "second".to_string();
    let cfg = OAuthConfig::parse(document(vec![
        ("b", github()),
        ("\u{e9}", github()),
        ("a", github()),
        ("B", github()),
        ("b", other),
    ]))
    .unwrap();
    let names: Vec<&str> =
        (0..cfg.providers.len()).map(|i| cfg.providers.name_at(i).as_str()).collect();
    assert_eq!(names, vec!["B", "a", "b", "\u{e9}"]);
    assert_eq!(cfg.providers.get("b").unwrap().client_id, "second");
    assert_eq!(cfg.providers.value_at(2).client_id, "second");
    assert!(cfg.providers.get("c").is_none());
    assert_eq!(cfg.clone(), cfg);
}

#[test]
fn accepted_config_validates_again() {
    let cfg = OAuthConfig::parse(minimal()).unwrap();
    assert_eq!(cfg.validate(), Ok(()));
}

#[test]
fn document_of_a_config_parses_back() {
    let mut other = github();
    other.scopes = Some(vec!["write".to_string(), "read".to_string()]);
    other.timeout_ms = Some(100);
    other.refresh_buffer_ms = Some(0);
    let cfg = OAuthConfig::parse(document(vec![("b", other), ("a", github())])).unwrap();
    assert_eq!(OAuthConfig::parse(Ok(cfg.document())).unwrap(), cfg);
    for (_, provider) in cfg.document().providers {
        assert!(provider.scopes.is_some() && provider.grant_type.is_some());
        assert!(provider.refresh_buffer_ms.is_some() && provider.timeout_ms.is_some());
    }
    assert_eq!(cfg.document().providers[0].1.timeout_ms, Some(5_000));
    assert_eq!(cfg.clone().document(), cfg.document());
}

#[test]
fn unreadable_document_is_reported_with_its_reason() {
    let reason = serde_json::from_str::<serde_json::Value>("{ not json").unwrap_err().to_string();
    let err = OAuthConfig::parse(Err(reason.clone())).unwrap_err();
    assert_eq!(err, ConfigError::InvalidJson(reason.clone()));
    assert_eq!(
        err.message(),
        format!("invalid credential.oauth-client-credentials config JSON: {reason}")
    );
}

#[test]
fn defaults_are_as_documented() {
    assert_eq!(default_grant_type(), "client_credentials");
    assert_eq!(default_refresh_buffer_ms(), 60_000);
    assert_eq!(default_timeout_ms(), 5_000);
    let mut v = github();
    v.scopes = None;
    let cfg = OAuthConfig::parse(document(vec![("github", v)])).unwrap();
    assert!(cfg.providers.get("github").unwrap().scopes.is_empty());
}

#[test]
fn messages_name_the_provider_and_the_value() {
    let name = "p".to_string();
    let told: Vec<(ConfigError, &str)> = vec![
        (ConfigError::EmptyProviders, "credential.oauth-client-credentials: providers must be non-empty"),
        (
            ConfigError::EmptyTokenUrl { name: name.clone() },
            "credential.oauth-client-credentials: provider `p` token_url is empty",
        ),
        (
            ConfigError::InvalidTokenUrlScheme { name: name.clone() },
            "credential.oauth-client-credentials: provider `p` token_url must start with http:// or https://",
        ),
        (
            ConfigError::EmptyClientId { name: name.clone() },
            "credential.oauth-client-credentials: provider `p` client_id is empty",
        ),
        (
            ConfigError::EmptyClientSecret { name: name.clone() },
            "credential.oauth-client-credentials: provider `p` client_secret is empty",
        ),
        (
            ConfigError::UnsupportedGrantType { name: name.clone(), grant_type: "password".to_string() },
            "credential.oauth-client-credentials: provider `p` grant_type=`password` not supported (only `client_credentials` in v0.1)",
        ),
        (
            ConfigError::InvalidTimeoutMs { name: name.clone(), timeout: 120_000 },
            "credential.oauth-client-credentials: provider `p` timeout_ms=120000; must be 100..=60_000",
        ),
        (
            ConfigError::InvalidRefreshBufferMs { name: name.clone(), buffer: u64::MAX },
            "credential.oauth-client-credentials: provider `p` refresh_buffer_ms=18446744073709551615; must be 0..=600_000",
        ),
    ];
    for (error, message) in told {
        assert_eq!(error.message(), message);
    }
}
