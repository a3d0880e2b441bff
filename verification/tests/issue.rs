use oauth_client_credentials::config::{ConfigDocument, ProviderDocument};
use oauth_client_credentials::endpoint::{
    is_standard_code, is_success, refusal_error, CredentialError, EndpointReply, TokenRequest,
};
use oauth_client_credentials::plugin::{
    Counter, IssueAction, IssueEvent, IssueOutcome, OAuthClientCredentialsPlugin, PluginClass,
    PLUGIN_ID,
};
use oauth_client_credentials::token::{
    cached_to_issued, default_token_type, CachedToken, TokenResponse, LAST_MOMENT,
};

const SECOND: u64 = 1_000_000_000;

fn provider(url: &str) -> ProviderDocument {
    ProviderDocument {
        token_url: url.to_string(),
        client_id: "cid".to_string(),
        client_secret: "csecret".to_string(),
        scopes: Some(vec!["read".to_string(), "write".to_string()]),
        grant_type: None,
        refresh_buffer_ms: None,
        timeout_ms: None,
    }
}

fn load(providers: Vec<(&str, ProviderDocument)>) -> Result<OAuthClientCredentialsPlugin, String> {
    let document = ConfigDocument {
        providers: providers.into_iter().map(|(n, p)| (n.to_string(), p)).collect(),
    };
    OAuthClientCredentialsPlugin::from_config_json(Ok(document), "0.1.0", "issuer::plugin")
}

fn build_with_token_url(url: &str) -> OAuthClientCredentialsPlugin {
    load(vec![("test", provider(url))]).unwrap()
}

fn granted(access_token: &str, token_type: Option<&str>, expires_in: Option<u64>) -> EndpointReply {
    EndpointReply::Granted {
        response: Ok(TokenResponse {
            access_token: access_token.to_string(),
            token_type: token_type.map(str::to_string),
            expires_in,
        }),
    }
}

fn refused(status: u16, body: &str) -> EndpointReply {
    EndpointReply::Refused { status, body: Some(body.to_string()) }
}

/// Answers a request, with `reply` for the token request if one is sent.
fn issue(
    plugin: &mut OAuthClientCredentialsPlugin,
    target: &str,
    reply: Option<EndpointReply>,
    now: u64,
) -> (IssueOutcome, Option<TokenRequest>) {
    match plugin.issue_inner(target, IssueEvent::Requested, now) {
        IssueAction::Finish(outcome) => return (outcome, None),
        IssueAction::AcquireGuard => {}
        IssueAction::Fetch(request) => panic!("sent without the guard: {request:?}"),
    }
    let request = match plugin.issue_inner(target, IssueEvent::GuardAcquired, now) {
        IssueAction::Finish(outcome) => return (outcome, None),
        IssueAction::AcquireGuard => panic!("the guard is held"),
        IssueAction::Fetch(request) => request,
    };
    let event = IssueEvent::FetchCompleted(reply.expect("a token request is sent"));
    match plugin.issue_inner(target, event, now) {
        IssueAction::Finish(outcome) => (outcome, Some(request)),
        other => panic!("not answered: {other:?}"),
    }
}

fn failure(reply: EndpointReply) -> CredentialError {
    let mut plugin = build_with_token_url("https://example.com/token");
    issue(&mut plugin, "test", Some(reply), 0).0.result.unwrap_err()
}

#[test]
fn from_config_json_succeeds() {
    let plugin = build_with_token_url("https://example.com/token");
    assert_eq!(plugin.manifest().id, PLUGIN_ID);
    assert_eq!(plugin.manifest().id, "dev.mcpg.credential.oauth-client-credentials");
    assert_eq!(plugin.config().providers.len(), 1);
}

#[test]
fn manifest_presents_the_issuer() {
    let plugin = build_with_token_url("https://example.com/token");
    let manifest = plugin.manifest();
    assert_eq!(manifest.version, "0.1.0");
    assert_eq!(manifest.name, "OAuth 2.0 Client Credentials Issuer");
    assert_eq!(manifest.plugin_class, PluginClass::CredentialIssuer);
    assert_eq!(manifest.protocol_version, "1.0");
    assert_eq!(manifest.module_path_prefix, "issuer");
    assert!(manifest.license.is_none() && manifest.backend_profile.is_none());
    assert!(manifest.required_capabilities.is_empty() && manifest.tags.is_empty());
    assert!(manifest.provides.is_empty() && manifest.provides_schemes.is_empty());
}

#[test]
#[should_panic(expected = "oauth-client-credentials config parse failed")]
fn malformed_config_panics_at_construction() {
    let reason = serde_json::from_str::<serde_json::Value>("{ not json").unwrap_err().to_string();
    OAuthClientCredentialsPlugin::from_config_json(Err(reason), "0.1.0", "issuer")
        .unwrap_or_else(|words| panic!("{words}"));
}

#[test]
#[should_panic(expected = "oauth-client-credentials config parse failed")]
fn empty_providers_panics_at_construction() {
    load(vec![]).unwrap_or_else(|words| panic!("{words}"));
}

#[test]
fn refusal_to_load_tells_the_fault() {
    let words = match load(vec![]) {
        Ok(_) => panic!("loaded"),
        Err(words) => words,
    };
    assert_eq!(
        words,
        "oauth-client-credentials config parse failed: credential.oauth-client-credentials: \
         providers must be non-empty. A misconfigured credential issuer is a security hole; \
         refusing to load."
    );
}

#[test]
fn first_issue_hits_token_endpoint_and_caches() {
    let mut plugin = build_with_token_url("https://example.com/token");
    let reply = granted("tok-abc", Some("Bearer"), Some(3600));
    let (outcome, request) = issue(&mut plugin, "test", Some(reply), 7);
    let request = request.expect("the token endpoint is asked");
    assert_eq!(request.url, "https://example.com/token");
    assert_eq!(request.timeout_ms, 5_000);
    assert!(request.form.contains(&("grant_type".to_string(), "client_credentials".to_string())));
    assert!(request.form.contains(&("client_id".to_string(), "cid".to_string())));
    assert_eq!(outcome.counter, Some(Counter::Refresh));
    let cred = outcome.result.unwrap();
    assert_eq!(cred.value.as_deref(), Some("tok-abc"));
    assert_eq!(cred.parts.get("token_type").map(String::as_str), Some("Bearer"));
    assert_eq!(cred.parts.get("access_token").map(String::as_str), Some("tok-abc"));
    assert_eq!(cred.parts.len(), 2);
    assert_eq!(cred.metadata.get("oauth.token_type").map(String::as_str), Some("Bearer"));
    assert_eq!(cred.metadata.len(), 1);
    assert!(cred.lease_id.is_none());
    // ttl_seconds = 3600 - refresh_buffer_ms/1000 = 3600 - 60 = 3540
    assert!((3530..=3540).contains(&cred.ttl_seconds));
    assert_eq!(cred.ttl_seconds, 3540);
}

#[test]
fn second_issue_returns_cached_token() {
    let mut plugin = build_with_token_url("https://example.com/token");
    let reply = granted("tok-once", Some("Bearer"), Some(3600));
    let _ = issue(&mut plugin, "test", Some(reply), 0).0.result.unwrap();
    let (outcome, request) = issue(&mut plugin, "test", None, 10 * SECOND);
    assert!(request.is_none());
    assert_eq!(outcome.counter, Some(Counter::CacheHit));
    let cred = outcome.result.unwrap();
    assert_eq!(cred.value.as_deref(), Some("tok-once"));
    assert_eq!(cred.ttl_seconds, 3530);
}

#[test]
fn unknown_provider_returns_misconfigured() {
    let mut plugin = build_with_token_url("https://example.com/token");
    let (outcome, request) = issue(&mut plugin, "missing", None, 0);
    assert!(request.is_none());
    assert_eq!(outcome.counter, None);
    match outcome.result.unwrap_err() {
        CredentialError::Misconfigured { reason } => {
            assert!(reason.contains("missing"));
            assert_eq!(reason, "unknown provider `missing`");
        }
        other => panic!("unexpected error: {other:?}"),
    }
    for event in [
        IssueEvent::GuardAcquired,
        IssueEvent::FetchCompleted(granted("tok", None, None)),
    ] {
        match plugin.issue_inner("missing", event, 0) {
            IssueAction::Finish(outcome) => assert!(outcome.result.is_err()),
            other => panic!("not answered: {other:?}"),
        }
    }
}

#[test]
fn token_endpoint_error_surfaces_as_upstream() {
    let body = r#"{
        "error": "invalid_client",
        "error_description": "client_secret LEAKED_SECRET_xyz789 invalid"
    }"#;
    match failure(refused(401, body)) {
        CredentialError::Misconfigured { reason } => {
            assert!(reason.contains("401"), "status preserved: {reason}");
            assert!(
                reason.contains("invalid_client"),
                "OAuth error code should be surfaced: {reason}"
            );
            assert!(
                !reason.contains("LEAKED_SECRET_xyz789"),
                "token endpoint error body leaked into the reason: {reason}"
            );
            assert_eq!(
                reason,
                "token endpoint returned HTTP 401 Unauthorized for `test` (error: invalid_client)"
            );
        }
        other => panic!("unexpected error: {other:?}"),
    }
}

#[test]
fn other_codes_are_not_echoed() {
    let plain = failure(refused(401, ""));
    for code in [
        "client_secret abc123 rejected",
        "Invalid_Client",
        "invalid_client ",
        "temporarily_unavailable",
        "",
    ] {
        let body = serde_json::Value::Object(
            [("error".to_string(), serde_json::Value::from(code))].into_iter().collect(),
        );
        assert_eq!(failure(refused(401, &body.to_string())), plain);
        assert!(!is_standard_code(code));
    }
}

#[test]
fn standard_codes_are_echoed() {
    for code in [
        "invalid_request",
        "invalid_client",
        "invalid_grant",
        "unauthorized_client",
        "unsupported_grant_type",
        "invalid_scope",
    ] {
        assert!(is_standard_code(code));
        assert_eq!(
            failure(refused(400, &format!("{{\"error\": \"{code}\"}}"))),
            CredentialError::Misconfigured {
                reason: format!(
                    "token endpoint returned HTTP 400 Bad Request for `test` (error: {code})"
                )
            }
        );
    }
    assert_eq!(
        refusal_error("p", 429, "429 Slow Down", Some("secret".to_string())),
        CredentialError::Throttled {
            reason: "token endpoint returned HTTP 429 Slow Down for `p`".to_string()
        }
    );
}

#[test]
fn burst_is_served_with_the_one_token() {
    let mut plugin = build_with_token_url("https://example.com/token");
    for _ in 0..5 {
        let waits = plugin.issue_inner("test", IssueEvent::Requested, 0);
        assert_eq!(waits, IssueAction::AcquireGuard);
    }
    let mut sent = 0;
    for now in 1..=5 {
        let outcome = match plugin.issue_inner("test", IssueEvent::GuardAcquired, now) {
            IssueAction::Finish(outcome) => outcome,
            IssueAction::Fetch(_) => {
                sent += 1;
                let event = IssueEvent::FetchCompleted(granted("tok", None, Some(3600)));
                match plugin.issue_inner("test", event, now) {
                    IssueAction::Finish(outcome) => outcome,
                    other => panic!("not answered: {other:?}"),
                }
            }
            IssueAction::AcquireGuard => panic!("the guard is held"),
        };
        assert_eq!(outcome.result.unwrap().value.as_deref(), Some("tok"));
    }
    assert_eq!(sent, 1);
}

#[test]
fn issued_at_is_rfc3339() {
    let mut plugin = build_with_token_url("https://example.com/token");
    let reply = granted("tok", Some("Bearer"), Some(3600));
    let cred = issue(&mut plugin, "test", Some(reply), 0).0.result.unwrap();
    assert!(cred.issued_at.contains('T'));
    assert!(cred.issued_at.len() >= 20);
    assert!(cred.issued_at.ends_with('Z'));
    let stamp = chrono::DateTime::parse_from_rfc3339(&cred.issued_at).unwrap();
    let age = chrono::Utc::now().signed_duration_since(stamp);
    assert!((0..=60).contains(&age.num_seconds()));
}

#[test]
fn scopes_are_sent_space_joined() {
    let mut plugin = build_with_token_url("https://example.com/token");
    let reply = granted("tok", None, Some(3600));
    let (outcome, request) = issue(&mut plugin, "test", Some(reply), 0);
    assert!(outcome.result.is_ok());
    assert_eq!(
        request.unwrap().form,
        vec![
            ("grant_type".to_string(), "client_credentials".to_string()),
            ("client_id".to_string(), "cid".to_string()),
            ("client_secret".to_string(), "csecret".to_string()),
            ("scope".to_string(), "read write".to_string()),
        ]
    );
}

#[test]
fn without_scopes_none_are_sent() {
    let mut bare = provider("https://example.com/token");
    bare.scopes = None;
    let mut plugin = load(vec![("test", bare)]).unwrap();
    let (_, request) = issue(&mut plugin, "test", Some(granted("tok", None, None)), 0);
    assert_eq!(request.unwrap().form.len(), 3);
}

#[test]
fn missing_expires_in_defaults_to_one_hour() {
    let mut plugin = build_with_token_url("https://example.com/token");
    let cred = issue(&mut plugin, "test", Some(granted("tok", Some("Bearer"), None)), 0)
        .0
        .result
        .unwrap();
    // 3600 - 60 = 3540 with default refresh_buffer_ms=60_000
    assert!((3530..=3540).contains(&cred.ttl_seconds));
    assert_eq!(cred.ttl_seconds, 3540);
}

#[test]
fn missing_token_type_defaults_to_bearer() {
    let mut plugin = build_with_token_url("https://example.com/token");
    let cred =
        issue(&mut plugin, "test", Some(granted("tok", None, None)), 0).0.result.unwrap();
    assert_eq!(cred.parts.get("token_type").map(String::as_str), Some("Bearer"));
    assert_eq!(default_token_type(), "Bearer");
    let reply = granted("tok", Some("mac"), None);
    let mut plugin = build_with_token_url("https://example.com/token");
    let cred = issue(&mut plugin, "test", Some(reply), 0).0.result.unwrap();
    assert_eq!(cred.parts.get("token_type").map(String::as_str), Some("mac"));
}

#[test]
fn waiting_caller_is_served_what_the_first_fetched() {
    let mut plugin = build_with_token_url("https://example.com/token");
    let waits = plugin.issue_inner("test", IssueEvent::Requested, 0);
    assert_eq!(waits, IssueAction::AcquireGuard);
    let reply = granted("tok", None, Some(3600));
    assert!(issue(&mut plugin, "test", Some(reply), 1).0.result.is_ok());
    match plugin.issue_inner("test", IssueEvent::GuardAcquired, 2) {
        IssueAction::Finish(outcome) => {
            assert_eq!(outcome.counter, Some(Counter::CacheHit));
            assert_eq!(outcome.result.unwrap().value.as_deref(), Some("tok"));
        }
        other => panic!("not served: {other:?}"),
    }
}

#[test]
fn token_is_refreshed_ahead_of_its_expiry() {
    let mut plugin = build_with_token_url("https://example.com/token");
    let reply = granted("old", None, Some(3600));
    assert!(issue(&mut plugin, "test", Some(reply), 0).0.result.is_ok());
    let (outcome, request) = issue(&mut plugin, "test", None, 3540 * SECOND - 1);
    assert!(request.is_none());
    assert_eq!(outcome.result.unwrap().ttl_seconds, 0);
    let reply = granted("new", None, Some(3600));
    let (outcome, request) = issue(&mut plugin, "test", Some(reply), 3540 * SECOND);
    assert!(request.is_some());
    assert_eq!(outcome.result.unwrap().value.as_deref(), Some("new"));
    let (outcome, _) = issue(&mut plugin, "test", None, 3600 * SECOND);
    assert_eq!(outcome.result.unwrap().value.as_deref(), Some("new"));
}

#[test]
fn stale_token_stands_in_for_five_minutes() {
    let mut plugin = build_with_token_url("https://example.com/token");
    let reply = granted("old", None, Some(3600));
    assert!(issue(&mut plugin, "test", Some(reply), 0).0.result.is_ok());
    let last = 3900 * SECOND - 1;
    let (outcome, request) = issue(&mut plugin, "test", Some(refused(500, "")), last);
    assert!(request.is_some());
    assert_eq!(outcome.counter, Some(Counter::RefreshError));
    assert!(matches!(outcome.masked, Some(CredentialError::Backend { .. })));
    let cred = outcome.result.unwrap();
    assert_eq!(cred.value.as_deref(), Some("old"));
    assert_eq!(cred.ttl_seconds, 0);
    let (outcome, _) = issue(&mut plugin, "test", Some(refused(503, "")), last + 1);
    assert_eq!(outcome.counter, Some(Counter::RefreshError));
    assert!(outcome.masked.is_none());
    assert_eq!(
        outcome.result.unwrap_err(),
        CredentialError::Backend {
            reason: "token endpoint returned HTTP 503 Service Unavailable for `test`".to_string()
        }
    );
}

#[test]
fn providers_keep_their_own_tokens() {
    let mut plugin = load(vec![
        ("one", provider("https://one.example.com/token")),
        ("two", provider("https://two.example.com/token")),
    ])
    .unwrap();
    let (_, request) = issue(&mut plugin, "one", Some(granted("tok-1", None, None)), 0);
    assert_eq!(request.unwrap().url, "https://one.example.com/token");
    let (_, request) = issue(&mut plugin, "two", Some(granted("tok-2", None, None)), 0);
    assert_eq!(request.unwrap().url, "https://two.example.com/token");
    for (name, token) in [("one", "tok-1"), ("two", "tok-2")] {
        let (outcome, request) = issue(&mut plugin, name, None, 1);
        assert!(request.is_none());
        assert_eq!(outcome.result.unwrap().value.as_deref(), Some(token));
    }
}

#[test]
fn token_shorter_than_the_buffer_is_never_cached_for_long() {
    let mut plugin = build_with_token_url("https://example.com/token");
    let cred = issue(&mut plugin, "test", Some(granted("brief", None, Some(30))), 5).0.result;
    assert_eq!(cred.unwrap().ttl_seconds, 0);
    let (outcome, request) = issue(&mut plugin, "test", Some(granted("next", None, Some(30))), 6);
    assert!(request.is_some());
    assert_eq!(outcome.result.unwrap().value.as_deref(), Some("next"));
}

#[test]
fn failures_are_of_the_kind_of_their_status() {
    for (status, kind) in [
        (429, "throttled"),
        (400, "misconfigured"),
        (403, "misconfigured"),
        (499, "misconfigured"),
        (500, "backend"),
        (302, "backend"),
        (100, "backend"),
        (999, "backend"),
    ] {
        let (found, reason) = match failure(refused(status, "")) {
            CredentialError::Throttled { reason } => ("throttled", reason),
            CredentialError::Misconfigured { reason } => ("misconfigured", reason),
            CredentialError::Backend { reason } => ("backend", reason),
        };
        assert_eq!(found, kind);
        assert!(reason.contains(&status.to_string()));
    }
}

#[test]
fn status_without_a_phrase_is_told_by_its_number() {
    assert_eq!(
        failure(refused(599, "")),
        CredentialError::Backend {
            reason: "token endpoint returned HTTP 599 <unknown status code> for `test`".to_string()
        }
    );
}

#[test]
fn body_without_an_error_code_is_not_quoted() {
    let plain = CredentialError::Misconfigured {
        reason: "token endpoint returned HTTP 400 Bad Request for `test`".to_string(),
    };
    for body in ["oops", "[\"error\"]", "{\"error\": 7}", "{\"error_description\": \"x\"}", "\"error\""] {
        assert_eq!(failure(refused(400, body)), plain);
    }
    assert_eq!(failure(EndpointReply::Refused { status: 400, body: None }), plain);
}

#[test]
fn unreachable_and_unreadable_replies_are_backend_failures() {
    assert_eq!(
        failure(EndpointReply::Unreachable { error: "connection refused".to_string() }),
        CredentialError::Backend {
            reason: "OAuth token endpoint unreachable for `test`: connection refused".to_string()
        }
    );
    assert_eq!(
        failure(EndpointReply::Granted { response: Err("expected value".to_string()) }),
        CredentialError::Backend {
            reason: "failed to parse token endpoint response for `test`: expected value".to_string()
        }
    );
}

#[test]
fn success_is_a_status_of_the_two_hundreds() {
    for (status, success) in [(199, false), (200, true), (204, true), (299, true), (300, false)] {
        assert_eq!(is_success(status), success);
    }
}

#[test]
fn counters_bear_their_reported_names() {
    assert_eq!(Counter::CacheHit.name(), "mcpg_oauth_token_cache_hit_total");
    assert_eq!(Counter::Refresh.name(), "mcpg_oauth_token_refresh_total");
    assert_eq!(Counter::RefreshError.name(), "mcpg_oauth_token_refresh_error_total");
}

#[test]
fn token_is_valid_until_due_and_in_grace_beyond_expiry() {
    let response = TokenResponse {
        access_token: "tok".to_string(),
        token_type: None,
        expires_in: Some(100),
    };
    let token = CachedToken::from_response(response, 1_500, 0, "stamp".to_string());
    assert!(token.is_valid_now(98_500_000_000 - 1));
    assert!(!token.is_valid_now(98_500_000_000));
    assert!(token.within_grace_now(400 * SECOND - 1));
    assert!(!token.within_grace_now(400 * SECOND));
    let issued = cached_to_issued(&token, 0);
    // 100 s less 1.5 s, in whole seconds
    assert_eq!(issued.ttl_seconds, 98);
    assert_eq!(issued.issued_at, "stamp");
    assert_eq!(cached_to_issued(&token.clone(), 0), issued);
}

#[test]
fn expiry_beyond_the_clock_is_told() {
    let mut response =
        TokenResponse { access_token: "tok".to_string(), token_type: None, expires_in: None };
    assert!(response.fits_clock(u64::MAX));
    response.expires_in = Some(i64::MAX as u64);
    assert!(response.fits_clock(999_999_999));
    assert!(!response.fits_clock(SECOND));
    response.expires_in = Some(u64::MAX);
    assert!(!response.fits_clock(0));
    assert_eq!(LAST_MOMENT, i64::MAX as i128 * SECOND as i128 + 999_999_999);
}
