//! The exchange with a token endpoint: what is asked, and what becomes of the reply.

use vstd::prelude::*;
use vstd::string::*;

use crate::config::ProviderConfig;
use crate::config::ProviderView;
use crate::foreign::json_text_member;
use crate::foreign::now_rfc3339;
use crate::foreign::read_json_text_member;
use crate::foreign::status_display;
use crate::foreign::status_text;
use crate::foreign::utc_timestamp;
use crate::name_map::pairs_view;
use crate::text::decimal;
use crate::text::has_part;
use crate::text::join;
use crate::text::joined;
use crate::text::same_text;
use crate::token::optional_text;
use crate::token::token_of;
use crate::token::CachedToken;
use crate::token::TokenResponse;
use crate::token::TokenView;

verus! {

/// A token request, in mathematical terms.
pub struct RequestView {
    pub url: Seq<char>,
    pub timeout_ms: int,
    pub form: Seq<(Seq<char>, Seq<char>)>,
}

/// A token request: a form to be posted to `url`.
#[derive(Debug, Clone, PartialEq)]
pub struct TokenRequest {
    pub url: String,
    pub timeout_ms: u64,
    pub form: Vec<(String, String)>,
}

impl View for TokenRequest {
    type V = RequestView;

    open spec fn view(&self) -> RequestView {
        RequestView {
            url: self.url@,
            timeout_ms: self.timeout_ms as int,
            form: pairs_view(self.form@),
        }
    }
}

/// The scopes of a provider as they are requested, joined by spaces.
pub open spec fn scope_text(provider: ProviderView) -> Seq<char> {
    joined(provider.scopes, " "@, provider.scopes.len())
}

/// The request that asks `provider` for a token. Without scopes it names none.
pub open spec fn request_for(provider: ProviderView) -> RequestView {
    let credentials = seq![
        ("grant_type"@, provider.grant_type),
        ("client_id"@, provider.client_id),
        ("client_secret"@, provider.client_secret),
    ];
    RequestView {
        url: provider.token_url,
        timeout_ms: provider.timeout_ms as int,
        form: if provider.scopes.len() == 0 {
            credentials
        } else {
            credentials.push(("scope"@, scope_text(provider)))
        },
    }
}

/// The request that asks `provider` for a token.
pub fn token_request(provider: &ProviderConfig) -> (request: TokenRequest)
    ensures
        request@ == request_for(provider@),
{
    let mut form: Vec<(String, String)> = Vec::new();
    form.push(("grant_type".to_owned(), provider.grant_type.clone()));
    form.push(("client_id".to_owned(), provider.client_id.clone()));
    form.push(("client_secret".to_owned(), provider.client_secret.clone()));
    if provider.scopes.len() > 0 {
        form.push(("scope".to_owned(), join(&provider.scopes, " ")));
    }
    assert(pairs_view(form@) =~= request_for(provider@).form);
    TokenRequest { url: provider.token_url.clone(), timeout_ms: provider.timeout_ms, form }
}

/// Why a credential was not issued, in mathematical terms.
pub enum CredentialFault {
    Misconfigured { reason: Seq<char> },
    Throttled { reason: Seq<char> },
    Backend { reason: Seq<char> },
}

/// Why a credential was not issued.
#[derive(Debug, Clone, PartialEq)]
pub enum CredentialError {
    /// The configuration has to be mended; to try again is of no use.
    Misconfigured { reason: String },
    /// The token endpoint asks for fewer requests.
    Throttled { reason: String },
    /// The token endpoint failed, perhaps for a while only.
    Backend { reason: String },
}

impl View for CredentialError {
    type V = CredentialFault;

    open spec fn view(&self) -> CredentialFault {
        match self {
            CredentialError::Misconfigured { reason } => CredentialFault::Misconfigured {
                reason: reason@,
            },
            CredentialError::Throttled { reason } => CredentialFault::Throttled {
                reason: reason@,
            },
            CredentialError::Backend { reason } => CredentialFault::Backend { reason: reason@ },
        }
    }
}

impl CredentialFault {
    /// The words that say why.
    pub open spec fn reason(self) -> Seq<char> {
        match self {
            CredentialFault::Misconfigured { reason } => reason,
            CredentialFault::Throttled { reason } => reason,
            CredentialFault::Backend { reason } => reason,
        }
    }
}

/// What came of a token request.
#[derive(Debug, PartialEq)]
pub enum EndpointReply {
    /// No reply came; the error says why.
    Unreachable { error: String },
    /// A reply whose status is not one of success. The body is `None` where it
    /// could not be read.
    Refused { status: u16, body: Option<String> },
    /// A reply with a status of success, read as JSON: the response, or words
    /// that say that the body is none, without quoting it.
    Granted { response: Result<TokenResponse, String> },
}

impl EndpointReply {
    /// The status of a refusal is one that HTTP knows and not one of success,
    /// and the clock can express when a token received at `now` expires.
    pub open spec fn admissible(self, now: int) -> bool {
        match self {
            EndpointReply::Unreachable { error } => true,
            EndpointReply::Refused { status, body } => 100 <= status <= 999 && !(200 <= status
                <= 299),
            EndpointReply::Granted { response } => match response {
                Ok(granted) => granted.expiry_fits(now),
                Err(error) => true,
            },
        }
    }
}

/// Whether a reply with `status` carries a token rather than an error.
pub fn is_success(status: u16) -> (success: bool)
    ensures
        success == (200 <= status <= 299),
{
    200 <= status && status <= 299
}

/// The fault that a refusal with `status` amounts to.
pub open spec fn refusal_kind(status: int, reason: Seq<char>) -> CredentialFault {
    if status == 429 {
        CredentialFault::Throttled { reason }
    } else if 400 <= status <= 499 {
        CredentialFault::Misconfigured { reason }
    } else {
        CredentialFault::Backend { reason }
    }
}

/// `code` is one of the error codes of RFC 6749, section 5.2.
pub open spec fn standard_code(code: Seq<char>) -> bool {
    ||| code == "invalid_request"@
    ||| code == "invalid_client"@
    ||| code == "invalid_grant"@
    ||| code == "unauthorized_client"@
    ||| code == "unsupported_grant_type"@
    ||| code == "invalid_scope"@
}

/// What may be shown of the error code that a refusal names: a standard code,
/// and nothing of any other text, which might hold anything.
pub open spec fn shown_code(named: Option<Seq<char>>) -> Option<Seq<char>> {
    match named {
        Some(code) => if standard_code(code) {
            Some(code)
        } else {
            None
        },
        None => None,
    }
}

/// Whether `code` is one of the error codes of RFC 6749, section 5.2.
pub fn is_standard_code(code: &str) -> (yes: bool)
    ensures
        yes == standard_code(code@),
{
    same_text(code, "invalid_request") || same_text(code, "invalid_client") || same_text(
        code,
        "invalid_grant",
    ) || same_text(code, "unauthorized_client") || same_text(code, "unsupported_grant_type")
        || same_text(code, "invalid_scope")
}

/// The words that report a refusal. Of the body they hold the error code only.
pub open spec fn refusal_reason(
    provider_name: Seq<char>,
    status_text: Seq<char>,
    code: Option<Seq<char>>,
) -> Seq<char> {
    let refused = "token endpoint returned HTTP "@ + status_text + " for `"@ + provider_name;
    match code {
        Some(named) => refused + "` (error: "@ + named + ")"@,
        None => refused + "`"@,
    }
}

/// The error that a refusal amounts to, given how its status reads and the
/// text that its body names as the error code. Only a standard code is shown.
pub fn refusal_error(
    provider_name: &str,
    status: u16,
    status_text: &str,
    code: Option<String>,
) -> (error: CredentialError)
    ensures
        error@ == refusal_kind(
            status as int,
            refusal_reason(provider_name@, status_text@, shown_code(optional_text(code))),
        ),
{
    let refused = "token endpoint returned HTTP ".to_owned().concat(status_text).concat(
        " for `",
    ).concat(provider_name);
    let shown = match code {
        Some(named) => if is_standard_code(named.as_str()) {
            Some(named)
        } else {
            None
        },
        None => None,
    };
    let reason = match shown {
        Some(named) => refused.concat("` (error: ").concat(named.as_str()).concat(")"),
        None => refused.concat("`"),
    };
    if status == 429 {
        CredentialError::Throttled { reason }
    } else if 400 <= status && status <= 499 {
        CredentialError::Misconfigured { reason }
    } else {
        CredentialError::Backend { reason }
    }
}

/// The body of a refusal as it is searched for an error code.
pub open spec fn body_text(body: Option<String>) -> Seq<char> {
    match body {
        Some(text) => text@,
        None => "<unreadable>"@,
    }
}

/// The fault that a reply amounts to, if it grants no token.
pub open spec fn fetch_fault(provider_name: Seq<char>, reply: EndpointReply) -> Option<
    CredentialFault,
> {
    match reply {
        EndpointReply::Unreachable { error } => Some(
            CredentialFault::Backend {
                reason: "OAuth token endpoint unreachable for `"@ + provider_name + "`: "@ + error@,
            },
        ),
        EndpointReply::Refused { status, body } => Some(
            refusal_kind(
                status as int,
                refusal_reason(
                    provider_name,
                    status_display(status),
                    shown_code(json_text_member(body_text(body), "error"@)),
                ),
            ),
        ),
        EndpointReply::Granted { response } => match response {
            Ok(granted) => None,
            Err(error) => Some(
                CredentialFault::Backend {
                    reason: "failed to parse token endpoint response for `"@ + provider_name
                        + "`: "@ + error@,
                },
            ),
        },
    }
}

/// What a fetched token, or the fault in its place, may be after `reply` came at `now`.
pub open spec fn fetched_from(
    provider_name: Seq<char>,
    provider: ProviderView,
    reply: EndpointReply,
    now: int,
    fetched: Result<TokenView, CredentialFault>,
) -> bool {
    match fetched {
        Err(fault) => fetch_fault(provider_name, reply) == Some(fault),
        Ok(token) => {
            &&& fetch_fault(provider_name, reply) is None
            &&& utc_timestamp(token.issued_at)
            &&& token == token_of(
                reply->response->Ok_0,
                provider.refresh_buffer_ms as int,
                now,
                token.issued_at,
            )
        },
    }
}

/// A result of a fetch, in mathematical terms.
pub open spec fn fetched_view(fetched: Result<CachedToken, CredentialError>) -> Result<
    TokenView,
    CredentialFault,
> {
    match fetched {
        Ok(token) => Ok(token@),
        Err(error) => Err(error@),
    }
}

/// What becomes of the reply of a token endpoint that came at `now`: a token,
/// stamped with the date and time, or the error that the reply amounts to.
pub fn fetch_token(
    provider_name: &str,
    provider: &ProviderConfig,
    reply: EndpointReply,
    now: u64,
) -> (fetched: Result<CachedToken, CredentialError>)
    requires
        reply.admissible(now as int),
    ensures
        fetched_from(provider_name@, provider@, reply, now as int, fetched_view(fetched)),
        reply matches EndpointReply::Refused { status, body } ==> fetched is Err && has_part(
            fetched->Err_0@.reason(),
            decimal(status as nat),
        ),
{
    match reply {
        EndpointReply::Unreachable { error } => Err(
            CredentialError::Backend {
                reason: "OAuth token endpoint unreachable for `".to_owned().concat(
                    provider_name,
                ).concat("`: ").concat(error.as_str()),
            },
        ),
        EndpointReply::Refused { status, body } => {
            let text = match body {
                Some(text) => text,
                None => "<unreadable>".to_owned(),
            };
            let code = read_json_text_member(text.as_str(), "error");
            let shown = status_text(status);
            let error = refusal_error(provider_name, status, shown.as_str(), code);
            proof {
                let phrase = choose|phrase: Seq<char>|
                    shown@ == #[trigger] (decimal(status as nat) + " "@ + phrase);
                let rest = error@.reason().skip(
                    ("token endpoint returned HTTP "@ + decimal(status as nat)).len() as int,
                );
                assert(error@.reason() =~= "token endpoint returned HTTP "@ + decimal(
                    status as nat,
                ) + rest);
            }
            Err(error)
        },
        EndpointReply::Granted { response } => match response {
            Ok(granted) => Ok(
                CachedToken::from_response(
                    granted,
                    provider.refresh_buffer_ms,
                    now,
                    now_rfc3339(),
                ),
            ),
            Err(error) => Err(
                CredentialError::Backend {
                    reason: "failed to parse token endpoint response for `".to_owned().concat(
                        provider_name,
                    ).concat("`: ").concat(error.as_str()),
                },
            ),
        },
    }
}

} // verus!
