//! The issuer: its manifest, its token cache, and the steps by which a request
//! for a credential is answered.

use dashmap::DashMap;
use vstd::prelude::*;
use vstd::string::*;

use crate::config::fault_message;
use crate::config::parsed;
use crate::config::ConfigDocument;
use crate::config::ConfigFault;
use crate::config::OAuthConfig;
use crate::config::ProviderView;
use crate::endpoint::fetch_token;
use crate::endpoint::fetched_from;
use crate::endpoint::fetched_view;
use crate::endpoint::request_for;
use crate::endpoint::token_request;
use crate::endpoint::CredentialError;
use crate::endpoint::CredentialFault;
use crate::endpoint::EndpointReply;
use crate::endpoint::RequestView;
use crate::endpoint::TokenRequest;
use crate::foreign::new_token_map;
use crate::foreign::no_tokens;
use crate::foreign::put_token;
use crate::foreign::token_under;
use crate::foreign::tokens_in;
use crate::name_map::by_name;
use crate::text::first_segment;
use crate::text::root_segment;
use crate::token::cached_to_issued;
use crate::token::CachedToken;
use crate::token::IssuedCredential;
use crate::token::IssuedView;
use crate::token::TokenView;

verus! {

/// The id under which the gateway knows the issuer.
pub const PLUGIN_ID: &'static str = "dev.mcpg.credential.oauth-client-credentials";

/// What a plugin does for the gateway.
#[derive(Debug, Clone, Copy, PartialEq, Eq, Structural)]
pub enum PluginClass {
    CredentialIssuer,
}

/// How a plugin presents itself to the gateway.
#[derive(Debug, Clone, PartialEq)]
pub struct PluginManifest {
    pub id: String,
    pub version: String,
    pub name: String,
    pub plugin_class: PluginClass,
    pub protocol_version: String,
    pub license: Option<String>,
    pub required_capabilities: Vec<String>,
    pub tags: Vec<String>,
    pub provides: Vec<String>,
    pub provides_schemes: Vec<String>,
    pub module_path_prefix: String,
    pub backend_profile: Option<String>,
}

impl PluginManifest {
    /// This is the manifest of the issuer in `version`, built from the module `built_from`.
    pub open spec fn presents(self, version: Seq<char>, built_from: Seq<char>) -> bool {
        &&& self.id@ == PLUGIN_ID@
        &&& self.version@ == version
        &&& self.name@ == "OAuth 2.0 Client Credentials Issuer"@
        &&& self.plugin_class == PluginClass::CredentialIssuer
        &&& self.protocol_version@ == "1.0"@
        &&& self.license is None
        &&& self.required_capabilities@.len() == 0
        &&& self.tags@.len() == 0
        &&& self.provides@.len() == 0
        &&& self.provides_schemes@.len() == 0
        &&& root_segment(built_from, self.module_path_prefix@)
        &&& self.backend_profile is None
    }
}

/// The counters that tell how requests were answered.
#[derive(Debug, Clone, Copy, PartialEq, Eq, Structural)]
pub enum Counter {
    /// A request was served from the token cache.
    CacheHit,
    /// A token was fetched.
    Refresh,
    /// A fetch failed, whether or not an older token stood in.
    RefreshError,
}

impl Counter {
    /// The name under which the counter is reported.
    pub open spec fn reported_as(self) -> Seq<char> {
        match self {
            Counter::CacheHit => "mcpg_oauth_token_cache_hit_total"@,
            Counter::Refresh => "mcpg_oauth_token_refresh_total"@,
            Counter::RefreshError => "mcpg_oauth_token_refresh_error_total"@,
        }
    }

    /// The name under which the counter is reported.
    pub fn name(&self) -> (name: &'static str)
        ensures
            name@ == self.reported_as(),
    {
        match self {
            Counter::CacheHit => "mcpg_oauth_token_cache_hit_total",
            Counter::Refresh => "mcpg_oauth_token_refresh_total",
            Counter::RefreshError => "mcpg_oauth_token_refresh_error_total",
        }
    }
}

/// How a request was answered, in mathematical terms.
pub struct OutcomeView {
    pub result: Result<IssuedView, CredentialFault>,
    pub counter: Option<Counter>,
    pub masked: Option<CredentialFault>,
}

/// How a request was answered.
#[derive(Debug, PartialEq)]
pub struct IssueOutcome {
    /// The credential, or why there is none.
    pub result: Result<IssuedCredential, CredentialError>,
    /// The counter to be increased.
    pub counter: Option<Counter>,
    /// The failure of a refresh for which an older token stood in.
    pub masked: Option<CredentialError>,
}

impl View for IssueOutcome {
    type V = OutcomeView;

    open spec fn view(&self) -> OutcomeView {
        OutcomeView {
            result: match self.result {
                Ok(issued) => Ok(issued@),
                Err(error) => Err(error@),
            },
            counter: self.counter,
            masked: match self.masked {
                Some(error) => Some(error@),
                None => None,
            },
        }
    }
}

/// What has happened to a request.
#[derive(Debug, PartialEq)]
pub enum IssueEvent {
    /// It came in.
    Requested,
    /// The refresh guard of its provider is held for it.
    GuardAcquired,
    /// Its token request was answered, or failed. The guard is still held.
    FetchCompleted(EndpointReply),
}

impl IssueEvent {
    /// A reply that the event brings is one that can have come at `now`.
    pub open spec fn admissible(self, now: int) -> bool {
        match self {
            IssueEvent::Requested => true,
            IssueEvent::GuardAcquired => true,
            IssueEvent::FetchCompleted(reply) => reply.admissible(now),
        }
    }
}

/// What is to be done for a request next, in mathematical terms.
pub enum ActionView {
    Finish(OutcomeView),
    AcquireGuard,
    Fetch(RequestView),
}

/// What is to be done for a request next.
#[derive(Debug, PartialEq)]
pub enum IssueAction {
    /// Answer it.
    Finish(IssueOutcome),
    /// Wait for the refresh guard of its provider.
    AcquireGuard,
    /// Send this to the token endpoint, the guard held.
    Fetch(TokenRequest),
}

impl View for IssueAction {
    type V = ActionView;

    open spec fn view(&self) -> ActionView {
        match self {
            IssueAction::Finish(outcome) => ActionView::Finish(outcome@),
            IssueAction::AcquireGuard => ActionView::AcquireGuard,
            IssueAction::Fetch(request) => ActionView::Fetch(request@),
        }
    }
}

/// The answer to a request for a provider that is not configured.
pub open spec fn unknown_provider(name: Seq<char>) -> OutcomeView {
    OutcomeView {
        result: Err(
            CredentialFault::Misconfigured { reason: "unknown provider `"@ + name + "`"@ },
        ),
        counter: None,
        masked: None,
    }
}

/// The answer that the cache gives with `token` at `now`.
pub open spec fn cache_hit(token: TokenView, now: int) -> OutcomeView {
    OutcomeView {
        result: Ok(token.issued(now)),
        counter: Some(Counter::CacheHit),
        masked: None,
    }
}

/// The cache holds a token for `name` that may be served at `now`.
pub open spec fn has_fresh(tokens: Map<Seq<char>, TokenView>, name: Seq<char>, now: int) -> bool {
    tokens.contains_key(name) && tokens[name].fresh_at(now)
}

/// The cache holds a token for `name` that may stand in at `now`.
pub open spec fn has_fallback(
    tokens: Map<Seq<char>, TokenView>,
    name: Seq<char>,
    now: int,
) -> bool {
    tokens.contains_key(name) && tokens[name].in_grace_at(now)
}

/// What is done for a request that need not, or need not yet, be fetched for:
/// it is answered where that can be done at once, and `otherwise` is done else.
pub open spec fn answered_or(
    plugin: PluginView,
    name: Seq<char>,
    now: int,
    otherwise: ActionView,
) -> ActionView {
    if !by_name(plugin.providers).contains_key(name) {
        ActionView::Finish(unknown_provider(name))
    } else if has_fresh(plugin.tokens, name, now) {
        ActionView::Finish(cache_hit(plugin.tokens[name], now))
    } else {
        otherwise
    }
}

/// The cache after a fetch for `name`: a fetched token is kept, a failure changes nothing.
pub open spec fn tokens_after(
    tokens: Map<Seq<char>, TokenView>,
    name: Seq<char>,
    fetched: Result<TokenView, CredentialFault>,
) -> Map<Seq<char>, TokenView> {
    match fetched {
        Ok(token) => tokens.insert(name, token),
        Err(fault) => tokens,
    }
}

/// The issuer after a fetch for `name`.
pub open spec fn after_fetch(
    plugin: PluginView,
    name: Seq<char>,
    fetched: Result<TokenView, CredentialFault>,
) -> PluginView {
    PluginView { tokens: tokens_after(plugin.tokens, name, fetched), ..plugin }
}

/// The answer after a fetch for `name`. Where it failed, an older token stands
/// in as long as its grace lasts.
pub open spec fn outcome_of(
    tokens: Map<Seq<char>, TokenView>,
    name: Seq<char>,
    fetched: Result<TokenView, CredentialFault>,
    now: int,
) -> OutcomeView {
    match fetched {
        Ok(token) => OutcomeView {
            result: Ok(token.issued(now)),
            counter: Some(Counter::Refresh),
            masked: None,
        },
        Err(fault) => if has_fallback(tokens, name, now) {
            OutcomeView {
                result: Ok(tokens[name].issued(now)),
                counter: Some(Counter::RefreshError),
                masked: Some(fault),
            }
        } else {
            OutcomeView {
                result: Err(fault),
                counter: Some(Counter::RefreshError),
                masked: None,
            }
        },
    }
}

/// The issuer, in mathematical terms.
pub struct PluginView {
    pub manifest: PluginManifest,
    /// The configured providers, in the order of their names.
    pub providers: Seq<(Seq<char>, ProviderView)>,
    /// The cached tokens by the names of their providers.
    pub tokens: Map<Seq<char>, TokenView>,
}

/// Only configured providers have tokens, and no token is due for a refresh
/// later than it expires.
pub open spec fn in_order(plugin: PluginView) -> bool {
    forall|name: Seq<char>| #[trigger]
        plugin.tokens.contains_key(name) ==> by_name(plugin.providers).contains_key(name)
            && plugin.tokens[name].refresh_at <= plugin.tokens[name].expires_at
}

/// What happens in one step of a request for `name`, to which `event` has
/// happened at `now`: the issuer `before` becomes `after`, and `action` is to
/// be done next.
pub open spec fn issue_step(
    before: PluginView,
    name: Seq<char>,
    event: IssueEvent,
    now: int,
    after: PluginView,
    action: ActionView,
) -> bool {
    match event {
        IssueEvent::Requested => {
            &&& after == before
            &&& action == answered_or(before, name, now, ActionView::AcquireGuard)
        },
        IssueEvent::GuardAcquired => {
            &&& after == before
            &&& action == answered_or(
                before,
                name,
                now,
                ActionView::Fetch(request_for(by_name(before.providers)[name])),
            )
        },
        IssueEvent::FetchCompleted(reply) => {
            if by_name(before.providers).contains_key(name) {
                exists|fetched: Result<TokenView, CredentialFault>|
                    {
                        &&& #[trigger] fetched_from(
                            name,
                            by_name(before.providers)[name],
                            reply,
                            now,
                            fetched,
                        )
                        &&& after == after_fetch(before, name, fetched)
                        &&& action == ActionView::Finish(
                            outcome_of(before.tokens, name, fetched, now),
                        )
                    }
            } else {
                &&& after == before
                &&& action == ActionView::Finish(unknown_provider(name))
            }
        },
    }
}

/// The issuer of credentials. Requests of all callers share its token cache.
pub struct OAuthClientCredentialsPlugin {
    manifest: PluginManifest,
    config: OAuthConfig,
    tokens: DashMap<String, CachedToken>,
}

impl View for OAuthClientCredentialsPlugin {
    type V = PluginView;

    closed spec fn view(&self) -> PluginView {
        PluginView {
            manifest: self.manifest,
            providers: self.config@,
            tokens: tokens_in(self.tokens),
        }
    }
}

/// The words with which a plugin refuses to load a faulty configuration.
pub open spec fn refusal_to_load(fault: ConfigFault) -> Seq<char> {
    "oauth-client-credentials config parse failed: "@ + fault_message(fault)
        + ". A misconfigured credential issuer is a security hole; refusing to load."@
}

impl OAuthClientCredentialsPlugin {
    /// The issuer of a configuration document, which is given as it is to
    /// `OAuthConfig::parse`. Where the configuration is faulty there is no
    /// issuer, only the words with which loading it has to be aborted.
    pub fn from_config_json(
        document: Result<ConfigDocument, String>,
        version: &str,
        built_from: &str,
    ) -> (loaded: Result<Self, String>)
        ensures
            match loaded {
                Ok(plugin) => {
                    &&& parsed(document) is Ok
                    &&& parsed(document)->Ok_0 == plugin@.providers
                    &&& plugin@.tokens == no_tokens()
                    &&& in_order(plugin@)
                    &&& plugin@.manifest.presents(version@, built_from@)
                },
                Err(words) => {
                    &&& parsed(document) is Err
                    &&& words@ == refusal_to_load(parsed(document)->Err_0)
                },
            },
    {
        match OAuthConfig::parse(document) {
            Ok(config) => Ok(Self::from_validated_config(config, version, built_from)),
            Err(error) => Err(
                "oauth-client-credentials config parse failed: ".to_owned().concat(
                    error.message().as_str(),
                ).concat(
                    ". A misconfigured credential issuer is a security hole; refusing to load.",
                ),
            ),
        }
    }

    /// The issuer of `config`, with nothing cached yet.
    pub fn from_validated_config(config: OAuthConfig, version: &str, built_from: &str) -> (plugin:
        Self)
        ensures
            plugin@.providers == config@,
            plugin@.tokens == no_tokens(),
            plugin@.manifest.presents(version@, built_from@),
            in_order(plugin@),
    {
        let manifest = PluginManifest {
            id: PLUGIN_ID.to_owned(),
            version: version.to_owned(),
            name: "OAuth 2.0 Client Credentials Issuer".to_owned(),
            plugin_class: PluginClass::CredentialIssuer,
            protocol_version: "1.0".to_owned(),
            license: None,
            required_capabilities: Vec::new(),
            tags: Vec::new(),
            provides: Vec::new(),
            provides_schemes: Vec::new(),
            module_path_prefix: first_segment(built_from),
            backend_profile: None,
        };
        OAuthClientCredentialsPlugin { manifest, config, tokens: new_token_map() }
    }

    /// How the issuer presents itself.
    pub fn manifest(&self) -> (manifest: &PluginManifest)
        ensures
            *manifest == self@.manifest,
    {
        &self.manifest
    }

    /// The configuration of the issuer.
    pub fn config(&self) -> (config: &OAuthConfig)
        ensures
            config@ == self@.providers,
    {
        &self.config
    }

    /// The next step of a request for the provider `provider_name`, to which
    /// `event` has happened at `now`.
    pub fn issue_inner(&mut self, provider_name: &str, event: IssueEvent, now: u64) -> (action:
        IssueAction)
        requires
            event.admissible(now as int),
        ensures
            issue_step(
                old(self)@,
                provider_name@,
                event,
                now as int,
                final(self)@,
                action@,
            ),
            in_order(old(self)@) ==> in_order(final(self)@),
    {
        let provider = match self.config.providers.get(provider_name) {
            Some(provider) => provider,
            None => {
                return IssueAction::Finish(
                    IssueOutcome {
                        result: Err(
                            CredentialError::Misconfigured {
                                reason: "unknown provider `".to_owned().concat(
                                    provider_name,
                                ).concat("`"),
                            },
                        ),
                        counter: None,
                        masked: None,
                    },
                );
            },
        };
        match event {
            IssueEvent::Requested => match self.served_from_cache(provider_name, now) {
                Some(outcome) => IssueAction::Finish(outcome),
                None => IssueAction::AcquireGuard,
            },
            IssueEvent::GuardAcquired => match self.served_from_cache(provider_name, now) {
                Some(outcome) => IssueAction::Finish(outcome),
                None => IssueAction::Fetch(token_request(provider)),
            },
            IssueEvent::FetchCompleted(reply) => {
                let fetched = fetch_token(provider_name, provider, reply, now);
                IssueAction::Finish(self.settle_refresh(provider_name, fetched, now))
            },
        }
    }

    /// The answer out of the cache, where it holds a token that is not yet due
    /// for a refresh.
    fn served_from_cache(&self, provider_name: &str, now: u64) -> (outcome: Option<IssueOutcome>)
        ensures
            match outcome {
                Some(hit) => has_fresh(self@.tokens, provider_name@, now as int) && hit@
                    == cache_hit(self@.tokens[provider_name@], now as int),
                None => !has_fresh(self@.tokens, provider_name@, now as int),
            },
    {
        match token_under(&self.tokens, provider_name) {
            Some(cached) => if cached.is_valid_now(now) {
                Some(
                    IssueOutcome {
                        result: Ok(cached_to_issued(&cached, now)),
                        counter: Some(Counter::CacheHit),
                        masked: None,
                    },
                )
            } else {
                None
            },
            None => None,
        }
    }

    /// Takes in what a fetch for the configured provider `provider_name` gave at `now`: a token is kept
    /// and answered with; a failure leaves the cache as it is, and is answered
    /// with the cached token while its grace lasts, and with the error after that.
    pub fn settle_refresh(
        &mut self,
        provider_name: &str,
        fetched: Result<CachedToken, CredentialError>,
        now: u64,
    ) -> (outcome: IssueOutcome)
        requires
            by_name(old(self)@.providers).contains_key(provider_name@),
        ensures
            in_order(old(self)@) ==> in_order(final(self)@),
            final(self)@ == after_fetch(old(self)@, provider_name@, fetched_view(fetched)),
            outcome@ == outcome_of(
                old(self)@.tokens,
                provider_name@,
                fetched_view(fetched),
                now as int,
            ),
    {
        match fetched {
            Ok(fresh) => {
                let issued = cached_to_issued(&fresh, now);
                put_token(&mut self.tokens, provider_name.to_owned(), fresh);
                IssueOutcome { result: Ok(issued), counter: Some(Counter::Refresh), masked: None }
            },
            Err(refresh_error) => {
                if let Some(cached) = token_under(&self.tokens, provider_name) {
                    if cached.within_grace_now(now) {
                        return IssueOutcome {
                            result: Ok(cached_to_issued(&cached, now)),
                            counter: Some(Counter::RefreshError),
                            masked: Some(refresh_error),
                        };
                    }
                }
                IssueOutcome {
                    result: Err(refresh_error),
                    counter: Some(Counter::RefreshError),
                    masked: None,
                }
            },
        }
    }
}

} // verus!
