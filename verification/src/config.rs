//! The configuration of the issuer: named providers and the rules they obey.

use vstd::prelude::*;
use vstd::string::*;

use crate::name_map::ascending;
use crate::name_map::in_name_order;
use crate::name_map::pairs_view;
use crate::name_map::NameMap;
use crate::text::blank;
use crate::text::decimal;
use crate::text::decimal_text;
use crate::text::has_prefix;
use crate::text::is_blank;
use crate::text::same_text;
use crate::text::starts_with;
use crate::text::texts;

verus! {

/// The shortest timeout of a token request, in milliseconds.
pub const MIN_TIMEOUT_MS: u64 = 100;

/// The longest timeout of a token request, in milliseconds.
pub const MAX_TIMEOUT_MS: u64 = 60_000;

/// The largest refresh buffer, in milliseconds.
pub const MAX_REFRESH_BUFFER_MS: u64 = 600_000;

/// A provider as a configuration document describes it. A field that may be
/// left out is `None` where it was.
#[derive(Debug, Clone, PartialEq)]
pub struct ProviderDocument {
    pub token_url: String,
    pub client_id: String,
    pub client_secret: String,
    pub scopes: Option<Vec<String>>,
    pub grant_type: Option<String>,
    pub refresh_buffer_ms: Option<u64>,
    pub timeout_ms: Option<u64>,
}

/// A configuration document: the providers under their names, in the order in
/// which the document lists them. Of two under one name the later counts.
#[derive(Debug, Clone, PartialEq)]
pub struct ConfigDocument {
    pub providers: Vec<(String, ProviderDocument)>,
}

/// A provider, in mathematical terms.
pub struct ProviderView {
    pub token_url: Seq<char>,
    pub client_id: Seq<char>,
    pub client_secret: Seq<char>,
    pub scopes: Seq<Seq<char>>,
    pub grant_type: Seq<char>,
    pub refresh_buffer_ms: nat,
    pub timeout_ms: nat,
}

/// One OAuth client-credentials provider.
#[derive(Debug, Clone, PartialEq)]
pub struct ProviderConfig {
    /// Token endpoint URL.
    pub token_url: String,
    /// OAuth client ID.
    pub client_id: String,
    /// OAuth client secret.
    pub client_secret: String,
    /// OAuth scopes to request, sent space-joined.
    pub scopes: Vec<String>,
    /// OAuth grant type; only `client_credentials` is supported.
    pub grant_type: String,
    /// Milliseconds before the expiry of a token at which it is due for a refresh.
    pub refresh_buffer_ms: u64,
    /// Timeout of a request to the token endpoint, in milliseconds.
    pub timeout_ms: u64,
}

impl View for ProviderConfig {
    type V = ProviderView;

    open spec fn view(&self) -> ProviderView {
        ProviderView {
            token_url: self.token_url@,
            client_id: self.client_id@,
            client_secret: self.client_secret@,
            scopes: texts(self.scopes@),
            grant_type: self.grant_type@,
            refresh_buffer_ms: self.refresh_buffer_ms as nat,
            timeout_ms: self.timeout_ms as nat,
        }
    }
}

/// The grant type of a provider that names none.
pub fn default_grant_type() -> (grant_type: String)
    ensures
        grant_type@ == "client_credentials"@,
{
    "client_credentials".to_owned()
}

/// The refresh buffer of a provider that names none: 60 seconds.
pub fn default_refresh_buffer_ms() -> (buffer: u64)
    ensures
        buffer == 60_000,
{
    60_000
}

/// The timeout of a provider that names none: 5 seconds.
pub fn default_timeout_ms() -> (timeout: u64)
    ensures
        timeout == 5_000,
{
    5_000
}

impl ProviderDocument {
    /// No field is left out.
    pub open spec fn spelled_out(self) -> bool {
        self.scopes is Some && self.grant_type is Some && self.refresh_buffer_ms is Some
            && self.timeout_ms is Some
    }

    /// The provider that the document describes: fields left out have their defaults.
    pub open spec fn described(self) -> ProviderView {
        ProviderView {
            token_url: self.token_url@,
            client_id: self.client_id@,
            client_secret: self.client_secret@,
            scopes: match self.scopes {
                Some(listed) => texts(listed@),
                None => Seq::empty(),
            },
            grant_type: match self.grant_type {
                Some(named) => named@,
                None => "client_credentials"@,
            },
            refresh_buffer_ms: match self.refresh_buffer_ms {
                Some(buffer) => buffer as nat,
                None => 60_000,
            },
            timeout_ms: match self.timeout_ms {
                Some(timeout) => timeout as nat,
                None => 5_000,
            },
        }
    }
}

impl ConfigDocument {
    /// The providers that the document describes, in its own order.
    pub open spec fn described(self) -> Seq<(Seq<char>, ProviderView)> {
        self.providers@.map_values(
            |entry: (String, ProviderDocument)| (entry.0@, entry.1.described()),
        )
    }
}

/// What is wrong with a configuration, in mathematical terms.
pub enum ConfigFault {
    InvalidJson { detail: Seq<char> },
    EmptyProviders,
    EmptyTokenUrl { name: Seq<char> },
    InvalidTokenUrlScheme { name: Seq<char> },
    EmptyClientId { name: Seq<char> },
    EmptyClientSecret { name: Seq<char> },
    UnsupportedGrantType { name: Seq<char>, grant_type: Seq<char> },
    InvalidTimeoutMs { name: Seq<char>, timeout: nat },
    InvalidRefreshBufferMs { name: Seq<char>, buffer: nat },
}

/// What is wrong with a configuration.
#[derive(Debug, Clone, PartialEq)]
pub enum ConfigError {
    /// The text is no JSON of a configuration document; the detail says why.
    InvalidJson(String),
    EmptyProviders,
    EmptyTokenUrl { name: String },
    InvalidTokenUrlScheme { name: String },
    EmptyClientId { name: String },
    EmptyClientSecret { name: String },
    UnsupportedGrantType { name: String, grant_type: String },
    InvalidTimeoutMs { name: String, timeout: u64 },
    InvalidRefreshBufferMs { name: String, buffer: u64 },
}

impl View for ConfigError {
    type V = ConfigFault;

    open spec fn view(&self) -> ConfigFault {
        match self {
            ConfigError::InvalidJson(detail) => ConfigFault::InvalidJson { detail: detail@ },
            ConfigError::EmptyProviders => ConfigFault::EmptyProviders,
            ConfigError::EmptyTokenUrl { name } => ConfigFault::EmptyTokenUrl { name: name@ },
            ConfigError::InvalidTokenUrlScheme { name } => ConfigFault::InvalidTokenUrlScheme {
                name: name@,
            },
            ConfigError::EmptyClientId { name } => ConfigFault::EmptyClientId { name: name@ },
            ConfigError::EmptyClientSecret { name } => ConfigFault::EmptyClientSecret {
                name: name@,
            },
            ConfigError::UnsupportedGrantType { name, grant_type } => {
                ConfigFault::UnsupportedGrantType { name: name@, grant_type: grant_type@ }
            },
            ConfigError::InvalidTimeoutMs { name, timeout } => ConfigFault::InvalidTimeoutMs {
                name: name@,
                timeout: *timeout as nat,
            },
            ConfigError::InvalidRefreshBufferMs { name, buffer } => {
                ConfigFault::InvalidRefreshBufferMs { name: name@, buffer: *buffer as nat }
            },
        }
    }
}

/// The first rule that the provider `name` breaks, if it breaks any.
pub open spec fn provider_fault(name: Seq<char>, provider: ProviderView) -> Option<ConfigFault> {
    if blank(provider.token_url) {
        Some(ConfigFault::EmptyTokenUrl { name })
    } else if !has_prefix(provider.token_url, "http://"@) && !has_prefix(
        provider.token_url,
        "https://"@,
    ) {
        Some(ConfigFault::InvalidTokenUrlScheme { name })
    } else if blank(provider.client_id) {
        Some(ConfigFault::EmptyClientId { name })
    } else if provider.client_secret.len() == 0 {
        Some(ConfigFault::EmptyClientSecret { name })
    } else if provider.grant_type != "client_credentials"@ {
        Some(ConfigFault::UnsupportedGrantType { name, grant_type: provider.grant_type })
    } else if !(MIN_TIMEOUT_MS <= provider.timeout_ms <= MAX_TIMEOUT_MS) {
        Some(ConfigFault::InvalidTimeoutMs { name, timeout: provider.timeout_ms })
    } else if provider.refresh_buffer_ms > MAX_REFRESH_BUFFER_MS {
        Some(ConfigFault::InvalidRefreshBufferMs { name, buffer: provider.refresh_buffer_ms })
    } else {
        None
    }
}

/// The fault of the first provider from `index` on that has one.
pub open spec fn first_fault(entries: Seq<(Seq<char>, ProviderView)>, index: int) -> Option<
    ConfigFault,
>
    decreases entries.len() - index,
{
    if index < 0 || index >= entries.len() {
        None
    } else {
        match provider_fault(entries[index].0, entries[index].1) {
            Some(fault) => Some(fault),
            None => first_fault(entries, index + 1),
        }
    }
}

/// What is wrong with providers listed in the order of their names, if anything.
pub open spec fn config_fault(entries: Seq<(Seq<char>, ProviderView)>) -> Option<ConfigFault> {
    if entries.len() == 0 {
        Some(ConfigFault::EmptyProviders)
    } else {
        first_fault(entries, 0)
    }
}

/// The providers that a decoded configuration sets up, in the order of their
/// names, or what is wrong with it.
pub open spec fn parsed(document: Result<ConfigDocument, String>) -> Result<
    Seq<(Seq<char>, ProviderView)>,
    ConfigFault,
> {
    match document {
        Err(detail) => Err(ConfigFault::InvalidJson { detail: detail@ }),
        Ok(decoded) => {
            let entries = in_name_order(decoded.described());
            match config_fault(entries) {
                Some(fault) => Err(fault),
                None => Ok(entries),
            }
        },
    }
}

/// The named providers of the issuer.
#[derive(Debug, Clone, PartialEq)]
pub struct OAuthConfig {
    /// The providers under their names.
    pub providers: NameMap<ProviderConfig>,
}

impl View for OAuthConfig {
    type V = Seq<(Seq<char>, ProviderView)>;

    open spec fn view(&self) -> Seq<(Seq<char>, ProviderView)> {
        self.providers@
    }
}

fn provider_from(document: ProviderDocument) -> (provider: ProviderConfig)
    ensures
        provider@ == document.described(),
{
    let scopes: Vec<String> = match document.scopes {
        Some(listed) => listed,
        None => Vec::new(),
    };
    let grant_type = match document.grant_type {
        Some(named) => named,
        None => default_grant_type(),
    };
    let refresh_buffer_ms: u64 = match document.refresh_buffer_ms {
        Some(buffer) => buffer,
        None => default_refresh_buffer_ms(),
    };
    let timeout_ms: u64 = match document.timeout_ms {
        Some(timeout) => timeout,
        None => default_timeout_ms(),
    };
    assert(document.scopes is None ==> texts(scopes@) =~= Seq::<Seq<char>>::empty());
    ProviderConfig {
        token_url: document.token_url,
        client_id: document.client_id,
        client_secret: document.client_secret,
        scopes,
        grant_type,
        refresh_buffer_ms,
        timeout_ms,
    }
}

fn config_from(document: ConfigDocument) -> (config: OAuthConfig)
    ensures
        config@ == in_name_order(document.described()),
{
    let ghost listed = document.providers@;
    let mut left = document.providers;
    let mut pairs: Vec<(String, ProviderConfig)> = Vec::new();
    while left.len() > 0
        invariant
            pairs@.len() + left@.len() == listed.len(),
            left@ == listed.skip(pairs@.len() as int),
            forall|i: int|
                0 <= i < pairs@.len() ==> (#[trigger] pairs@[i]).0@ == listed[i].0@ && pairs@[i].1@
                    == listed[i].1.described(),
        decreases left@.len(),
    {
        let (name, described) = left.remove(0);
        pairs.push((name, provider_from(described)));
        assert(left@ == listed.skip(pairs@.len() as int));
    }
    assert(pairs_view(pairs@) =~= document.described());
    OAuthConfig { providers: NameMap::from_pairs(pairs) }
}

fn provider_document(provider: &ProviderConfig) -> (document: ProviderDocument)
    ensures
        document.described() == provider@,
        document.spelled_out(),
{
    let mut scopes: Vec<String> = Vec::new();
    let mut i: usize = 0;
    while i < provider.scopes.len()
        invariant
            i <= provider.scopes@.len(),
            scopes@ == provider.scopes@.take(i as int),
        decreases provider.scopes@.len() - i,
    {
        scopes.push(provider.scopes[i].clone());
        i = i + 1;
        assert(scopes@ =~= provider.scopes@.take(i as int));
    }
    assert(provider.scopes@.take(i as int) =~= provider.scopes@);
    ProviderDocument {
        token_url: provider.token_url.clone(),
        client_id: provider.client_id.clone(),
        client_secret: provider.client_secret.clone(),
        scopes: Some(scopes),
        grant_type: Some(provider.grant_type.clone()),
        refresh_buffer_ms: Some(provider.refresh_buffer_ms),
        timeout_ms: Some(provider.timeout_ms),
    }
}

fn check_provider(name: &String, provider: &ProviderConfig) -> (checked: Result<(), ConfigError>)
    ensures
        match checked {
            Ok(()) => provider_fault(name@, provider@) is None,
            Err(error) => provider_fault(name@, provider@) == Some(error@),
        },
{
    if is_blank(provider.token_url.as_str()) {
        return Err(ConfigError::EmptyTokenUrl { name: name.clone() });
    }
    if !starts_with(provider.token_url.as_str(), "http://") && !starts_with(
        provider.token_url.as_str(),
        "https://",
    ) {
        return Err(ConfigError::InvalidTokenUrlScheme { name: name.clone() });
    }
    if is_blank(provider.client_id.as_str()) {
        return Err(ConfigError::EmptyClientId { name: name.clone() });
    }
    if provider.client_secret.as_str().is_empty() {
        return Err(ConfigError::EmptyClientSecret { name: name.clone() });
    }
    if !same_text(provider.grant_type.as_str(), "client_credentials") {
        return Err(
            ConfigError::UnsupportedGrantType {
                name: name.clone(),
                grant_type: provider.grant_type.clone(),
            },
        );
    }
    if provider.timeout_ms < MIN_TIMEOUT_MS || provider.timeout_ms > MAX_TIMEOUT_MS {
        return Err(
            ConfigError::InvalidTimeoutMs { name: name.clone(), timeout: provider.timeout_ms },
        );
    }
    if provider.refresh_buffer_ms > MAX_REFRESH_BUFFER_MS {
        return Err(
            ConfigError::InvalidRefreshBufferMs {
                name: name.clone(),
                buffer: provider.refresh_buffer_ms,
            },
        );
    }
    Ok(())
}

impl OAuthConfig {
    /// The configuration that a document sets up. `document` is what reading
    /// the text of the document as JSON has given: the document, or the reason
    /// why the text is none.
    pub fn parse(document: Result<ConfigDocument, String>) -> (config: Result<Self, ConfigError>)
        ensures
            match config {
                Ok(set_up) => parsed(document) == Ok::<Seq<(Seq<char>, ProviderView)>, ConfigFault>(
                    set_up@,
                ),
                Err(error) => parsed(document) == Err::<
                    Seq<(Seq<char>, ProviderView)>,
                    ConfigFault,
                >(error@),
            },
    {
        let decoded = match document {
            Ok(decoded) => decoded,
            Err(detail) => return Err(ConfigError::InvalidJson(detail)),
        };
        let config = config_from(decoded);
        match config.validate() {
            Ok(()) => Ok(config),
            Err(error) => Err(error),
        }
    }

    /// The document that describes the configuration, with nothing left out.
    pub fn document(&self) -> (document: ConfigDocument)
        ensures
            document.described() == self@,
            forall|i: int|
                0 <= i < document.providers@.len() ==> (#[trigger] document.providers@[i]).1
                    .spelled_out(),
            ascending(self@),
    {
        let len = self.providers.len();
        let mut providers: Vec<(String, ProviderDocument)> = Vec::new();
        let mut i: usize = 0;
        while i < len
            invariant
                len == self@.len(),
                i <= len,
                providers@.len() == i,
                forall|j: int|
                    0 <= j < i ==> (#[trigger] providers@[j]).0@ == self@[j].0
                        && providers@[j].1.described() == self@[j].1
                        && providers@[j].1.spelled_out(),
            decreases len - i,
        {
            providers.push(
                (
                    self.providers.name_at(i).clone(),
                    provider_document(self.providers.value_at(i)),
                ),
            );
            i = i + 1;
        }
        let document = ConfigDocument { providers };
        assert(document.described() =~= self@);
        document
    }

    /// Whether there is a provider and every provider obeys the rules. The
    /// error is that of the first provider, in the order of the names, that
    /// breaks one.
    pub fn validate(&self) -> (checked: Result<(), ConfigError>)
        ensures
            match checked {
                Ok(()) => config_fault(self@) is None,
                Err(error) => config_fault(self@) == Some(error@),
            },
    {
        if self.providers.len() == 0 {
            return Err(ConfigError::EmptyProviders);
        }
        let mut i: usize = 0;
        while i < self.providers.len()
            invariant
                i <= self@.len(),
                first_fault(self@, 0) == first_fault(self@, i as int),
            decreases self@.len() - i,
        {
            match check_provider(self.providers.name_at(i), self.providers.value_at(i)) {
                Ok(()) => {},
                Err(error) => return Err(error),
            }
            i = i + 1;
        }
        Ok(())
    }
}

/// The words that report a fault.
pub open spec fn fault_message(fault: ConfigFault) -> Seq<char> {
    match fault {
        ConfigFault::InvalidJson { detail } => {
            "invalid credential.oauth-client-credentials config JSON: "@ + detail
        },
        ConfigFault::EmptyProviders => {
            "credential.oauth-client-credentials: providers must be non-empty"@
        },
        ConfigFault::EmptyTokenUrl { name } => {
            "credential.oauth-client-credentials: provider `"@ + name + "` token_url is empty"@
        },
        ConfigFault::InvalidTokenUrlScheme { name } => {
            "credential.oauth-client-credentials: provider `"@ + name
                + "` token_url must start with http:// or https://"@
        },
        ConfigFault::EmptyClientId { name } => {
            "credential.oauth-client-credentials: provider `"@ + name + "` client_id is empty"@
        },
        ConfigFault::EmptyClientSecret { name } => {
            "credential.oauth-client-credentials: provider `"@ + name + "` client_secret is empty"@
        },
        ConfigFault::UnsupportedGrantType { name, grant_type } => {
            "credential.oauth-client-credentials: provider `"@ + name + "` grant_type=`"@
                + grant_type + "` not supported (only `client_credentials` in v0.1)"@
        },
        ConfigFault::InvalidTimeoutMs { name, timeout } => {
            "credential.oauth-client-credentials: provider `"@ + name + "` timeout_ms="@ + decimal(
                timeout,
            ) + "; must be 100..=60_000"@
        },
        ConfigFault::InvalidRefreshBufferMs { name, buffer } => {
            "credential.oauth-client-credentials: provider `"@ + name + "` refresh_buffer_ms="@
                + decimal(buffer) + "; must be 0..=600_000"@
        },
    }
}

impl ConfigError {
    /// The words that report the error.
    pub fn message(&self) -> (message: String)
        ensures
            message@ == fault_message(self@),
    {
        match self {
            ConfigError::InvalidJson(detail) => {
                "invalid credential.oauth-client-credentials config JSON: ".to_owned().concat(
                    detail.as_str(),
                )
            },
            ConfigError::EmptyProviders => {
                "credential.oauth-client-credentials: providers must be non-empty".to_owned()
            },
            ConfigError::EmptyTokenUrl { name } => about_provider(name).concat(
                "` token_url is empty",
            ),
            ConfigError::InvalidTokenUrlScheme { name } => about_provider(name).concat(
                "` token_url must start with http:// or https://",
            ),
            ConfigError::EmptyClientId { name } => about_provider(name).concat(
                "` client_id is empty",
            ),
            ConfigError::EmptyClientSecret { name } => about_provider(name).concat(
                "` client_secret is empty",
            ),
            ConfigError::UnsupportedGrantType { name, grant_type } => about_provider(name).concat(
                "` grant_type=`",
            ).concat(grant_type.as_str()).concat(
                "` not supported (only `client_credentials` in v0.1)",
            ),
            ConfigError::InvalidTimeoutMs { name, timeout } => about_provider(name).concat(
                "` timeout_ms=",
            ).concat(decimal_text(*timeout).as_str()).concat("; must be 100..=60_000"),
            ConfigError::InvalidRefreshBufferMs { name, buffer } => about_provider(name).concat(
                "` refresh_buffer_ms=",
            ).concat(decimal_text(*buffer).as_str()).concat("; must be 0..=600_000"),
        }
    }
}

fn about_provider(name: &String) -> (words: String)
    ensures
        words@ == "credential.oauth-client-credentials: provider `"@ + name@,
{
    "credential.oauth-client-credentials: provider `".to_owned().concat(name.as_str())
}

} // verus!
