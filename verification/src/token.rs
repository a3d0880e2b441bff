//! Access tokens, how long they serve, and the credentials made of them.
//!
//! A moment is a count of nanoseconds on a clock that never runs backwards,
//! from a start of the clock's own choosing.

use vstd::prelude::*;
use vstd::string::*;

use crate::name_map::by_name;
use crate::name_map::pairs_view;
use crate::name_map::NameMap;

verus! {

pub const NANOS_PER_SECOND: i128 = 1_000_000_000;

pub const NANOS_PER_MILLISECOND: i128 = 1_000_000;

/// How long past its expiry, in nanoseconds, a token may stand in when a
/// refresh fails: five minutes.
pub const STALE_GRACE: i128 = 300_000_000_000;

/// The lifetime, in seconds, of a token whose reply names none: one hour.
pub const DEFAULT_EXPIRES_IN: u64 = 3600;

/// The last moment that the clock can express: seconds are counted in 63 bits.
pub const LAST_MOMENT: i128 = 9_223_372_036_854_775_807_999_999_999;

/// What a token endpoint answers to a granted request.
#[derive(Debug, Clone, PartialEq)]
pub struct TokenResponse {
    pub access_token: String,
    /// `None` where the reply does not name the type.
    pub token_type: Option<String>,
    /// Lifetime in seconds; `None` where the reply does not name it.
    pub expires_in: Option<u64>,
}

impl TokenResponse {
    /// The type of the token, `Bearer` where the reply names none.
    pub open spec fn kind(self) -> Seq<char> {
        match self.token_type {
            Some(named) => named@,
            None => "Bearer"@,
        }
    }

    /// The lifetime of the token in seconds.
    pub open spec fn lifetime(self) -> int {
        match self.expires_in {
            Some(seconds) => seconds as int,
            None => DEFAULT_EXPIRES_IN as int,
        }
    }

    /// The clock can express the expiry of the token, counted from `now`.
    pub open spec fn expiry_fits(self, now: int) -> bool {
        now + self.lifetime() * NANOS_PER_SECOND <= LAST_MOMENT
    }

    /// Whether the clock can express the expiry of the token, counted from `now`.
    pub fn fits_clock(&self, now: u64) -> (fits: bool)
        ensures
            fits == self.expiry_fits(now as int),
    {
        let seconds: u64 = match self.expires_in {
            Some(seconds) => seconds,
            None => DEFAULT_EXPIRES_IN,
        };
        now as i128 + seconds as i128 * NANOS_PER_SECOND <= LAST_MOMENT
    }
}

/// The type of a token whose reply names none.
pub fn default_token_type() -> (kind: String)
    ensures
        kind@ == "Bearer"@,
{
    "Bearer".to_owned()
}

/// A cached token, in mathematical terms.
pub struct TokenView {
    pub access_token: Seq<char>,
    pub token_type: Seq<char>,
    pub expires_at: int,
    pub refresh_at: int,
    pub issued_at: Seq<char>,
}

impl TokenView {
    /// The token may be served from the cache at `now`.
    pub open spec fn fresh_at(self, now: int) -> bool {
        now < self.refresh_at
    }

    /// The token may stand in at `now` for one that could not be fetched.
    pub open spec fn in_grace_at(self, now: int) -> bool {
        now < self.expires_at + STALE_GRACE
    }

    /// Whole seconds from `now` until the token is due for a refresh.
    pub open spec fn ttl_seconds(self, now: int) -> int {
        if now < self.refresh_at {
            (self.refresh_at - now) / (NANOS_PER_SECOND as int)
        } else {
            0
        }
    }

    /// The credential that is handed out for the token at `now`.
    pub open spec fn issued(self, now: int) -> IssuedView {
        IssuedView {
            value: Some(self.access_token),
            parts: map!["access_token"@ => self.access_token, "token_type"@ => self.token_type],
            ttl_seconds: self.ttl_seconds(now),
            lease_id: None,
            issued_at: self.issued_at,
            metadata: map!["oauth.token_type"@ => self.token_type],
        }
    }
}

/// The token of a reply received at `now`: it expires at the end of its
/// lifetime and is due for a refresh `refresh_buffer_ms` before that.
pub open spec fn token_of(
    response: TokenResponse,
    refresh_buffer_ms: int,
    now: int,
    issued_at: Seq<char>,
) -> TokenView {
    let expires_at = now + response.lifetime() * NANOS_PER_SECOND;
    TokenView {
        access_token: response.access_token@,
        token_type: response.kind(),
        expires_at,
        refresh_at: expires_at - refresh_buffer_ms * NANOS_PER_MILLISECOND,
        issued_at,
    }
}

/// A token as the cache keeps it.
#[derive(Debug)]
pub struct CachedToken {
    access_token: String,
    token_type: String,
    expires_at: i128,
    /// `expires_at` less the refresh buffer: the effective expiry.
    refresh_at: i128,
    /// When the token was issued, for correlation in an audit ledger.
    issued_at_rfc3339: String,
}

impl View for CachedToken {
    type V = TokenView;

    closed spec fn view(&self) -> TokenView {
        TokenView {
            access_token: self.access_token@,
            token_type: self.token_type@,
            expires_at: self.expires_at as int,
            refresh_at: self.refresh_at as int,
            issued_at: self.issued_at_rfc3339@,
        }
    }
}

impl Clone for CachedToken {
    fn clone(&self) -> (copy: Self)
        ensures
            copy@ == self@,
    {
        proof {
            use_type_invariant(self);
        }
        CachedToken {
            access_token: self.access_token.clone(),
            token_type: self.token_type.clone(),
            expires_at: self.expires_at,
            refresh_at: self.refresh_at,
            issued_at_rfc3339: self.issued_at_rfc3339.clone(),
        }
    }
}

impl CachedToken {
    #[verifier::type_invariant]
    spec fn on_clock(self) -> bool {
        self.refresh_at <= self.expires_at <= LAST_MOMENT
    }

    /// The token of a reply received at `now`.
    pub fn from_response(
        response: TokenResponse,
        refresh_buffer_ms: u64,
        now: u64,
        issued_at: String,
    ) -> (token: Self)
        requires
            response.expiry_fits(now as int),
        ensures
            token@ == token_of(response, refresh_buffer_ms as int, now as int, issued_at@),
    {
        let expires_in: u64 = match response.expires_in {
            Some(seconds) => seconds,
            None => DEFAULT_EXPIRES_IN,
        };
        let token_type = match response.token_type {
            Some(named) => named,
            None => default_token_type(),
        };
        let expires_at: i128 = now as i128 + expires_in as i128 * NANOS_PER_SECOND;
        let refresh_at: i128 = expires_at - refresh_buffer_ms as i128 * NANOS_PER_MILLISECOND;
        CachedToken {
            access_token: response.access_token,
            token_type,
            expires_at,
            refresh_at,
            issued_at_rfc3339: issued_at,
        }
    }

    /// Whether the token may be served from the cache at `now`.
    pub fn is_valid_now(&self, now: u64) -> (valid: bool)
        ensures
            valid == self@.fresh_at(now as int),
    {
        (now as i128) < self.refresh_at
    }

    /// Whether the token may still stand in at `now` when a refresh fails.
    pub fn within_grace_now(&self, now: u64) -> (within: bool)
        ensures
            within == self@.in_grace_at(now as int),
    {
        now as i128 - STALE_GRACE < self.expires_at
    }
}

/// An issued credential, in mathematical terms.
pub struct IssuedView {
    pub value: Option<Seq<char>>,
    pub parts: Map<Seq<char>, Seq<char>>,
    pub ttl_seconds: int,
    pub lease_id: Option<Seq<char>>,
    pub issued_at: Seq<char>,
    pub metadata: Map<Seq<char>, Seq<char>>,
}

/// A credential as it is handed to the gateway.
#[derive(Debug, Clone, PartialEq)]
pub struct IssuedCredential {
    pub value: Option<String>,
    pub parts: NameMap<String>,
    pub ttl_seconds: u64,
    pub lease_id: Option<String>,
    pub issued_at: String,
    pub metadata: NameMap<String>,
}

/// What an optional text holds.
pub open spec fn optional_text(text: Option<String>) -> Option<Seq<char>> {
    match text {
        Some(held) => Some(held@),
        None => None,
    }
}

impl View for IssuedCredential {
    type V = IssuedView;

    open spec fn view(&self) -> IssuedView {
        IssuedView {
            value: optional_text(self.value),
            parts: by_name(self.parts@),
            ttl_seconds: self.ttl_seconds as int,
            lease_id: optional_text(self.lease_id),
            issued_at: self.issued_at@,
            metadata: by_name(self.metadata@),
        }
    }
}

/// The credential that is handed out for `cached` at `now`. Its time to live
/// ends when the token is due for a refresh, and is zero from then on.
pub fn cached_to_issued(cached: &CachedToken, now: u64) -> (issued: IssuedCredential)
    ensures
        issued@ == cached@.issued(now as int),
        cached@.refresh_at <= cached@.expires_at,
{
    proof {
        use_type_invariant(cached);
    }
    let now: i128 = now as i128;
    let ttl_seconds: u64 = if now < cached.refresh_at {
        ((cached.refresh_at - now) / NANOS_PER_SECOND) as u64
    } else {
        0
    };
    let mut parts: Vec<(String, String)> = Vec::new();
    parts.push(("access_token".to_owned(), cached.access_token.clone()));
    parts.push(("token_type".to_owned(), cached.token_type.clone()));
    let mut metadata: Vec<(String, String)> = Vec::new();
    metadata.push(("oauth.token_type".to_owned(), cached.token_type.clone()));
    proof {
        reveal_with_fuel(by_name, 3);
        let listed = pairs_view(parts@);
        assert(listed.len() == 2);
        assert(listed[0] == ("access_token"@, cached@.access_token));
        assert(listed[1] == ("token_type"@, cached@.token_type));
        assert(listed.drop_last().last() == listed[0]);
        assert(by_name(listed) =~= cached@.issued(now as int).parts);
        let noted = pairs_view(metadata@);
        assert(noted[0] == ("oauth.token_type"@, cached@.token_type));
        assert(by_name(noted) =~= cached@.issued(now as int).metadata);
    }
    IssuedCredential {
        value: Some(cached.access_token.clone()),
        parts: NameMap::from_pairs(parts),
        ttl_seconds,
        lease_id: None,
        issued_at: cached.issued_at_rfc3339.clone(),
        metadata: NameMap::from_pairs(metadata),
    }
}

} // verus!
