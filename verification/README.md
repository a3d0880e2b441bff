# oauth_client_credentials

A credential issuer for OAuth 2.0 client credentials (RFC 6749 §4.4), verified
with Verus. Named providers are configured with a token endpoint, a client and
its scopes. For each provider the issuer fetches an access token, keeps it, and
refreshes it ahead of its expiry; when a refresh fails, the older token stands
in for up to five minutes past its expiry. Of what a token endpoint says when it
refuses, only the error codes of RFC 6749 §5.2 are ever shown.

## Layout

- `src/config.rs`: the configuration, its defaults and its rules
- `src/token.rs`: tokens, how long they serve, and the credentials made of them
- `src/endpoint.rs`: token requests, and what becomes of the replies
- `src/plugin.rs`: the issuer, and the steps by which a request is answered
- `src/laws.rs`: what holds of the issuer as a whole, as proof functions
- `src/name_map.rs`, `src/text.rs`: maps in the order of names, and text
- `src/foreign.rs`: the calls into other crates, with what is relied on of each
- `app/`: JSON, HTTP, the refresh guards and the clock around the library
- `tests/`: tests

## How a request is answered

`OAuthClientCredentialsPlugin::issue_inner` is told what has happened to a
request and says what to do next:

1. `Requested`: answered out of the cache, or `AcquireGuard`.
2. `GuardAcquired`: answered out of the cache if another request has filled it
   meanwhile, or `Fetch` with the token request.
3. `FetchCompleted`: answered with the fetched token, with the older token, or
   with the error.

Time is handed in: a moment is a count of nanoseconds on a clock that never
runs backwards.
