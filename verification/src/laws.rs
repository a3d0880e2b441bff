//! What holds of the issuer as a whole.

use vstd::prelude::*;
use vstd::string::*;

use crate::config::config_fault;
use crate::config::first_fault;
use crate::config::parsed;
use crate::config::provider_fault;
use crate::config::ConfigDocument;
use crate::config::ConfigFault;
use crate::config::ProviderDocument;
use crate::config::ProviderView;
use crate::config::MAX_REFRESH_BUFFER_MS;
use crate::config::MAX_TIMEOUT_MS;
use crate::config::MIN_TIMEOUT_MS;
use crate::endpoint::body_text;
use crate::endpoint::fetch_fault;
use crate::endpoint::refusal_kind;
use crate::endpoint::refusal_reason;
use crate::endpoint::request_for;
use crate::endpoint::scope_text;
use crate::endpoint::shown_code;
use crate::endpoint::standard_code;
use crate::endpoint::CredentialFault;
use crate::endpoint::EndpointReply;
use crate::foreign::json_text_member;
use crate::foreign::no_tokens;
use crate::foreign::status_display;
use crate::name_map::ascending;
use crate::name_map::ascending_is_unique;
use crate::name_map::by_name;
use crate::name_map::by_name_contains;
use crate::name_map::by_name_of_ascending;
use crate::name_map::in_name_order;
use crate::name_map::name_order_exists;
use crate::plugin::after_fetch;
use crate::plugin::answered_or;
use crate::plugin::cache_hit;
use crate::plugin::has_fallback;
use crate::plugin::has_fresh;
use crate::plugin::in_order;
use crate::plugin::issue_step;
use crate::plugin::outcome_of;
use crate::plugin::unknown_provider;
use crate::plugin::ActionView;
use crate::plugin::Counter;
use crate::plugin::IssueEvent;
use crate::plugin::PluginView;
use crate::text::blank;
use crate::text::has_part;
use crate::text::has_prefix;
use crate::token::token_of;
use crate::token::IssuedView;
use crate::token::TokenResponse;
use crate::token::TokenView;
use crate::token::NANOS_PER_MILLISECOND;
use crate::token::NANOS_PER_SECOND;
use crate::token::STALE_GRACE;

verus! {

/// A fetched token is cached: until it is due for a refresh, every further
/// request for its provider is answered with it out of the cache, whether it
/// comes in anew or has waited for the guard, and none is sent to the token
/// endpoint.
pub proof fn fetched_token_is_served_from_the_cache(
    plugin: PluginView,
    name: Seq<char>,
    token: TokenView,
    later: int,
    otherwise: ActionView,
)
    requires
        by_name(plugin.providers).contains_key(name),
        token.fresh_at(later),
    ensures
        answered_or(after_fetch(plugin, name, Ok(token)), name, later, otherwise)
            == ActionView::Finish(cache_hit(token, later)),
        cache_hit(token, later).result is Ok,
        cache_hit(token, later).result->Ok_0.value == Some(token.access_token),
{
}

/// One provider whose refresh guard is held by one request at a time.
pub struct Guarded {
    pub plugin: PluginView,
    /// A token request of the holder of the guard is under way.
    pub in_flight: bool,
    /// How many token requests were sent.
    pub sent: nat,
    /// How many token requests were answered.
    pub received: nat,
}

/// What a request for `name` has to be fetched with.
pub open spec fn fetch_for(plugin: PluginView, name: Seq<char>) -> ActionView {
    ActionView::Fetch(request_for(by_name(plugin.providers)[name]))
}

/// A request gets the guard of `name` at `now`: it is answered at once and
/// gives the guard back, or it keeps the guard and sends a token request.
pub open spec fn takes_guard(name: Seq<char>, before: Guarded, after: Guarded, now: int) -> bool {
    let fetch = fetch_for(before.plugin, name);
    &&& !before.in_flight
    &&& after == if answered_or(before.plugin, name, now, fetch) == fetch {
        Guarded { in_flight: true, sent: before.sent + 1, ..before }
    } else {
        before
    }
}

/// The token request under way for `name` brings `token`, and the guard is given back.
pub open spec fn brings_token(
    name: Seq<char>,
    before: Guarded,
    after: Guarded,
    token: TokenView,
) -> bool {
    &&& before.in_flight
    &&& after == (Guarded {
        plugin: after_fetch(before.plugin, name, Ok(token)),
        in_flight: false,
        received: before.received + 1,
        ..before
    })
}

/// A fetch for another provider than `name` ends.
pub open spec fn serves_another(name: Seq<char>, before: Guarded, after: Guarded) -> bool {
    exists|other: Seq<char>, fetched: Result<TokenView, CredentialFault>|
        {
            &&& other != name
            &&& after == (Guarded {
                plugin: #[trigger] after_fetch(before.plugin, other, fetched),
                ..before
            })
        }
}

/// `run` lists the states of the configured provider `name`, `times` when each
/// passes to the next. At the start nothing was sent and no token may be
/// served; the token endpoint answers with `token`, which is not due for a
/// refresh as long as the run lasts.
pub open spec fn burst(
    name: Seq<char>,
    run: Seq<Guarded>,
    times: Seq<int>,
    token: TokenView,
) -> bool {
    &&& run.len() == times.len() + 1
    &&& by_name(run[0].plugin.providers).contains_key(name)
    &&& !run[0].in_flight
    &&& run[0].sent == 0
    &&& run[0].received == 0
    &&& forall|i: int|
        0 <= i < times.len() ==> {
            &&& token.fresh_at(#[trigger] times[i])
            &&& !has_fresh(run[0].plugin.tokens, name, times[i])
        }
    &&& forall|i: int|
        0 <= i < times.len() ==> {
            ||| takes_guard(name, #[trigger] run[i], run[i + 1], times[i])
            ||| brings_token(name, run[i], run[i + 1], token)
            ||| serves_another(name, run[i], run[i + 1])
        }
}

/// However many requests for a provider come in at once, one token request
/// goes out for all of them: exactly one as soon as any of them has held the
/// guard, and never two at a time. Each is answered with the token that this
/// one request brings: the one that sent it when the token comes, and every
/// other out of the cache, be it that it comes in anew or that it has waited
/// for the guard.
pub proof fn burst_sends_one_token_request(
    name: Seq<char>,
    run: Seq<Guarded>,
    times: Seq<int>,
    token: TokenView,
)
    requires
        burst(name, run, times, token),
    ensures
        run.last().sent <= 1,
        forall|i: int|
            0 <= i < times.len() && takes_guard(name, #[trigger] run[i], run[i + 1], times[i])
                ==> run.last().sent == 1,
        forall|i: int|
            0 <= i < run.len() ==> (#[trigger] run[i]).sent == run[i].received + if run[i].in_flight {
                1nat
            } else {
                0nat
            },
        forall|i: int, otherwise: ActionView|
            0 <= i < times.len() ==> {
                let done = #[trigger] answered_or(run[i].plugin, name, times[i], otherwise);
                ||| done == otherwise
                ||| done == ActionView::Finish(cache_hit(token, times[i]))
            },
        forall|i: int, otherwise: ActionView|
            0 <= i < times.len() && run[i].received == 1 ==> #[trigger] answered_or(
                run[i].plugin,
                name,
                times[i],
                otherwise,
            ) == ActionView::Finish(cache_hit(token, times[i])),
        forall|tokens: Map<Seq<char>, TokenView>, now: int|
            (#[trigger] outcome_of(tokens, name, Ok(token), now)).result == Ok::<
                IssuedView,
                CredentialFault,
            >(token.issued(now)),
        forall|now: int|
            (#[trigger] cache_hit(token, now)).result == Ok::<IssuedView, CredentialFault>(
                token.issued(now),
            ) && token.issued(now).value == Some(token.access_token),
{
    assert forall|i: int| 0 <= i < run.len() implies (#[trigger] run[i]).sent == run[i].received
        + if run[i].in_flight {
        1nat
    } else {
        0nat
    } by {
        burst_state(name, run, times, token, i);
    }
    burst_state(name, run, times, token, times.len() as int);
    assert forall|i: int|
        0 <= i < times.len() && takes_guard(
            name,
            #[trigger] run[i],
            run[i + 1],
            times[i],
        ) implies run.last().sent == 1 by {
        burst_state(name, run, times, token, i);
        burst_state(name, run, times, token, i + 1);
        assert(!has_fresh(run[0].plugin.tokens, name, times[i]));
        sent_only_grows(name, run, times, token, i + 1, times.len() as int);
    }
    assert forall|i: int, otherwise: ActionView| 0 <= i < times.len() implies ({
        let done = #[trigger] answered_or(run[i].plugin, name, times[i], otherwise);
        ||| done == otherwise
        ||| done == ActionView::Finish(cache_hit(token, times[i]))
    }) by {
        burst_state(name, run, times, token, i);
        assert(!has_fresh(run[0].plugin.tokens, name, times[i]));
    }
    assert forall|i: int, otherwise: ActionView|
        0 <= i < times.len() && run[i].received == 1 implies #[trigger] answered_or(
        run[i].plugin,
        name,
        times[i],
        otherwise,
    ) == ActionView::Finish(cache_hit(token, times[i])) by {
        burst_state(name, run, times, token, i);
        assert(token.fresh_at(times[i]));
    }
}

/// In the state at `n` either nothing was received and the cache holds for
/// `name` what it held at the start, or the one token is there.
proof fn burst_state(
    name: Seq<char>,
    run: Seq<Guarded>,
    times: Seq<int>,
    token: TokenView,
    n: int,
)
    requires
        burst(name, run, times, token),
        0 <= n <= times.len(),
    ensures
        run[n].plugin.providers == run[0].plugin.providers,
        run[n].sent == run[n].received + if run[n].in_flight {
            1nat
        } else {
            0nat
        },
        run[n].received == 0 ==> {
            &&& run[n].plugin.tokens.contains_key(name) == run[0].plugin.tokens.contains_key(name)
            &&& run[n].plugin.tokens.contains_key(name) ==> run[n].plugin.tokens[name]
                == run[0].plugin.tokens[name]
        },
        run[n].received > 0 ==> {
            &&& run[n].received == 1
            &&& !run[n].in_flight
            &&& run[n].plugin.tokens.contains_key(name)
            &&& run[n].plugin.tokens[name] == token
        },
    decreases n,
{
    if n > 0 {
        burst_state(name, run, times, token, n - 1);
        let before = run[n - 1];
        let after = run[n];
        assert(token.fresh_at(times[n - 1]));
        if serves_another(name, before, after) {
        } else if brings_token(name, before, after, token) {
        } else {
            assert(takes_guard(name, before, after, times[n - 1]));
        }
    }
}

proof fn sent_only_grows(
    name: Seq<char>,
    run: Seq<Guarded>,
    times: Seq<int>,
    token: TokenView,
    from: int,
    to: int,
)
    requires
        burst(name, run, times, token),
        0 <= from <= to <= times.len(),
    ensures
        run[from].sent <= run[to].sent,
    decreases to - from,
{
    if from < to {
        sent_only_grows(name, run, times, token, from, to - 1);
        let before = run[to - 1];
        let after = run[to];
        if serves_another(name, before, after) {
        } else if brings_token(name, before, after, token) {
        } else {
            assert(takes_guard(name, before, after, times[to - 1]));
        }
    }
}

/// A step keeps the issuer in order: it puts no token under a name that is not
/// configured, and none that is due for a refresh later than it expires.
pub proof fn step_keeps_the_issuer_in_order(
    before: PluginView,
    name: Seq<char>,
    event: IssueEvent,
    now: int,
    after: PluginView,
    action: ActionView,
)
    requires
        in_order(before),
        issue_step(before, name, event, now, after, action),
    ensures
        in_order(after),
{
}

/// A step changes neither the manifest nor the providers, takes no token away,
/// and leaves the token of every other provider as it was.
pub proof fn step_touches_only_its_provider(
    before: PluginView,
    name: Seq<char>,
    event: IssueEvent,
    now: int,
    after: PluginView,
    action: ActionView,
)
    requires
        issue_step(before, name, event, now, after, action),
    ensures
        after.manifest == before.manifest,
        after.providers == before.providers,
        forall|other: Seq<char>| #[trigger]
            before.tokens.contains_key(other) ==> after.tokens.contains_key(other),
        forall|other: Seq<char>|
            other != name ==> {
                &&& #[trigger] after.tokens.contains_key(other) == before.tokens.contains_key(other)
                &&& after.tokens[other] == before.tokens[other]
            },
{
}

/// The guard is asked for, and a token request sent, for a configured provider
/// only: whoever keeps a guard for each of them is never asked for another.
pub proof fn only_configured_providers_are_guarded(
    before: PluginView,
    name: Seq<char>,
    event: IssueEvent,
    now: int,
    after: PluginView,
    action: ActionView,
)
    requires
        issue_step(before, name, event, now, after, action),
        action is AcquireGuard || action is Fetch,
    ensures
        by_name(before.providers).contains_key(name),
{
}

/// Some step of some request leads from `before` to `after`.
pub open spec fn steps_to(before: PluginView, after: PluginView) -> bool {
    exists|name: Seq<char>, event: IssueEvent, now: int, action: ActionView| #[trigger]
        issue_step(before, name, event, now, after, action)
}

/// From an issuer with nothing cached, any number of steps of any requests
/// leads only to states in which only configured providers have tokens, with
/// the manifest and the providers that there were at the start.
pub proof fn issuer_stays_in_order(run: Seq<PluginView>, n: int)
    requires
        run.len() > 0,
        run[0].tokens == no_tokens(),
        forall|i: int| 0 <= i < run.len() - 1 ==> steps_to(#[trigger] run[i], run[i + 1]),
        0 <= n < run.len(),
    ensures
        in_order(run[n]),
        run[n].tokens.dom().subset_of(by_name(run[n].providers).dom()),
        run[n].manifest == run[0].manifest,
        run[n].providers == run[0].providers,
    decreases n,
{
    if n > 0 {
        issuer_stays_in_order(run, n - 1);
        assert(steps_to(run[n - 1], run[n]));
        let (name, event, now, action) = choose|
            name: Seq<char>,
            event: IssueEvent,
            now: int,
            action: ActionView,
        | #[trigger] issue_step(run[n - 1], name, event, now, run[n], action);
        step_keeps_the_issuer_in_order(run[n - 1], name, event, now, run[n], action);
        step_touches_only_its_provider(run[n - 1], name, event, now, run[n], action);
    }
}

/// Once the grace of a token has lapsed, the next request is fetched for.
pub proof fn lapsed_token_is_fetched_anew(
    plugin: PluginView,
    name: Seq<char>,
    now: int,
    otherwise: ActionView,
)
    requires
        in_order(plugin),
        plugin.tokens.contains_key(name),
        !plugin.tokens[name].in_grace_at(now),
    ensures
        answered_or(plugin, name, now, otherwise) == otherwise,
{
}

/// A token that is due for a refresh is never served out of the cache: the
/// request goes on to the guard, and from there to the token endpoint.
pub proof fn due_token_is_fetched_anew(
    plugin: PluginView,
    name: Seq<char>,
    now: int,
    otherwise: ActionView,
)
    requires
        by_name(plugin.providers).contains_key(name),
        plugin.tokens.contains_key(name) ==> plugin.tokens[name].refresh_at <= now,
    ensures
        answered_or(plugin, name, now, otherwise) == otherwise,
{
}

/// The first request for a provider goes to its token endpoint.
pub proof fn first_request_is_fetched_for(
    plugin: PluginView,
    name: Seq<char>,
    now: int,
    otherwise: ActionView,
)
    requires
        by_name(plugin.providers).contains_key(name),
        plugin.tokens == no_tokens(),
    ensures
        answered_or(plugin, name, now, otherwise) == otherwise,
{
}

/// A request for a provider that is not configured is answered at once, as a
/// misconfiguration that names the provider, and is counted nowhere.
pub proof fn unknown_provider_is_never_fetched_for(
    plugin: PluginView,
    name: Seq<char>,
    now: int,
    otherwise: ActionView,
)
    requires
        !by_name(plugin.providers).contains_key(name),
    ensures
        answered_or(plugin, name, now, otherwise) == ActionView::Finish(unknown_provider(name)),
        unknown_provider(name).result is Err,
        unknown_provider(name).result->Err_0 is Misconfigured,
        has_part(unknown_provider(name).result->Err_0.reason(), name),
        unknown_provider(name).counter is None,
{
    assert(unknown_provider(name).result->Err_0.reason() == "unknown provider `"@ + name + "`"@);
}

/// A fetch for one provider changes nothing for another.
pub proof fn providers_do_not_share_tokens(
    plugin: PluginView,
    name: Seq<char>,
    other: Seq<char>,
    fetched: Result<TokenView, CredentialFault>,
    now: int,
    otherwise: ActionView,
)
    requires
        other != name,
    ensures
        answered_or(after_fetch(plugin, name, fetched), other, now, otherwise) == answered_or(
            plugin,
            other,
            now,
            otherwise,
        ),
        has_fallback(after_fetch(plugin, name, fetched).tokens, other, now) == has_fallback(
            plugin.tokens,
            other,
            now,
        ),
{
}

/// Of two tokens fetched for one provider the later is kept.
pub proof fn later_token_replaces_the_earlier(
    plugin: PluginView,
    name: Seq<char>,
    earlier: TokenView,
    later: TokenView,
)
    ensures
        after_fetch(after_fetch(plugin, name, Ok(earlier)), name, Ok(later)) == after_fetch(
            plugin,
            name,
            Ok(later),
        ),
{
    assert(plugin.tokens.insert(name, earlier).insert(name, later) =~= plugin.tokens.insert(
        name,
        later,
    ));
}

/// A failed fetch leaves the issuer as it was.
pub proof fn failed_fetch_changes_nothing(
    plugin: PluginView,
    name: Seq<char>,
    fault: CredentialFault,
)
    ensures
        after_fetch(plugin, name, Err(fault)) == plugin,
{
}

/// When a fetch fails, the cached token stands in up to five minutes past its
/// expiry, with no time to live where it is due for a refresh; without a
/// cached token, or later than that, the failure itself is the answer.
pub proof fn failed_fetch_falls_back_within_grace(
    tokens: Map<Seq<char>, TokenView>,
    name: Seq<char>,
    fault: CredentialFault,
    now: int,
)
    ensures
        STALE_GRACE == 5 * 60 * NANOS_PER_SECOND,
        tokens.contains_key(name) && now < tokens[name].expires_at + STALE_GRACE ==> {
            let outcome = outcome_of(tokens, name, Err(fault), now);
            &&& outcome.result is Ok
            &&& outcome.result->Ok_0.value == Some(tokens[name].access_token)
            &&& outcome.masked == Some(fault)
            &&& !tokens[name].fresh_at(now) ==> outcome.result->Ok_0.ttl_seconds == 0
        },
        !tokens.contains_key(name) || now >= tokens[name].expires_at + STALE_GRACE ==> {
            let outcome = outcome_of(tokens, name, Err(fault), now);
            &&& outcome.result is Err
            &&& outcome.result->Err_0 == fault
            &&& outcome.masked is None
        },
        outcome_of(tokens, name, Err(fault), now).counter == Some(Counter::RefreshError),
{
}

/// Every answer for a configured provider is counted, and once: as served from
/// the cache, as a refresh, or as a failed refresh.
pub proof fn every_answer_is_counted(
    plugin: PluginView,
    name: Seq<char>,
    fetched: Result<TokenView, CredentialFault>,
    now: int,
)
    requires
        by_name(plugin.providers).contains_key(name),
    ensures
        answered_or(plugin, name, now, ActionView::AcquireGuard) matches ActionView::Finish(answer)
            ==> answer.counter == Some(Counter::CacheHit),
        outcome_of(plugin.tokens, name, fetched, now).counter == Some(
            if fetched is Ok {
                Counter::Refresh
            } else {
                Counter::RefreshError
            },
        ),
{
}

/// A token that is served out of the cache has at least the refresh buffer
/// left of its lifetime.
pub proof fn cached_token_is_served_ahead_of_expiry(
    response: TokenResponse,
    refresh_buffer_ms: int,
    received: int,
    issued_at: Seq<char>,
    now: int,
)
    requires
        0 <= refresh_buffer_ms,
    ensures
        ({
            let token = token_of(response, refresh_buffer_ms, received, issued_at);
            &&& token.fresh_at(now) <==> now < received + response.lifetime() * NANOS_PER_SECOND
                - refresh_buffer_ms * NANOS_PER_MILLISECOND
            &&& token.fresh_at(now) ==> now < token.expires_at
            &&& token.fresh_at(now) ==> token.in_grace_at(now)
        }),
{
}

/// The time to live of a credential ends with the second in which its token is
/// due for a refresh: whoever keeps the credential no longer than that gives
/// it up while the token may still be served out of the cache, and less than a
/// second before it may not.
pub proof fn ttl_ends_with_the_refresh_horizon(token: TokenView, now: int, later: int)
    ensures
        token.issued(now).ttl_seconds >= 0,
        token.fresh_at(now) ==> {
            &&& now + token.issued(now).ttl_seconds * NANOS_PER_SECOND <= token.refresh_at
            &&& token.refresh_at < now + (token.issued(now).ttl_seconds + 1) * NANOS_PER_SECOND
        },
        !token.fresh_at(now) ==> token.issued(now).ttl_seconds == 0,
        later < now + token.issued(now).ttl_seconds * NANOS_PER_SECOND && now <= later
            ==> token.fresh_at(later),
{
}

/// The time to live of a token that was just received is its lifetime less the
/// refresh buffer, rounded down to a second, and never below zero.
pub proof fn ttl_of_a_received_token(
    response: TokenResponse,
    refresh_buffer_ms: int,
    now: int,
    issued_at: Seq<char>,
)
    requires
        0 <= refresh_buffer_ms,
    ensures
        ({
            let ttl = token_of(response, refresh_buffer_ms, now, issued_at).issued(now).ttl_seconds;
            let left_ms = response.lifetime() * 1000 - refresh_buffer_ms;
            &&& ttl == if left_ms > 0 {
                left_ms / 1000
            } else {
                0
            }
            &&& refresh_buffer_ms % 1000 == 0 && left_ms >= 0 ==> ttl == response.lifetime()
                - refresh_buffer_ms / 1000
        }),
{
}

/// A credential carries its token both as its value and as a part, and the
/// type of the token as a part and in the metadata. It is bound to no lease.
pub proof fn credential_carries_its_token(token: TokenView, now: int)
    ensures
        token.issued(now).value == Some(token.access_token),
        token.issued(now).parts.dom() == set!["access_token"@, "token_type"@],
        token.issued(now).parts["access_token"@] == token.access_token,
        token.issued(now).parts["token_type"@] == token.token_type,
        token.issued(now).metadata.dom() == set!["oauth.token_type"@],
        token.issued(now).metadata["oauth.token_type"@] == token.token_type,
        token.issued(now).lease_id is None,
        token.issued(now).issued_at == token.issued_at,
{
    reveal_strlit("access_token");
    reveal_strlit("token_type");
    assert("access_token"@.len() != "token_type"@.len());
    assert(token.issued(now).parts.dom() =~= set!["access_token"@, "token_type"@]);
    assert(token.issued(now).metadata.dom() =~= set!["oauth.token_type"@]);
}

/// Of the body of a refusal nothing but a standard error code shows in the
/// error: two bodies that name the same standard code, or both none, give the
/// same error.
pub proof fn refusal_shows_only_the_error_code(
    name: Seq<char>,
    status: u16,
    body: Option<String>,
    other: Option<String>,
)
    requires
        shown_code(json_text_member(body_text(body), "error"@)) == shown_code(
            json_text_member(body_text(other), "error"@),
        ),
    ensures
        fetch_fault(name, (EndpointReply::Refused { status, body })) == fetch_fault(
            name,
            (EndpointReply::Refused { status, body: other }),
        ),
{
}

/// A text that a refusal names as its error code, and that is no standard
/// code, is not shown: the error is the one that comes of a body without a
/// code, and holds the text only where that one does.
pub proof fn other_codes_are_not_shown(name: Seq<char>, status: u16, body: Option<String>)
    requires
        json_text_member(body_text(body), "error"@) is Some,
        !standard_code(json_text_member(body_text(body), "error"@)->0),
    ensures
        fetch_fault(name, (EndpointReply::Refused { status, body })) == Some(
            refusal_kind(status as int, refusal_reason(name, status_display(status), None)),
        ),
        ({
            let text = json_text_member(body_text(body), "error"@)->0;
            let fault = fetch_fault(name, (EndpointReply::Refused { status, body }))->0;
            !has_part(refusal_reason(name, status_display(status), None), text) ==> !has_part(
                fault.reason(),
                text,
            )
        }),
{
}

/// The words that report a refusal name the provider, the status, and the
/// error code where there is one.
pub proof fn refusal_is_told_in_full(name: Seq<char>, status: Seq<char>, code: Option<Seq<char>>)
    ensures
        has_part(refusal_reason(name, status, code), name),
        has_part(refusal_reason(name, status, code), status),
        code is Some ==> has_part(refusal_reason(name, status, code), code->0),
{
    let reason = refusal_reason(name, status, code);
    let opening = "token endpoint returned HTTP "@;
    let through = opening + status + " for `"@;
    assert(reason =~= opening + status + reason.skip((opening + status).len() as int));
    assert(reason =~= through + name + reason.skip((through + name).len() as int));
    if let Some(named) = code {
        let before = through + name + "` (error: "@;
        assert(reason =~= before + named + ")"@);
    }
}

/// A status of 429 is throttling, every other one from 400 to 499 is a
/// misconfiguration, and what is left is a failure of the backend, as is an
/// endpoint that cannot be reached and a reply that cannot be read.
pub proof fn failures_are_told_apart(
    name: Seq<char>,
    status: u16,
    body: Option<String>,
    error: String,
)
    ensures
        ({
            let fault = fetch_fault(name, (EndpointReply::Refused { status, body }))->0;
            &&& fault is Throttled <==> status == 429
            &&& fault is Misconfigured <==> 400 <= status <= 499 && status != 429
            &&& fault is Backend <==> !(400 <= status <= 499)
        }),
        fetch_fault(name, (EndpointReply::Unreachable { error }))->0 is Backend,
        fetch_fault(name, (EndpointReply::Granted { response: Err(error) }))->0 is Backend,
{
}

/// A configuration is accepted exactly if it has a provider and each of its
/// providers obeys every rule.
pub proof fn accepted_exactly_if_all_obey(entries: Seq<(Seq<char>, ProviderView)>)
    ensures
        config_fault(entries) is None <==> entries.len() > 0 && forall|i: int|
            0 <= i < entries.len() ==> provider_fault(
                (#[trigger] entries[i]).0,
                entries[i].1,
            ) is None,
{
    first_fault_is_first(entries, 0);
}

/// The fault that is reported of a configuration with providers is that of the
/// first, in the order of the names, that breaks a rule.
pub proof fn first_offender_is_reported(
    entries: Seq<(Seq<char>, ProviderView)>,
    fault: ConfigFault,
)
    requires
        entries.len() > 0,
        config_fault(entries) == Some(fault),
    ensures
        exists|i: int|
            {
                &&& 0 <= i < entries.len()
                &&& provider_fault((#[trigger] entries[i]).0, entries[i].1) == Some(fault)
                &&& forall|j: int|
                    0 <= j < i ==> provider_fault(
                        (#[trigger] entries[j]).0,
                        entries[j].1,
                    ) is None
            },
{
    first_fault_is_first(entries, 0);
}

/// What a configuration sets up is what its document describes: the same names
/// and no others, each with the provider that the document gives it.
pub proof fn accepted_config_is_the_document(
    document: ConfigDocument,
    entries: Seq<(Seq<char>, ProviderView)>,
)
    requires
        parsed(Ok(document)) == Ok::<Seq<(Seq<char>, ProviderView)>, ConfigFault>(entries),
    ensures
        ascending(entries),
        by_name(entries) == by_name(document.described()),
{
    name_order_exists(document.described());
}

/// A document that describes a valid configuration, in the order of the names,
/// is read back as that configuration, each field of each provider included.
/// `OAuthConfig::document` gives such a document.
pub proof fn document_of_a_config_parses_back(
    document: ConfigDocument,
    entries: Seq<(Seq<char>, ProviderView)>,
)
    requires
        ascending(entries),
        config_fault(entries) is None,
        document.described() == entries,
    ensures
        parsed(Ok(document)) == Ok::<Seq<(Seq<char>, ProviderView)>, ConfigFault>(entries),
{
    name_order_exists(entries);
    ascending_is_unique(entries, in_name_order(entries));
}

/// Every provider of an accepted configuration has an HTTP token endpoint, a
/// client with a secret, the one supported grant type, and a timeout and a
/// refresh buffer within their bounds.
pub proof fn accepted_providers_are_usable(
    document: ConfigDocument,
    entries: Seq<(Seq<char>, ProviderView)>,
    name: Seq<char>,
)
    requires
        parsed(Ok(document)) == Ok::<Seq<(Seq<char>, ProviderView)>, ConfigFault>(entries),
        by_name(entries).contains_key(name),
    ensures
        ({
            let provider = by_name(entries)[name];
            &&& !blank(provider.token_url)
            &&& has_prefix(provider.token_url, "http://"@) || has_prefix(
                provider.token_url,
                "https://"@,
            )
            &&& !blank(provider.client_id)
            &&& provider.client_secret.len() > 0
            &&& provider.grant_type == "client_credentials"@
            &&& MIN_TIMEOUT_MS <= provider.timeout_ms <= MAX_TIMEOUT_MS
            &&& provider.refresh_buffer_ms <= MAX_REFRESH_BUFFER_MS
        }),
{
    name_order_exists(document.described());
    accepted_exactly_if_all_obey(entries);
    by_name_contains(entries, name);
    let i = choose|i: int| 0 <= i < entries.len() && #[trigger] entries[i].0 == name;
    by_name_of_ascending(entries, i);
    assert(provider_fault(entries[i].0, entries[i].1) is None);
}

/// The defaults break no rule: a provider that names only its endpoint and its
/// client is faulty only where one of these is.
pub proof fn defaults_obey_the_rules(name: Seq<char>, document: ProviderDocument)
    requires
        document.grant_type is None,
        document.refresh_buffer_ms is None,
        document.timeout_ms is None,
        !blank(document.token_url@),
        has_prefix(document.token_url@, "http://"@) || has_prefix(
            document.token_url@,
            "https://"@,
        ),
        !blank(document.client_id@),
        document.client_secret@.len() > 0,
    ensures
        provider_fault(name, document.described()) is None,
{
}

/// A token request carries the grant type, the client and its secret, and the
/// scopes, joined by spaces, exactly where there are any.
pub proof fn request_names_scopes_only_if_any(provider: ProviderView)
    ensures
        by_name(request_for(provider).form).contains_key("scope"@) <==> provider.scopes.len() > 0,
        provider.scopes.len() > 0 ==> by_name(request_for(provider).form)["scope"@] == scope_text(
            provider,
        ),
        by_name(request_for(provider).form)["grant_type"@] == provider.grant_type,
        by_name(request_for(provider).form)["client_id"@] == provider.client_id,
        by_name(request_for(provider).form)["client_secret"@] == provider.client_secret,
{
    reveal_strlit("grant_type");
    reveal_strlit("client_id");
    reveal_strlit("client_secret");
    reveal_strlit("scope");
    assert("grant_type"@.len() == 10 && "client_id"@.len() == 9 && "client_secret"@.len() == 13
        && "scope"@.len() == 5);
    let credentials = seq![
        ("grant_type"@, provider.grant_type),
        ("client_id"@, provider.client_id),
        ("client_secret"@, provider.client_secret),
    ];
    let expected = map![
        "grant_type"@ => provider.grant_type,
        "client_id"@ => provider.client_id,
        "client_secret"@ => provider.client_secret,
    ];
    assert(by_name(credentials) =~= expected) by {
        reveal_with_fuel(by_name, 4);
        assert(credentials.drop_last().last() == credentials[1]);
        assert(credentials.drop_last().drop_last().last() == credentials[0]);
    }
    if provider.scopes.len() > 0 {
        assert(request_for(provider).form.drop_last() =~= credentials);
    }
}

proof fn first_fault_is_first(entries: Seq<(Seq<char>, ProviderView)>, from: int)
    requires
        0 <= from <= entries.len(),
    ensures
        match first_fault(entries, from) {
            None => forall|i: int|
                from <= i < entries.len() ==> provider_fault(
                    (#[trigger] entries[i]).0,
                    entries[i].1,
                ) is None,
            Some(fault) => exists|i: int|
                {
                    &&& from <= i < entries.len()
                    &&& provider_fault((#[trigger] entries[i]).0, entries[i].1) == Some(fault)
                    &&& forall|j: int|
                        from <= j < i ==> provider_fault(
                            (#[trigger] entries[j]).0,
                            entries[j].1,
                        ) is None
                },
        },
    decreases entries.len() - from,
{
    if from < entries.len() {
        if provider_fault(entries[from].0, entries[from].1) is None {
            first_fault_is_first(entries, from + 1);
            if first_fault(entries, from + 1) is Some {
                let i = choose|i: int|
                    {
                        &&& from + 1 <= i < entries.len()
                        &&& provider_fault((#[trigger] entries[i]).0, entries[i].1) == first_fault(
                            entries,
                            from + 1,
                        )
                        &&& forall|j: int|
                            from + 1 <= j < i ==> provider_fault(
                                (#[trigger] entries[j]).0,
                                entries[j].1,
                            ) is None
                    };
                assert(provider_fault(entries[i].0, entries[i].1) == first_fault(entries, from));
            }
        } else {
            assert(provider_fault(entries[from].0, entries[from].1) == first_fault(entries, from));
        }
    }
}

} // verus!
