//! What each operation gives, in plain terms of what goes in and what comes
//! out: numbers, texts and fields as they are written down.

use vstd::prelude::*;
use vstd::string::*;

use crate::config::ProviderView;
use crate::endpoint::body_text;
use crate::endpoint::fetch_fault;
use crate::endpoint::fetched_from;
use crate::endpoint::fetched_view;
use crate::endpoint::refusal_kind;
use crate::endpoint::refusal_reason;
use crate::endpoint::request_for;
use crate::endpoint::shown_code;
use crate::endpoint::standard_code;
use crate::endpoint::CredentialError;
use crate::endpoint::CredentialFault;
use crate::endpoint::EndpointReply;
use crate::endpoint::RequestView;
use crate::endpoint::TokenRequest;
use crate::foreign::json_text_member;
use crate::foreign::no_tokens;
use crate::foreign::status_display;
use crate::laws::step_touches_only_its_provider;
use crate::name_map::by_name;
use crate::plugin::after_fetch;
use crate::plugin::in_order;
use crate::plugin::issue_step;
use crate::plugin::outcome_of;
use crate::plugin::ActionView;
use crate::plugin::Counter;
use crate::plugin::IssueAction;
use crate::plugin::IssueEvent;
use crate::plugin::IssueOutcome;
use crate::plugin::PluginClass;
use crate::plugin::PluginManifest;
use crate::plugin::PluginView;
use crate::text::joined;
use crate::text::root_segment;
use crate::token::optional_text;
use crate::token::token_of;
use crate::token::CachedToken;
use crate::token::IssuedCredential;
use crate::token::IssuedView;
use crate::token::TokenResponse;
use crate::token::TokenView;

verus! {

/// Seconds that a token lives: as the response says, and an hour where it says nothing.
pub open spec fn seconds_to_live(response: TokenResponse) -> int {
    match response.expires_in {
        Some(seconds) => seconds as int,
        None => 3600,
    }
}

/// When a token received at `now` is due for a refresh.
pub open spec fn due_at(response: TokenResponse, refresh_buffer_ms: nat, now: int) -> int {
    now + seconds_to_live(response) * 1_000_000_000 - refresh_buffer_ms * 1_000_000
}

/// `issued` hands out `token` at `now`: the whole token as value and as part,
/// its type, its stamp, and the whole seconds until it is due for a refresh.
pub open spec fn hands_out(issued: IssuedView, token: TokenView, now: int) -> bool {
    &&& issued.value == Some(token.access_token)
    &&& forall|part: Seq<char>| #[trigger]
        issued.parts.contains_key(part) <==> part == "access_token"@ || part == "token_type"@
    &&& issued.parts["access_token"@] == token.access_token
    &&& issued.parts["token_type"@] == token.token_type
    &&& forall|entry: Seq<char>| #[trigger]
        issued.metadata.contains_key(entry) <==> entry == "oauth.token_type"@
    &&& issued.metadata["oauth.token_type"@] == token.token_type
    &&& issued.lease_id is None
    &&& issued.issued_at == token.issued_at
    &&& issued.ttl_seconds >= 0
    &&& now >= token.refresh_at ==> issued.ttl_seconds == 0
    &&& now < token.refresh_at ==> issued.ttl_seconds * 1_000_000_000 <= token.refresh_at - now < (
    issued.ttl_seconds + 1) * 1_000_000_000
}

/// `c` is a decimal digit.
pub open spec fn is_digit(c: char) -> bool {
    '0' as int <= c as int <= '9' as int
}

/// `text` ends as a date and a time in UTC do: `YYYY-MM-DDTHH:MM:SSZ`.
pub open spec fn stamped(text: Seq<char>) -> bool {
    let n = text.len();
    &&& n >= 20
    &&& is_digit(text[n - 20]) && is_digit(text[n - 19]) && is_digit(text[n - 18]) && is_digit(
        text[n - 17],
    )
    &&& text[n - 16] == '-' && is_digit(text[n - 15]) && is_digit(text[n - 14])
    &&& text[n - 13] == '-' && is_digit(text[n - 12]) && is_digit(text[n - 11])
    &&& text[n - 10] == 'T' && is_digit(text[n - 9]) && is_digit(text[n - 8])
    &&& text[n - 7] == ':' && is_digit(text[n - 6]) && is_digit(text[n - 5])
    &&& text[n - 4] == ':' && is_digit(text[n - 3]) && is_digit(text[n - 2])
    &&& text[n - 1] == 'Z'
}

/// While the cached token of a configured provider is not due for a refresh,
/// a request that comes in and one that gets the guard are both answered with
/// that token, and counted as served from the cache. Nothing is sent and
/// nothing changes.
pub proof fn fresh_token_answers(
    before: PluginView,
    name: Seq<char>,
    event: IssueEvent,
    now: int,
    after: PluginView,
    action: ActionView,
)
    requires
        issue_step(before, name, event, now, after, action),
        event is Requested || event is GuardAcquired,
        by_name(before.providers).contains_key(name),
        before.tokens.contains_key(name),
        now < before.tokens[name].refresh_at,
    ensures
        after == before,
        action matches ActionView::Finish(answer) && {
            &&& answer.result is Ok
            &&& hands_out(answer.result->Ok_0, before.tokens[name], now)
            &&& answer.counter == Some(Counter::CacheHit)
            &&& answer.masked is None
        },
        !(action is Fetch),
        !(action is AcquireGuard),
{
    reveal_strlit("access_token");
    reveal_strlit("token_type");
    assert("access_token"@.len() != "token_type"@.len());
}

/// Without a token that may be served, a request for a configured provider
/// goes on: one that comes in has to get the guard, and one that has it sends
/// the request of that very provider. Nothing changes yet.
pub proof fn without_fresh_token_a_request_goes_on(
    before: PluginView,
    name: Seq<char>,
    event: IssueEvent,
    now: int,
    after: PluginView,
    action: ActionView,
)
    requires
        issue_step(before, name, event, now, after, action),
        event is Requested || event is GuardAcquired,
        by_name(before.providers).contains_key(name),
        before.tokens.contains_key(name) ==> before.tokens[name].refresh_at <= now,
    ensures
        after == before,
        event is Requested ==> action is AcquireGuard,
        event is GuardAcquired ==> action is Fetch && asks_for_token(
            action->Fetch_0,
            by_name(before.providers)[name],
        ),
{
    if event is GuardAcquired {
        request_asks_for_token(by_name(before.providers)[name]);
    }
}

/// A request for a provider that is not configured is answered with an error
/// that says so, whatever has happened to it, and changes nothing.
pub proof fn unknown_provider_is_told(
    before: PluginView,
    name: Seq<char>,
    event: IssueEvent,
    now: int,
    after: PluginView,
    action: ActionView,
)
    requires
        issue_step(before, name, event, now, after, action),
        !by_name(before.providers).contains_key(name),
    ensures
        after == before,
        action matches ActionView::Finish(answer) && {
            &&& answer.result is Err
            &&& answer.result->Err_0 == (CredentialFault::Misconfigured {
                reason: "unknown provider `"@ + name + "`"@,
            })
            &&& answer.counter is None
            &&& answer.masked is None
        },
{
}

/// A granted token is cached under its provider and nothing else changes. The
/// token is the one of the response, whole, of the type that the response
/// names, or `Bearer`. It expires at the end of its lifetime and is due for a
/// refresh by the buffer of that very provider ahead of it. The answer hands
/// it out with as many seconds to live.
pub proof fn granted_token_is_cached_and_handed_out(
    before: PluginView,
    name: Seq<char>,
    response: TokenResponse,
    now: int,
    after: PluginView,
    action: ActionView,
)
    requires
        issue_step(
            before,
            name,
            IssueEvent::FetchCompleted(EndpointReply::Granted { response: Ok(response) }),
            now,
            after,
            action,
        ),
        by_name(before.providers).contains_key(name),
    ensures
        after.manifest == before.manifest,
        after.providers == before.providers,
        after.tokens == before.tokens.insert(name, after.tokens[name]),
        after.tokens[name].access_token == response.access_token@,
        stamped(after.tokens[name].issued_at),
        response.token_type matches Some(named) ==> after.tokens[name].token_type == named@,
        response.token_type is None ==> after.tokens[name].token_type == "Bearer"@,
        after.tokens[name].expires_at == now + seconds_to_live(response) * 1_000_000_000,
        after.tokens[name].refresh_at == due_at(
            response,
            by_name(before.providers)[name].refresh_buffer_ms,
            now,
        ),
        action matches ActionView::Finish(answer) && {
            let left_ms = seconds_to_live(response) * 1000 - by_name(
                before.providers,
            )[name].refresh_buffer_ms;
            &&& answer.result is Ok
            &&& hands_out(answer.result->Ok_0, after.tokens[name], now)
            &&& answer.result->Ok_0.value == Some(response.access_token@)
            &&& answer.result->Ok_0.parts["access_token"@] == response.access_token@
            &&& answer.result->Ok_0.ttl_seconds == if left_ms > 0 {
                left_ms / 1000
            } else {
                0
            }
            &&& answer.counter == Some(Counter::Refresh)
            &&& answer.masked is None
        },
{
    reveal_strlit("access_token");
    reveal_strlit("token_type");
    assert("access_token"@.len() != "token_type"@.len());
}

/// The text is one of the error codes of RFC 6749, section 5.2.
pub open spec fn of_section_5_2(code: Seq<char>) -> bool {
    ||| code == "invalid_request"@
    ||| code == "invalid_client"@
    ||| code == "invalid_grant"@
    ||| code == "unauthorized_client"@
    ||| code == "unsupported_grant_type"@
    ||| code == "invalid_scope"@
}

/// `fault` is the failure that a reply without a token amounts to.
pub open spec fn tells(fault: CredentialFault, name: Seq<char>, reply: EndpointReply) -> bool {
    match reply {
        EndpointReply::Unreachable { error } => fault == (CredentialFault::Backend {
            reason: "OAuth token endpoint unreachable for `"@ + name + "`: "@ + error@,
        }),
        EndpointReply::Granted { response } => {
            &&& response is Err
            &&& fault == (CredentialFault::Backend {
                reason: "failed to parse token endpoint response for `"@ + name + "`: "@
                    + response->Err_0@,
            })
        },
        EndpointReply::Refused { status, body } => {
            let named = json_text_member(
                match body {
                    Some(text) => text@,
                    None => "<unreadable>"@,
                },
                "error"@,
            );
            let refused = "token endpoint returned HTTP "@ + status_display(status) + " for `"@
                + name;
            let reason = if named is Some && of_section_5_2(named->0) {
                refused + "` (error: "@ + named->0 + ")"@
            } else {
                refused + "`"@
            };
            if status == 429 {
                fault == (CredentialFault::Throttled { reason })
            } else if 400 <= status <= 499 {
                fault == (CredentialFault::Misconfigured { reason })
            } else {
                fault == (CredentialFault::Backend { reason })
            }
        },
    }
}

/// When a token request ends without a token, be it that the endpoint could
/// not be reached, refused, or answered what cannot be read, nothing changes.
/// Where a token is cached and less than five minutes past its expiry, the
/// answer hands it out, and notes the failure; else the answer is the failure.
/// Either way it counts as a failed refresh.
pub proof fn failure_falls_back_on_the_cached_token(
    before: PluginView,
    name: Seq<char>,
    reply: EndpointReply,
    now: int,
    after: PluginView,
    action: ActionView,
)
    requires
        issue_step(before, name, IssueEvent::FetchCompleted(reply), now, after, action),
        by_name(before.providers).contains_key(name),
        !(reply is Granted && reply->response is Ok),
    ensures
        after == before,
        action matches ActionView::Finish(answer) && {
            &&& answer.counter == Some(Counter::RefreshError)
            &&& before.tokens.contains_key(name) && now < before.tokens[name].expires_at
                + 300_000_000_000 ==> {
                &&& answer.result is Ok
                &&& hands_out(answer.result->Ok_0, before.tokens[name], now)
                &&& answer.masked is Some
                &&& tells(answer.masked->0, name, reply)
            }
            &&& !before.tokens.contains_key(name) || now >= before.tokens[name].expires_at
                + 300_000_000_000 ==> {
                &&& answer.result is Err
                &&& tells(answer.result->Err_0, name, reply)
                &&& answer.masked is None
            }
        },
{
    reveal_strlit("access_token");
    reveal_strlit("token_type");
    assert("access_token"@.len() != "token_type"@.len());
}

/// Where part `i` starts in a text of parts with one character between each two.
pub open spec fn start_of(parts: Seq<Seq<char>>, i: int) -> int
    decreases i,
{
    if i <= 0 {
        0
    } else {
        start_of(parts, i - 1) + parts[i - 1].len() + 1
    }
}

/// `text` is made up of `parts`, all of them and in order, with one space
/// between each two and nothing else.
pub open spec fn spaced_out(text: Seq<char>, parts: Seq<Seq<char>>) -> bool {
    &&& text.len() + 1 == start_of(parts, parts.len() as int)
    &&& forall|i: int|
        0 <= i < parts.len() ==> {
            &&& 0 <= #[trigger] start_of(parts, i)
            &&& start_of(parts, i) + parts[i].len() <= text.len()
            &&& text.subrange(start_of(parts, i), start_of(parts, i) + parts[i].len()) == parts[i]
            &&& i > 0 ==> text[start_of(parts, i) - 1] == ' '
        }
}

/// What stands between the spaces of `text`.
pub open spec fn between_spaces(text: Seq<char>) -> Seq<Seq<char>>
    decreases text.len(),
{
    if text.len() == 0 {
        seq![Seq::empty()]
    } else {
        let rest = between_spaces(text.drop_last());
        if text.last() == ' ' {
            rest.push(Seq::empty())
        } else {
            rest.drop_last().push(rest.last().push(text.last()))
        }
    }
}

/// No space is in `text`.
pub open spec fn without_space(text: Seq<char>) -> bool {
    forall|i: int| 0 <= i < text.len() ==> #[trigger] text[i] != ' '
}

proof fn between_spaces_after_space(front: Seq<char>, word: Seq<char>)
    requires
        without_space(word),
    ensures
        between_spaces(front + seq![' '] + word) == between_spaces(front).push(word),
        between_spaces(front).len() > 0,
    decreases word.len(),
{
    let text = front + seq![' '] + word;
    if word.len() == 0 {
        assert(text =~= front.push(' '));
        assert(text.drop_last() =~= front);
        assert(word =~= Seq::empty());
        some_piece(front);
    } else {
        between_spaces_after_space(front, word.drop_last());
        assert(text.drop_last() =~= front + seq![' '] + word.drop_last());
        assert(word[word.len() - 1] != ' ');
        let rest = between_spaces(text.drop_last());
        assert(rest.drop_last() =~= between_spaces(front));
        assert(word =~= word.drop_last().push(word.last()));
    }
}

proof fn some_piece(text: Seq<char>)
    ensures
        between_spaces(text).len() > 0,
    decreases text.len(),
{
    if text.len() > 0 {
        some_piece(text.drop_last());
    }
}

proof fn between_spaces_of_word(word: Seq<char>)
    requires
        without_space(word),
    ensures
        between_spaces(word) == seq![word],
    decreases word.len(),
{
    if word.len() == 0 {
        assert(word =~= Seq::empty());
    } else {
        between_spaces_of_word(word.drop_last());
        assert(word[word.len() - 1] != ' ');
        assert(word =~= word.drop_last().push(word.last()));
        assert(between_spaces(word) =~= seq![word]);
    }
}

/// Parts joined by spaces stand in the text whole and in order, with one space
/// between each two. Where no part holds a space, what stands between the
/// spaces of the text is the parts.
pub proof fn joined_parts_can_be_told_apart(parts: Seq<Seq<char>>)
    requires
        parts.len() > 0,
    ensures
        spaced_out(joined(parts, " "@, parts.len()), parts),
        (forall|i: int| 0 <= i < parts.len() ==> without_space(#[trigger] parts[i]))
            ==> between_spaces(joined(parts, " "@, parts.len())) == parts,
{
    joined_prefix(parts, parts.len());
    let text = joined(parts, " "@, parts.len());
    assert(parts.take(parts.len() as int) =~= parts);
}

proof fn starts_ascend(parts: Seq<Seq<char>>, i: int, n: int)
    requires
        0 <= i <= n <= parts.len(),
    ensures
        0 <= start_of(parts, i) <= start_of(parts, n),
        i < n ==> start_of(parts, i) + parts[i].len() + 1 <= start_of(parts, n),
    decreases n,
{
    if i < n {
        starts_ascend(parts, i, n - 1);
    } else if i > 0 {
        starts_ascend(parts, i - 1, n - 1);
    }
}

proof fn joined_prefix(parts: Seq<Seq<char>>, n: nat)
    requires
        0 < n <= parts.len(),
    ensures
        joined(parts, " "@, n).len() + 1 == start_of(parts, n as int),
        forall|i: int|
            0 <= i < n ==> {
                &&& 0 <= #[trigger] start_of(parts, i)
                &&& start_of(parts, i) + parts[i].len() <= joined(parts, " "@, n).len()
                &&& joined(parts, " "@, n).subrange(
                    start_of(parts, i),
                    start_of(parts, i) + parts[i].len(),
                ) == parts[i]
                &&& i > 0 ==> joined(parts, " "@, n)[start_of(parts, i) - 1] == ' '
            },
        (forall|i: int| 0 <= i < n ==> without_space(#[trigger] parts[i])) ==> between_spaces(
            joined(parts, " "@, n),
        ) == parts.take(n as int),
    decreases n,
{
    reveal_strlit(" ");
    assert(" "@ =~= seq![' ']);
    let text = joined(parts, " "@, n);
    if n == 1 {
        assert(text == parts[0]);
        assert(start_of(parts, 0) == 0);
        assert(start_of(parts, 1) == start_of(parts, 0) + parts[0].len() + 1);
        assert(text.subrange(0, parts[0].len() as int) =~= parts[0]);
        if forall|i: int| 0 <= i < n ==> without_space(#[trigger] parts[i]) {
            assert(without_space(parts[0]));
            between_spaces_of_word(parts[0]);
            assert(parts.take(1) =~= seq![parts[0]]);
        }
    } else {
        let m = (n - 1) as nat;
        joined_prefix(parts, m);
        let front = joined(parts, " "@, m);
        assert(text == front + " "@ + parts[n - 1]);
        assert(start_of(parts, n as int) == start_of(parts, n - 1) + parts[n - 1].len() + 1);
        assert forall|i: int| 0 <= i < n implies {
            &&& 0 <= #[trigger] start_of(parts, i)
            &&& start_of(parts, i) + parts[i].len() <= text.len()
            &&& text.subrange(start_of(parts, i), start_of(parts, i) + parts[i].len()) == parts[i]
            &&& i > 0 ==> text[start_of(parts, i) - 1] == ' '
        } by {
            starts_ascend(parts, i, m as int);
            let from = start_of(parts, i);
            let to = from + parts[i].len();
            if i < m {
                assert(text.subrange(from, to) =~= front.subrange(from, to));
                if i > 0 {
                    starts_ascend(parts, i - 1, i);
                    assert(text[from - 1] == front[from - 1]);
                }
            } else {
                assert(from == front.len() + 1);
                assert(text.subrange(from, to) =~= parts[i]);
            }
        }
        if forall|i: int| 0 <= i < n ==> without_space(#[trigger] parts[i]) {
            assert(without_space(parts[n - 1]));
            between_spaces_after_space(front, parts[n - 1]);
            assert(parts.take(n as int) =~= parts.take(m as int).push(parts[n - 1]));
        }
    }
}

/// `request` asks `provider` for a token: it goes to the token endpoint of the
/// provider within its timeout, and carries its grant type, its client, its
/// secret and, where there are any, all its scopes.
pub open spec fn asks_for_token(request: RequestView, provider: ProviderView) -> bool {
    &&& request.url == provider.token_url
    &&& request.timeout_ms == provider.timeout_ms
    &&& request.form.len() == if provider.scopes.len() == 0 {
        3int
    } else {
        4int
    }
    &&& request.form[0] == ("grant_type"@, provider.grant_type)
    &&& request.form[1] == ("client_id"@, provider.client_id)
    &&& request.form[2] == ("client_secret"@, provider.client_secret)
    &&& provider.scopes.len() > 0 ==> {
        &&& request.form[3].0 == "scope"@
        &&& spaced_out(request.form[3].1, provider.scopes)
        &&& (forall|i: int|
            0 <= i < provider.scopes.len() ==> without_space(#[trigger] provider.scopes[i]))
            ==> between_spaces(request.form[3].1) == provider.scopes
    }
}

/// The request for a provider asks that provider for a token. The scopes that
/// it names, read off between the spaces, are those of the provider, however
/// many there are.
pub proof fn request_asks_for_token(provider: ProviderView)
    ensures
        asks_for_token(request_for(provider), provider),
{
    if provider.scopes.len() > 0 {
        joined_parts_can_be_told_apart(provider.scopes);
    }
}

/// One step of a request: what has happened to it and when, and what is done next.
pub struct Step {
    pub name: Seq<char>,
    pub event: IssueEvent,
    pub now: int,
    pub action: ActionView,
}

/// `states` lists the states of the issuer, `steps` what leads from each to the next.
pub open spec fn is_run(states: Seq<PluginView>, steps: Seq<Step>) -> bool {
    &&& states.len() == steps.len() + 1
    &&& forall|i: int|
        0 <= i < steps.len() ==> issue_step(
            states[i],
            (#[trigger] steps[i]).name,
            steps[i].event,
            steps[i].now,
            states[i + 1],
            steps[i].action,
        )
}

/// How many token requests the first `n` steps send for `name`.
pub open spec fn sent(steps: Seq<Step>, name: Seq<char>, n: int) -> nat
    decreases n,
{
    if n <= 0 {
        0
    } else if steps[n - 1].name == name && steps[n - 1].action is Fetch {
        sent(steps, name, n - 1) + 1
    } else {
        sent(steps, name, n - 1)
    }
}

/// After the first `n` steps a token request for `name` is under way.
pub open spec fn under_way(steps: Seq<Step>, name: Seq<char>, n: int) -> bool
    decreases n,
{
    if n <= 0 {
        false
    } else if steps[n - 1].name == name && steps[n - 1].action is Fetch {
        true
    } else if steps[n - 1].name == name && steps[n - 1].event is FetchCompleted {
        false
    } else {
        under_way(steps, name, n - 1)
    }
}

/// The guard of `name` is held by one request at a time: none gets it while a
/// token request is under way, and only what was sent completes.
pub open spec fn guarded(steps: Seq<Step>, name: Seq<char>) -> bool {
    forall|i: int|
        0 <= i < steps.len() && (#[trigger] steps[i]).name == name ==> {
            &&& steps[i].event is GuardAcquired ==> !under_way(steps, name, i)
            &&& steps[i].event is FetchCompleted ==> under_way(steps, name, i)
        }
}

/// Step `i` completes a token request for `name`.
pub open spec fn completes(steps: Seq<Step>, name: Seq<char>, i: int) -> bool {
    0 <= i < steps.len() && steps[i].name == name && steps[i].event is FetchCompleted
}

/// The response that a completed step brings.
pub open spec fn brought(step: Step) -> TokenResponse {
    step.event->FetchCompleted_0->response->Ok_0
}

/// What comes in at the token endpoint of `name`, as the steps tell it, are
/// tokens that are not due for a refresh at any of the steps; and at the start
/// no token may be served at any of them.
pub open spec fn lasts(states: Seq<PluginView>, steps: Seq<Step>, name: Seq<char>) -> bool {
    let buffer = by_name(states[0].providers)[name].refresh_buffer_ms;
    &&& forall|j: int, i: int|
        #[trigger] completes(steps, name, j) && 0 <= i < steps.len() ==> {
            &&& steps[j].event->FetchCompleted_0 is Granted
            &&& steps[j].event->FetchCompleted_0->response is Ok
            &&& (#[trigger] steps[i]).now < due_at(brought(steps[j]), buffer, steps[j].now)
        }
    &&& forall|i: int|
        0 <= i < steps.len() && states[0].tokens.contains_key(name)
            ==> states[0].tokens[name].refresh_at <= (#[trigger] steps[i]).now
}

/// However the steps of any number of requests, for this provider and for
/// others, follow upon each other: with the guard held by one at a time, one
/// token request at most goes out for `name` while the token that it brings
/// lasts, and one does go out as soon as any request gets the guard. Every
/// answer for `name` carries the token that this request brought.
pub proof fn guarded_requests_share_one_fetch(
    states: Seq<PluginView>,
    steps: Seq<Step>,
    name: Seq<char>,
)
    requires
        is_run(states, steps),
        guarded(steps, name),
        by_name(states[0].providers).contains_key(name),
        lasts(states, steps, name),
    ensures
        sent(steps, name, steps.len() as int) <= 1,
        forall|i: int|
            0 <= i < steps.len() && (#[trigger] steps[i]).name == name
                && steps[i].event is GuardAcquired ==> sent(steps, name, steps.len() as int) == 1,
        forall|i: int|
            0 <= i < steps.len() && (#[trigger] steps[i]).name == name && steps[i].action is Finish
                ==> {
                let answer = steps[i].action->Finish_0;
                &&& answer.result is Ok
                &&& exists|j: int| #[trigger]
                    completes(steps, name, j) && j <= i && answer.result->Ok_0.value == Some(
                        brought(steps[j]).access_token@,
                    )
            },
        forall|j: int, k: int| #[trigger]
            completes(steps, name, j) && #[trigger] completes(steps, name, k) ==> j == k,
{
    let n = steps.len() as int;
    run_state(states, steps, name, n);
    assert forall|i: int|
        0 <= i < steps.len() && (#[trigger] steps[i]).name == name
            && steps[i].event is GuardAcquired implies sent(steps, name, n) == 1 by {
        run_state(states, steps, name, i);
        run_state(states, steps, name, i + 1);
        run_step(states, steps, name, i);
        sent_never_shrinks(steps, name, i + 1, n);
    }
    assert forall|i: int|
        0 <= i < steps.len() && (#[trigger] steps[i]).name == name
            && steps[i].action is Finish implies {
        let answer = steps[i].action->Finish_0;
        &&& answer.result is Ok
        &&& exists|j: int| #[trigger]
            completes(steps, name, j) && j <= i && answer.result->Ok_0.value == Some(
                brought(steps[j]).access_token@,
            )
    } by {
        run_state(states, steps, name, i);
        run_step(states, steps, name, i);
        if steps[i].event is FetchCompleted {
            assert(completes(steps, name, i));
        }
    }
}

/// What one step of a guarded run does, seen from `name`.
proof fn run_step(states: Seq<PluginView>, steps: Seq<Step>, name: Seq<char>, i: int)
    requires
        is_run(states, steps),
        0 <= i < steps.len(),
        by_name(states[i].providers).contains_key(name),
        by_name(states[i].providers)[name] == by_name(states[0].providers)[name],
        lasts(states, steps, name),
    ensures
        states[i + 1].providers == states[i].providers,
        !completes(steps, name, i) ==> {
            &&& states[i + 1].tokens.contains_key(name) == states[i].tokens.contains_key(name)
            &&& states[i + 1].tokens[name] == states[i].tokens[name]
        },
        completes(steps, name, i) ==> {
            &&& steps[i].action is Finish
            &&& steps[i].action->Finish_0.result is Ok
            &&& steps[i].action->Finish_0.result->Ok_0.value == Some(
                brought(steps[i]).access_token@,
            )
            &&& states[i + 1].tokens.contains_key(name)
            &&& states[i + 1].tokens[name].access_token == brought(steps[i]).access_token@
            &&& states[i + 1].tokens[name].refresh_at == due_at(
                brought(steps[i]),
                by_name(states[0].providers)[name].refresh_buffer_ms,
                steps[i].now,
            )
        },
        steps[i].name == name && !(steps[i].event is FetchCompleted) ==> {
            let token = states[i].tokens[name];
            if states[i].tokens.contains_key(name) && steps[i].now < token.refresh_at {
                &&& steps[i].action is Finish
                &&& steps[i].action->Finish_0.result is Ok
                &&& steps[i].action->Finish_0.result->Ok_0.value == Some(token.access_token)
            } else {
                &&& !(steps[i].action is Finish)
                &&& steps[i].action is Fetch <==> steps[i].event is GuardAcquired
            }
        },
{
    let step = steps[i];
    if step.name == name {
        if step.event is FetchCompleted {
            assert(completes(steps, name, i));
            granted_token_is_cached_and_handed_out(
                states[i],
                name,
                brought(step),
                step.now,
                states[i + 1],
                step.action,
            );
        } else if states[i].tokens.contains_key(name) && step.now
            < states[i].tokens[name].refresh_at {
            fresh_token_answers(states[i], name, step.event, step.now, states[i + 1], step.action);
        } else {
            without_fresh_token_a_request_goes_on(
                states[i],
                name,
                step.event,
                step.now,
                states[i + 1],
                step.action,
            );
        }
    } else {
        step_touches_only_its_provider(
            states[i],
            step.name,
            step.event,
            step.now,
            states[i + 1],
            step.action,
        );
    }
}

/// The state after `n` steps of a guarded run: nothing sent yet, or one request
/// under way, or its token there, brought by the only step that completes.
proof fn run_state(states: Seq<PluginView>, steps: Seq<Step>, name: Seq<char>, n: int)
    requires
        is_run(states, steps),
        guarded(steps, name),
        by_name(states[0].providers).contains_key(name),
        lasts(states, steps, name),
        0 <= n <= steps.len(),
    ensures
        states[n].providers == states[0].providers,
        sent(steps, name, n) <= 1,
        under_way(steps, name, n) ==> sent(steps, name, n) == 1,
        under_way(steps, name, n) || sent(steps, name, n) == 0 ==> {
            &&& states[n].tokens.contains_key(name) == states[0].tokens.contains_key(name)
            &&& states[n].tokens[name] == states[0].tokens[name]
            &&& forall|j: int| #[trigger] completes(steps, name, j) ==> j >= n
        },
        !under_way(steps, name, n) && sent(steps, name, n) == 1 ==> exists|j: int|
            {
                &&& #[trigger] completes(steps, name, j)
                &&& j < n
                &&& states[n].tokens.contains_key(name)
                &&& states[n].tokens[name].access_token == brought(steps[j]).access_token@
                &&& states[n].tokens[name].refresh_at == due_at(
                    brought(steps[j]),
                    by_name(states[0].providers)[name].refresh_buffer_ms,
                    steps[j].now,
                )
                &&& forall|k: int| #[trigger] completes(steps, name, k) && k < n ==> k == j
            },
    decreases n,
{
    if n > 0 {
        let i = n - 1;
        run_state(states, steps, name, i);
        run_step(states, steps, name, i);
        let step = steps[i];
        assert(completes(steps, name, i) <==> step.name == name && step.event is FetchCompleted);
        if completes(steps, name, i) {
            assert(under_way(steps, name, i));
            assert forall|k: int| #[trigger] completes(steps, name, k) && k < n implies k == i by {}
        } else if !under_way(steps, name, i) && sent(steps, name, i) == 1 {
            let j = choose|j: int|
                {
                    &&& #[trigger] completes(steps, name, j)
                    &&& j < i
                    &&& states[i].tokens.contains_key(name)
                    &&& states[i].tokens[name].access_token == brought(steps[j]).access_token@
                    &&& states[i].tokens[name].refresh_at == due_at(
                        brought(steps[j]),
                        by_name(states[0].providers)[name].refresh_buffer_ms,
                        steps[j].now,
                    )
                    &&& forall|k: int| #[trigger] completes(steps, name, k) && k < i ==> k == j
                };
            assert(completes(steps, name, j));
            assert(steps[i].now < due_at(
                brought(steps[j]),
                by_name(states[0].providers)[name].refresh_buffer_ms,
                steps[j].now,
            ));
            assert forall|k: int| #[trigger] completes(steps, name, k) && k < n implies k == j by {
                if k == i {
                }
            }
        }
    }
}

proof fn sent_never_shrinks(steps: Seq<Step>, name: Seq<char>, from: int, to: int)
    requires
        0 <= from <= to,
    ensures
        sent(steps, name, from) <= sent(steps, name, to),
    decreases to,
{
    if from < to {
        sent_never_shrinks(steps, name, from, to - 1);
    }
}

/// The token of a response: the whole access token, of the type that the
/// response names, or `Bearer`; it expires at the end of its lifetime, and is
/// due for a refresh by the buffer ahead of that.
pub proof fn token_is_that_of_the_response(
    response: TokenResponse,
    refresh_buffer_ms: nat,
    now: int,
    issued_at: Seq<char>,
)
    ensures
        ({
            let token = token_of(response, refresh_buffer_ms as int, now, issued_at);
            &&& token.access_token == response.access_token@
            &&& response.token_type matches Some(named) ==> token.token_type == named@
            &&& response.token_type is None ==> token.token_type == "Bearer"@
            &&& token.expires_at == now + seconds_to_live(response) * 1_000_000_000
            &&& token.refresh_at == due_at(response, refresh_buffer_ms, now)
            &&& token.issued_at == issued_at
        }),
{
}

/// A token is fresh until it is due for a refresh, its grace ends five minutes
/// after it expires, and the credential made of it hands it out whole.
pub proof fn token_serves_until_it_is_due(token: TokenView, now: int)
    ensures
        token.fresh_at(now) <==> now < token.refresh_at,
        token.in_grace_at(now) <==> now < token.expires_at + 300_000_000_000,
        hands_out(token.issued(now), token, now),
{
    reveal_strlit("access_token");
    reveal_strlit("token_type");
    assert("access_token"@.len() != "token_type"@.len());
}

/// The clock counts seconds in 63 bits: it can express the expiry of a token
/// unless that is later than the last nanosecond of its last second.
pub proof fn clock_counts_63_bits_of_seconds(response: TokenResponse, now: int)
    ensures
        response.expiry_fits(now) <==> now + seconds_to_live(response) * 1_000_000_000
            < 9_223_372_036_854_775_808 * 1_000_000_000,
{
}

/// Of all that can happen to a request, only these are not provided for: a
/// refusal whose status is one of success or none that HTTP knows, and a token
/// that expires later than the clock can express.
pub proof fn nearly_everything_is_provided_for(event: IssueEvent, now: int)
    ensures
        event.admissible(now) <==> match event {
            IssueEvent::Requested => true,
            IssueEvent::GuardAcquired => true,
            IssueEvent::FetchCompleted(EndpointReply::Unreachable { error }) => true,
            IssueEvent::FetchCompleted(EndpointReply::Refused { status, body }) => 100 <= status
                <= 199 || 300 <= status <= 999,
            IssueEvent::FetchCompleted(EndpointReply::Granted { response: Err(error) }) => true,
            IssueEvent::FetchCompleted(EndpointReply::Granted { response: Ok(granted) }) => now
                + seconds_to_live(granted) * 1_000_000_000 < 9_223_372_036_854_775_808
                * 1_000_000_000,
        },
        event matches IssueEvent::FetchCompleted(reply) ==> (event.admissible(now)
            <==> reply.admissible(now)),
{
}

/// What is fetched is the token of a response that was granted, with the
/// buffer of that very provider, and the failure of any other reply.
pub proof fn fetch_gives_the_granted_token(
    name: Seq<char>,
    provider: ProviderView,
    reply: EndpointReply,
    now: int,
    fetched: Result<TokenView, CredentialFault>,
)
    requires
        fetched_from(name, provider, reply, now, fetched),
    ensures
        reply is Granted && reply->response is Ok ==> {
            let response = reply->response->Ok_0;
            &&& fetched is Ok
            &&& fetched->Ok_0.access_token == response.access_token@
            &&& response.token_type matches Some(named) ==> fetched->Ok_0.token_type == named@
            &&& response.token_type is None ==> fetched->Ok_0.token_type == "Bearer"@
            &&& fetched->Ok_0.expires_at == now + seconds_to_live(response) * 1_000_000_000
            &&& fetched->Ok_0.refresh_at == due_at(response, provider.refresh_buffer_ms, now)
            &&& stamped(fetched->Ok_0.issued_at)
        },
        !(reply is Granted && reply->response is Ok) ==> {
            &&& fetched is Err
            &&& tells(fetched->Err_0, name, reply)
        },
{
}

/// Whatever the endpoint replies, a token without a fault comes of a granted
/// response alone, and the fault of any other reply is the one that tells of it.
pub proof fn every_other_reply_is_a_fault(name: Seq<char>, reply: EndpointReply)
    ensures
        fetch_fault(name, reply) is None <==> reply is Granted && reply->response is Ok,
        fetch_fault(name, reply) matches Some(fault) ==> tells(fault, name, reply),
{
}

/// A refusal is reported by its status as it reads, by the provider, and by
/// the code that it names where that is one of the standard ones; and the
/// status decides of what kind the fault is.
pub proof fn refusal_is_told_by_its_status(
    name: Seq<char>,
    status: u16,
    reads: Seq<char>,
    named: Option<Seq<char>>,
    body: Option<String>,
)
    ensures
        ({
            let fault = refusal_kind(
                status as int,
                refusal_reason(name, reads, shown_code(named)),
            );
            let refused = "token endpoint returned HTTP "@ + reads + " for `"@ + name;
            &&& fault.reason() == if named is Some && of_section_5_2(named->0) {
                refused + "` (error: "@ + named->0 + ")"@
            } else {
                refused + "`"@
            }
            &&& fault is Throttled <==> status == 429
            &&& fault is Misconfigured <==> 400 <= status < 429 || 429 < status < 500
            &&& fault is Backend <==> status < 400 || 500 <= status
        }),
        named matches Some(code) ==> (standard_code(code) <==> of_section_5_2(code)),
        body matches Some(text) ==> body_text(body) == text@,
        body is None ==> body_text(body) == "<unreadable>"@,
{
}

/// A fetched token is put in place of the cached one, and handed out; a
/// failure changes nothing, and has the cached token handed out as long as it
/// is less than five minutes past its expiry.
pub proof fn refresh_is_settled_by_what_was_fetched(
    plugin: PluginView,
    name: Seq<char>,
    fetched: Result<TokenView, CredentialFault>,
    now: int,
)
    ensures
        ({
            let after = after_fetch(plugin, name, fetched);
            let answer = outcome_of(plugin.tokens, name, fetched, now);
            let stands_in = plugin.tokens.contains_key(name) && now
                < plugin.tokens[name].expires_at + 300_000_000_000;
            match fetched {
                Ok(token) => {
                    &&& after.manifest == plugin.manifest
                    &&& after.providers == plugin.providers
                    &&& after.tokens == plugin.tokens.insert(name, token)
                    &&& answer.result is Ok
                    &&& hands_out(answer.result->Ok_0, token, now)
                    &&& answer.counter == Some(Counter::Refresh)
                    &&& answer.masked is None
                },
                Err(fault) => {
                    &&& after == plugin
                    &&& answer.counter == Some(Counter::RefreshError)
                    &&& stands_in ==> {
                        &&& answer.result is Ok
                        &&& hands_out(answer.result->Ok_0, plugin.tokens[name], now)
                        &&& answer.masked == Some(fault)
                    }
                    &&& !stands_in ==> {
                        &&& answer.result is Err
                        &&& answer.result->Err_0 == fault
                        &&& answer.masked is None
                    }
                },
            }
        }),
{
    reveal_strlit("access_token");
    reveal_strlit("token_type");
    assert("access_token"@.len() != "token_type"@.len());
}

/// In an issuer in order a token belongs to a configured provider and is due
/// for a refresh no later than it expires. One without tokens is in order.
pub proof fn order_is_about_tokens(plugin: PluginView, name: Seq<char>)
    ensures
        in_order(plugin) && plugin.tokens.contains_key(name) ==> {
            &&& by_name(plugin.providers).contains_key(name)
            &&& plugin.tokens[name].refresh_at <= plugin.tokens[name].expires_at
        },
        (forall|other: Seq<char>| !#[trigger] plugin.tokens.contains_key(other)) ==> in_order(
            plugin,
        ),
        !no_tokens().contains_key(name),
{
}

/// Each counter is reported under a name of its own, to the letter.
pub proof fn counters_bear_their_names()
    ensures
        Counter::CacheHit.reported_as() == "mcpg_oauth_token_cache_hit_total"@,
        Counter::Refresh.reported_as() == "mcpg_oauth_token_refresh_total"@,
        Counter::RefreshError.reported_as() == "mcpg_oauth_token_refresh_error_total"@,
{
}

/// The manifest says which plugin this is, in which version, and of which
/// crate, and claims nothing besides.
pub proof fn manifest_says_who_issues(
    manifest: PluginManifest,
    version: Seq<char>,
    built_from: Seq<char>,
)
    requires
        manifest.presents(version, built_from),
    ensures
        manifest.id@ == "dev.mcpg.credential.oauth-client-credentials"@,
        manifest.version@ == version,
        manifest.name@ == "OAuth 2.0 Client Credentials Issuer"@,
        manifest.plugin_class == PluginClass::CredentialIssuer,
        manifest.protocol_version@ == "1.0"@,
        root_segment(built_from, manifest.module_path_prefix@),
        manifest.license is None,
        manifest.backend_profile is None,
        manifest.required_capabilities@ == Seq::<String>::empty(),
        manifest.tags@ == Seq::<String>::empty(),
        manifest.provides@ == Seq::<String>::empty(),
        manifest.provides_schemes@ == Seq::<String>::empty(),
{
}

/// What is known of a token request is where it goes, how long it may take,
/// and each field of its form, in order.
pub proof fn request_shows_its_fields(request: TokenRequest)
    ensures
        request@.url == request.url@,
        request@.timeout_ms == request.timeout_ms,
        request@.form.len() == request.form@.len(),
        forall|i: int|
            0 <= i < request.form@.len() ==> {
                &&& (#[trigger] request@.form[i]).0 == request.form@[i].0@
                &&& request@.form[i].1 == request.form@[i].1@
            },
{
}

/// What is known of an error is of what kind it is, and its words.
pub proof fn error_shows_its_words(error: CredentialError)
    ensures
        match error {
            CredentialError::Misconfigured { reason } => error@ is Misconfigured && error@.reason()
                == reason@,
            CredentialError::Throttled { reason } => error@ is Throttled && error@.reason()
                == reason@,
            CredentialError::Backend { reason } => error@ is Backend && error@.reason() == reason@,
        },
{
}

/// What is known of a credential is each of its fields, and of its parts and
/// its metadata what stands under each name.
pub proof fn credential_shows_its_fields(issued: IssuedCredential)
    ensures
        issued.value matches Some(value) ==> issued@.value == Some(value@),
        issued.value is None ==> issued@.value is None,
        issued@.parts == by_name(issued.parts@),
        issued@.ttl_seconds == issued.ttl_seconds,
        issued.lease_id matches Some(lease) ==> issued@.lease_id == Some(lease@),
        issued.lease_id is None ==> issued@.lease_id is None,
        issued@.issued_at == issued.issued_at@,
        issued@.metadata == by_name(issued.metadata@),
{
}

/// What is known of an optional text is the text, where there is one.
pub proof fn optional_text_is_the_text(text: Option<String>)
    ensures
        text is None <==> optional_text(text) is None,
        text matches Some(held) ==> optional_text(text) == Some(held@),
{
}

/// What is known of a fetch is the token or the error that it gave.
pub proof fn fetch_shows_what_it_gave(fetched: Result<CachedToken, CredentialError>)
    ensures
        fetched matches Ok(token) ==> fetched_view(fetched) == Ok::<TokenView, CredentialFault>(
            token@,
        ),
        fetched matches Err(error) ==> fetched_view(fetched) == Err::<TokenView, CredentialFault>(
            error@,
        ),
{
}

/// What is known of an answer is the credential or the error, the counter, and
/// the failure that is passed over.
pub proof fn answer_shows_its_fields(outcome: IssueOutcome)
    ensures
        outcome.result matches Ok(issued) ==> outcome@.result == Ok::<IssuedView, CredentialFault>(
            issued@,
        ),
        outcome.result matches Err(error) ==> outcome@.result == Err::<IssuedView, CredentialFault>(
            error@,
        ),
        outcome@.counter == outcome.counter,
        outcome.masked matches Some(error) ==> outcome@.masked == Some(error@),
        outcome.masked is None ==> outcome@.masked is None,
{
}

/// What is known of an action is which it is, and the answer or the request.
pub proof fn action_shows_what_is_to_be_done(action: IssueAction)
    ensures
        action matches IssueAction::Finish(outcome) ==> action@ == ActionView::Finish(outcome@),
        action is AcquireGuard ==> action@ is AcquireGuard,
        action matches IssueAction::Fetch(request) ==> action@ == ActionView::Fetch(request@),
{
}

} // verus!
