//! Which configurations are accepted, what they set up, and what is said of
//! the others, in terms of what the document holds.

use vstd::prelude::*;
use vstd::string::*;

use crate::config::config_fault;
use crate::config::fault_message;
use crate::config::parsed;
use crate::config::provider_fault;
use crate::config::ConfigDocument;
use crate::config::ConfigError;
use crate::config::ConfigFault;
use crate::config::OAuthConfig;
use crate::config::ProviderConfig;
use crate::config::ProviderDocument;
use crate::config::ProviderView;
use crate::laws::accepted_exactly_if_all_obey;
use crate::laws::first_offender_is_reported;
use crate::name_map::by_name;
use crate::name_map::by_name_contains;
use crate::name_map::by_name_of_ascending;
use crate::name_map::in_name_order;
use crate::name_map::name_order_exists;
use crate::name_map::pairs_view;
use crate::plugin::refusal_to_load;
use crate::text::decimal;
use crate::text::precedes;
use crate::text::precedes_is_irreflexive;
use crate::text::precedes_is_transitive;
use crate::text_guarantees::blank_text_is_all_white;
use crate::text_guarantees::prefix_and_rest_make_the_text;
use crate::text_guarantees::white_codes;

verus! {

/// Some character of `text` is no white space.
pub open spec fn says_something(text: Seq<char>) -> bool {
    exists|i: int| 0 <= i < text.len() && !white_codes().contains(#[trigger] text[i] as int)
}

/// `text` is `start` with something, or nothing, after it.
pub open spec fn begins_with(text: Seq<char>, start: Seq<char>) -> bool {
    exists|rest: Seq<char>| text == #[trigger] (start + rest)
}

/// `url` is that of an HTTP endpoint.
pub open spec fn over_http(url: Seq<char>) -> bool {
    begins_with(url, "http://"@) || begins_with(url, "https://"@)
}

/// A token can be asked for as `provider` says: there is an HTTP endpoint, a
/// client and a secret, the grant type is the supported one, the timeout is
/// between a tenth of a second and a minute, and the refresh buffer is no more
/// than ten minutes.
pub open spec fn usable(provider: ProviderView) -> bool {
    &&& says_something(provider.token_url)
    &&& over_http(provider.token_url)
    &&& says_something(provider.client_id)
    &&& provider.client_secret.len() > 0
    &&& provider.grant_type == "client_credentials"@
    &&& 100 <= provider.timeout_ms <= 60_000
    &&& provider.refresh_buffer_ms <= 600_000
}

/// `fault` tells of the provider `name` what is wrong with it, and nothing
/// that is asked of a provider before that is wrong.
pub open spec fn is_at_fault(fault: ConfigFault, name: Seq<char>, provider: ProviderView) -> bool {
    let endpoint = says_something(provider.token_url) && over_http(provider.token_url);
    let client = endpoint && says_something(provider.client_id) && provider.client_secret.len() > 0;
    match fault {
        ConfigFault::InvalidJson { detail } => false,
        ConfigFault::EmptyProviders => false,
        ConfigFault::EmptyTokenUrl { name: told } => told == name && !says_something(
            provider.token_url,
        ),
        ConfigFault::InvalidTokenUrlScheme { name: told } => told == name && says_something(
            provider.token_url,
        ) && !over_http(provider.token_url),
        ConfigFault::EmptyClientId { name: told } => told == name && endpoint && !says_something(
            provider.client_id,
        ),
        ConfigFault::EmptyClientSecret { name: told } => told == name && endpoint
            && says_something(provider.client_id) && provider.client_secret.len() == 0,
        ConfigFault::UnsupportedGrantType { name: told, grant_type } => told == name && client
            && grant_type == provider.grant_type && grant_type != "client_credentials"@,
        ConfigFault::InvalidTimeoutMs { name: told, timeout } => told == name && client
            && provider.grant_type == "client_credentials"@ && timeout == provider.timeout_ms && (
        timeout < 100 || timeout > 60_000),
        ConfigFault::InvalidRefreshBufferMs { name: told, buffer } => told == name && client
            && provider.grant_type == "client_credentials"@ && 100 <= provider.timeout_ms <= 60_000
            && buffer == provider.refresh_buffer_ms && buffer > 600_000,
    }
}

/// A provider obeys the rules exactly if it is usable, and of one that does
/// not the fault tells the first thing that is wrong with it.
pub proof fn rules_are_about_use(name: Seq<char>, provider: ProviderView)
    ensures
        provider_fault(name, provider) is None <==> usable(provider),
        forall|fault: ConfigFault|
            provider_fault(name, provider) == Some(fault) <==> #[trigger] is_at_fault(
                fault,
                name,
                provider,
            ),
{
    blank_text_is_all_white(provider.token_url);
    blank_text_is_all_white(provider.client_id);
    prefix_and_rest_make_the_text(provider.token_url, "http://"@);
    prefix_and_rest_make_the_text(provider.token_url, "https://"@);
}

/// `provider` is what `written` says: each field as it stands there, and one
/// that is left out as follows: no scopes, the grant of client credentials, a
/// refresh buffer of a minute, and a timeout of five seconds.
pub open spec fn as_written(provider: ProviderView, written: ProviderDocument) -> bool {
    &&& provider.token_url == written.token_url@
    &&& provider.client_id == written.client_id@
    &&& provider.client_secret == written.client_secret@
    &&& written.scopes is None ==> provider.scopes.len() == 0
    &&& written.scopes matches Some(listed) ==> {
        &&& provider.scopes.len() == listed@.len()
        &&& forall|i: int| 0 <= i < listed@.len() ==> #[trigger] provider.scopes[i] == listed@[i]@
    }
    &&& written.grant_type is None ==> provider.grant_type == "client_credentials"@
    &&& written.grant_type matches Some(named) ==> provider.grant_type == named@
    &&& written.refresh_buffer_ms is None ==> provider.refresh_buffer_ms == 60_000
    &&& written.refresh_buffer_ms matches Some(buffer) ==> provider.refresh_buffer_ms == buffer
    &&& written.timeout_ms is None ==> provider.timeout_ms == 5_000
    &&& written.timeout_ms matches Some(timeout) ==> provider.timeout_ms == timeout
}

/// What a document describes is what it says, and fixed by that alone. One
/// with nothing left out names its scopes, grant type, buffer and timeout.
pub proof fn document_describes_what_it_says(written: ProviderDocument, provider: ProviderView)
    ensures
        as_written(provider, written) <==> provider == written.described(),
        written.spelled_out() <==> written.scopes is Some && written.grant_type is Some
            && written.refresh_buffer_ms is Some && written.timeout_ms is Some,
{
    let described = written.described();
    if as_written(provider, written) {
        assert(provider.scopes =~= described.scopes);
    }
}

/// A configuration document describes its providers one for one, each under
/// the name that stands there.
pub proof fn document_lists_its_providers(document: ConfigDocument)
    ensures
        document.described().len() == document.providers@.len(),
        forall|i: int|
            0 <= i < document.providers@.len() ==> {
                &&& (#[trigger] document.described()[i]).0 == document.providers@[i].0@
                &&& as_written(document.described()[i].1, document.providers@[i].1)
            },
{
    assert forall|i: int| 0 <= i < document.providers@.len() implies {
        &&& (#[trigger] document.described()[i]).0 == document.providers@[i].0@
        &&& as_written(document.described()[i].1, document.providers@[i].1)
    } by {
        document_describes_what_it_says(
            document.providers@[i].1,
            document.providers@[i].1.described(),
        );
    }
}

/// The entry at `i` of the document is the last one under `name`.
pub open spec fn counts_for(document: ConfigDocument, name: Seq<char>, i: int) -> bool {
    &&& 0 <= i < document.providers@.len()
    &&& document.providers@[i].0@ == name
    &&& forall|j: int|
        i < j < document.providers@.len() ==> (#[trigger] document.providers@[j]).0@ != name
}

/// Of several entries under one name the last is what the list says of it, and
/// it says nothing of a name that no entry bears.
pub proof fn last_entry_counts<U>(entries: Seq<(Seq<char>, U)>, name: Seq<char>)
    ensures
        (forall|i: int| 0 <= i < entries.len() ==> #[trigger] entries[i].0 != name) ==> !by_name(
            entries,
        ).contains_key(name),
        forall|i: int|
            0 <= i < entries.len() && (#[trigger] entries[i]).0 == name && (forall|j: int|
                i < j < entries.len() ==> (#[trigger] entries[j]).0 != name) ==> by_name(
                entries,
            ).contains_key(name) && by_name(entries)[name] == entries[i].1,
    decreases entries.len(),
{
    by_name_contains(entries, name);
    if entries.len() > 0 {
        let rest = entries.drop_last();
        last_entry_counts(rest, name);
        assert forall|i: int|
            0 <= i < entries.len() && (#[trigger] entries[i]).0 == name && (forall|j: int|
                i < j < entries.len() ==> (#[trigger] entries[j]).0 != name) implies by_name(
            entries,
        ).contains_key(name) && by_name(entries)[name] == entries[i].1 by {
            if i < rest.len() {
                assert(entries[entries.len() - 1].0 != name);
                assert(rest[i] == entries[i]);
                assert forall|j: int| i < j < rest.len() implies (#[trigger] rest[j]).0 != name by {
                    assert(entries[j].0 != name);
                }
            }
        }
    }
}

/// Some entry is the last one under each name of the document.
proof fn some_entry_counts(document: ConfigDocument, name: Seq<char>, n: int) -> (i: int)
    requires
        0 <= n < document.providers@.len(),
        document.providers@[n].0@ == name,
    ensures
        counts_for(document, name, i),
    decreases document.providers@.len() - n,
{
    if exists|j: int|
        n < j < document.providers@.len() && (#[trigger] document.providers@[j]).0@ == name {
        let j = choose|j: int|
            n < j < document.providers@.len() && (#[trigger] document.providers@[j]).0@ == name;
        some_entry_counts(document, name, j)
    } else {
        n
    }
}

/// The document sets up `provider` under `name`: its last entry under the name
/// says so.
pub open spec fn sets_up(document: ConfigDocument, name: Seq<char>, provider: ProviderView) -> bool {
    exists|i: int| #[trigger]
        counts_for(document, name, i) && as_written(provider, document.providers@[i].1)
}

/// The list that a document describes says of each name what the document sets up.
proof fn listed_as_set_up(document: ConfigDocument, name: Seq<char>, provider: ProviderView)
    ensures
        sets_up(document, name, provider) <==> by_name(document.described()).contains_key(name)
            && by_name(document.described())[name] == provider,
{
    let listed = document.described();
    document_lists_its_providers(document);
    last_entry_counts(listed, name);
    by_name_contains(listed, name);
    if exists|n: int| 0 <= n < listed.len() && #[trigger] listed[n].0 == name {
        let n = choose|n: int| 0 <= n < listed.len() && #[trigger] listed[n].0 == name;
        let i = some_entry_counts(document, name, n);
        assert(listed[i].0 == name);
        assert forall|j: int| i < j < listed.len() implies (#[trigger] listed[j]).0 != name by {
            assert(document.providers@[j].0@ != name);
        }
        assert(by_name(listed)[name] == listed[i].1);
        document_describes_what_it_says(document.providers@[i].1, provider);
        document_describes_what_it_says(document.providers@[i].1, listed[i].1);
        if sets_up(document, name, provider) {
            let m = choose|m: int| #[trigger]
                counts_for(document, name, m) && as_written(provider, document.providers@[m].1);
            assert(m == i) by {
                if m < i {
                    assert(document.providers@[i].0@ != name);
                }
                if i < m {
                    assert(document.providers@[m].0@ != name);
                }
            }
        }
    } else if sets_up(document, name, provider) {
        let m = choose|m: int| #[trigger]
            counts_for(document, name, m) && as_written(provider, document.providers@[m].1);
        assert(listed[m].0 == name);
    }
}

/// The entries in the order of the names are what the document sets up.
proof fn ordered_as_set_up(document: ConfigDocument)
    ensures
        ({
            let entries = in_name_order(document.described());
            &&& forall|i: int, j: int|
                0 <= i < j < entries.len() ==> precedes(
                    #[trigger] entries[i].0,
                    #[trigger] entries[j].0,
                )
            &&& forall|k: int|
                0 <= k < entries.len() ==> sets_up(
                    document,
                    (#[trigger] entries[k]).0,
                    entries[k].1,
                )
            &&& forall|name: Seq<char>, provider: ProviderView| #[trigger]
                sets_up(document, name, provider) ==> entries.contains((name, provider))
            &&& entries.len() > 0 <==> document.providers@.len() > 0
        }),
{
    let listed = document.described();
    let entries = in_name_order(listed);
    name_order_exists(listed);
    assert forall|k: int| 0 <= k < entries.len() implies sets_up(
        document,
        (#[trigger] entries[k]).0,
        entries[k].1,
    ) by {
        by_name_of_ascending(entries, k);
        listed_as_set_up(document, entries[k].0, entries[k].1);
    }
    assert forall|name: Seq<char>, provider: ProviderView| #[trigger]
        sets_up(document, name, provider) implies entries.contains((name, provider)) by {
        listed_as_set_up(document, name, provider);
        by_name_contains(entries, name);
        let k = choose|k: int| 0 <= k < entries.len() && #[trigger] entries[k].0 == name;
        by_name_of_ascending(entries, k);
        assert(entries[k] == (name, provider));
    }
    if document.providers@.len() > 0 {
        by_name_contains(listed, listed[0].0);
        by_name_contains(entries, listed[0].0);
    }
    if entries.len() > 0 {
        by_name_contains(entries, entries[0].0);
        by_name_contains(listed, entries[0].0);
    }
}

/// What an accepted document sets up, and nothing else, is there, in the order
/// of the names, and every provider is usable.
pub proof fn accepted_document_is_set_up_as_written(
    document: ConfigDocument,
    entries: Seq<(Seq<char>, ProviderView)>,
)
    requires
        parsed(Ok(document)) == Ok::<Seq<(Seq<char>, ProviderView)>, ConfigFault>(entries),
    ensures
        entries.len() > 0,
        forall|i: int, j: int|
            0 <= i < j < entries.len() ==> precedes(
                #[trigger] entries[i].0,
                #[trigger] entries[j].0,
            ),
        forall|k: int|
            0 <= k < entries.len() ==> {
                &&& sets_up(document, (#[trigger] entries[k]).0, entries[k].1)
                &&& usable(entries[k].1)
            },
        forall|name: Seq<char>, provider: ProviderView| #[trigger]
            sets_up(document, name, provider) ==> entries.contains((name, provider)),
{
    ordered_as_set_up(document);
    accepted_exactly_if_all_obey(entries);
    assert forall|k: int| 0 <= k < entries.len() implies usable((#[trigger] entries[k]).1) by {
        assert(provider_fault(entries[k].0, entries[k].1) is None);
        rules_are_about_use(entries[k].0, entries[k].1);
    }
}

/// A document is accepted exactly if it has an entry and every provider that
/// it sets up is usable.
pub proof fn accepted_exactly_if_usable(document: ConfigDocument)
    ensures
        parsed(Ok(document)) is Ok <==> document.providers@.len() > 0 && forall|
            name: Seq<char>,
            provider: ProviderView,
        | #[trigger] sets_up(document, name, provider) ==> usable(provider),
{
    let entries = in_name_order(document.described());
    ordered_as_set_up(document);
    accepted_exactly_if_all_obey(entries);
    if config_fault(entries) is None {
        assert forall|name: Seq<char>, provider: ProviderView| #[trigger]
            sets_up(document, name, provider) implies usable(provider) by {
            let k = choose|k: int| 0 <= k < entries.len() && entries[k] == (name, provider);
            assert(provider_fault(entries[k].0, entries[k].1) is None);
            rules_are_about_use(name, provider);
        }
    } else if document.providers@.len() > 0 && (forall|name: Seq<char>, provider: ProviderView|
        #[trigger] sets_up(document, name, provider) ==> usable(provider)) {
        assert forall|k: int| 0 <= k < entries.len() implies provider_fault(
            (#[trigger] entries[k]).0,
            entries[k].1,
        ) is None by {
            assert(sets_up(document, entries[k].0, entries[k].1));
            rules_are_about_use(entries[k].0, entries[k].1);
        }
    }
}

/// What is said of a document that is not accepted: that it has no providers,
/// where it has none; else what is wrong with one that it sets up, all whose
/// names come before that one being usable. Of a text that is no document, the
/// reason why it is none is passed on as it is.
pub proof fn refusal_tells_the_first_offender(document: ConfigDocument, detail: String)
    ensures
        parsed(Err(detail)) == Err::<Seq<(Seq<char>, ProviderView)>, ConfigFault>(
            ConfigFault::InvalidJson { detail: detail@ },
        ),
        document.providers@.len() == 0 ==> parsed(Ok(document)) == Err::<
            Seq<(Seq<char>, ProviderView)>,
            ConfigFault,
        >(ConfigFault::EmptyProviders),
        document.providers@.len() > 0 && parsed(Ok(document)) is Err ==> exists|
            name: Seq<char>,
            provider: ProviderView,
        |
            {
                &&& #[trigger] sets_up(document, name, provider)
                &&& is_at_fault(parsed(Ok(document))->Err_0, name, provider)
                &&& forall|earlier: Seq<char>, other: ProviderView|
                    #[trigger] sets_up(document, earlier, other) && precedes(earlier, name)
                        ==> usable(other)
            },
{
    let entries = in_name_order(document.described());
    ordered_as_set_up(document);
    if document.providers@.len() > 0 {
        if let Some(fault) = config_fault(entries) {
            first_offender_is_reported(entries, fault);
            let k = choose|k: int|
                {
                    &&& 0 <= k < entries.len()
                    &&& provider_fault((#[trigger] entries[k]).0, entries[k].1) == Some(fault)
                    &&& forall|j: int|
                        0 <= j < k ==> provider_fault(
                            (#[trigger] entries[j]).0,
                            entries[j].1,
                        ) is None
                };
            let name = entries[k].0;
            rules_are_about_use(name, entries[k].1);
            assert(sets_up(document, name, entries[k].1));
            assert(is_at_fault(fault, name, entries[k].1));
            assert forall|earlier: Seq<char>, other: ProviderView|
                #[trigger] sets_up(document, earlier, other) && precedes(
                    earlier,
                    name,
                ) implies usable(other) by {
                let l = choose|l: int| 0 <= l < entries.len() && entries[l] == (earlier, other);
                precedes_is_irreflexive(name);
                if l > k {
                    assert(precedes(entries[k].0, entries[l].0));
                    precedes_is_transitive(name, earlier, name);
                }
                assert(l < k);
                assert(provider_fault(entries[l].0, entries[l].1) is None);
                rules_are_about_use(earlier, other);
            }
        }
    }
}

/// The words about a faulty configuration: what they say, to the letter.
pub proof fn faults_are_put_into_words(
    name: Seq<char>,
    detail: Seq<char>,
    grant_type: Seq<char>,
    number: nat,
)
    ensures
        ({
            let of = "credential.oauth-client-credentials: provider `"@ + name;
            &&& fault_message(ConfigFault::InvalidJson { detail })
                == "invalid credential.oauth-client-credentials config JSON: "@ + detail
            &&& fault_message(ConfigFault::EmptyProviders)
                == "credential.oauth-client-credentials: providers must be non-empty"@
            &&& fault_message(ConfigFault::EmptyTokenUrl { name }) == of + "` token_url is empty"@
            &&& fault_message(ConfigFault::InvalidTokenUrlScheme { name }) == of
                + "` token_url must start with http:// or https://"@
            &&& fault_message(ConfigFault::EmptyClientId { name }) == of + "` client_id is empty"@
            &&& fault_message(ConfigFault::EmptyClientSecret { name }) == of
                + "` client_secret is empty"@
            &&& fault_message(ConfigFault::UnsupportedGrantType { name, grant_type }) == of
                + "` grant_type=`"@ + grant_type
                + "` not supported (only `client_credentials` in v0.1)"@
            &&& fault_message(ConfigFault::InvalidTimeoutMs { name, timeout: number }) == of
                + "` timeout_ms="@ + decimal(number) + "; must be 100..=60_000"@
            &&& fault_message(ConfigFault::InvalidRefreshBufferMs { name, buffer: number }) == of
                + "` refresh_buffer_ms="@ + decimal(number) + "; must be 0..=600_000"@
        }),
{
}

/// A faulty configuration is refused with the words about its fault, framed by
/// words that say what has failed and why nothing is loaded.
pub proof fn refusal_quotes_the_fault(fault: ConfigFault)
    ensures
        refusal_to_load(fault) == "oauth-client-credentials config parse failed: "@
            + fault_message(fault)
            + ". A misconfigured credential issuer is a security hole; refusing to load."@,
{
}

/// What is known of a provider is each of its fields.
pub proof fn provider_shows_its_fields(provider: ProviderConfig)
    ensures
        provider@.token_url == provider.token_url@,
        provider@.client_id == provider.client_id@,
        provider@.client_secret == provider.client_secret@,
        provider@.scopes.len() == provider.scopes@.len(),
        forall|i: int|
            0 <= i < provider.scopes@.len() ==> #[trigger] provider@.scopes[i]
                == provider.scopes@[i]@,
        provider@.grant_type == provider.grant_type@,
        provider@.refresh_buffer_ms == provider.refresh_buffer_ms,
        provider@.timeout_ms == provider.timeout_ms,
{
}

/// What is known of a configuration is all its providers.
pub proof fn config_shows_its_providers(config: OAuthConfig)
    ensures
        config@ == config.providers@,
{
}

/// What is known of an error is which it is, and each of its fields.
pub proof fn config_error_shows_its_fields(error: ConfigError)
    ensures
        match error {
            ConfigError::InvalidJson(detail) => error@ is InvalidJson
                && error@->InvalidJson_detail == detail@,
            ConfigError::EmptyProviders => error@ is EmptyProviders,
            ConfigError::EmptyTokenUrl { name } => error@ is EmptyTokenUrl
                && error@->EmptyTokenUrl_name == name@,
            ConfigError::InvalidTokenUrlScheme { name } => error@ is InvalidTokenUrlScheme
                && error@->InvalidTokenUrlScheme_name == name@,
            ConfigError::EmptyClientId { name } => error@ is EmptyClientId
                && error@->EmptyClientId_name == name@,
            ConfigError::EmptyClientSecret { name } => error@ is EmptyClientSecret
                && error@->EmptyClientSecret_name == name@,
            ConfigError::UnsupportedGrantType { name, grant_type } => error@ is UnsupportedGrantType
                && error@->UnsupportedGrantType_name == name@
                && error@->UnsupportedGrantType_grant_type == grant_type@,
            ConfigError::InvalidTimeoutMs { name, timeout } => error@ is InvalidTimeoutMs
                && error@->InvalidTimeoutMs_name == name@ && error@->InvalidTimeoutMs_timeout
                == timeout,
            ConfigError::InvalidRefreshBufferMs { name, buffer } => error@ is InvalidRefreshBufferMs
                && error@->InvalidRefreshBufferMs_name == name@
                && error@->InvalidRefreshBufferMs_buffer == buffer,
        },
{
}

/// The view of named values keeps each name with its value, all of them and in order.
pub proof fn pairs_are_viewed_one_for_one<T: View>(pairs: Seq<(String, T)>)
    ensures
        pairs_view(pairs).len() == pairs.len(),
        forall|i: int|
            0 <= i < pairs.len() ==> {
                &&& (#[trigger] pairs_view(pairs)[i]).0 == pairs[i].0@
                &&& pairs_view(pairs)[i].1 == pairs[i].1@
            },
{
}

} // verus!
