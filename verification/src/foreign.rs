//! Calls into other crates, with what is relied on of each of them.

use dashmap::DashMap;
use vstd::prelude::*;

use crate::text::decimal;
use crate::token::CachedToken;
use crate::token::TokenView;

verus! {

/// `dashmap::DashMap`, a map whose contents Verus does not look into.
#[verifier::external_type_specification]
#[verifier::external_body]
#[verifier::reject_recursive_types(K)]
#[verifier::reject_recursive_types(V)]
#[verifier::reject_recursive_types(S)]
pub struct ExDashMap<K, V, S>(DashMap<K, V, S>);

/// The tokens that a map holds, by the name under which each was put. They
/// change by `put_token` alone, which borrows the map exclusively.
pub uninterp spec fn tokens_in(map: DashMap<String, CachedToken>) -> Map<Seq<char>, TokenView>;

/// No token under any name.
pub open spec fn no_tokens() -> Map<Seq<char>, TokenView> {
    Map::empty()
}

/// `DashMap::new`: the new map is empty.
#[verifier::external_body]
pub(crate) fn new_token_map() -> (map: DashMap<String, CachedToken>)
    ensures
        tokens_in(map) == no_tokens(),
{
    DashMap::new()
}

/// `DashMap::get`: a copy of the token under `name`, and `None` exactly where
/// the map holds none under that name.
#[verifier::external_body]
pub(crate) fn token_under(map: &DashMap<String, CachedToken>, name: &str) -> (token: Option<
    CachedToken,
>)
    ensures
        match token {
            Some(found) => tokens_in(*map).contains_key(name@) && tokens_in(*map)[name@] == found@,
            None => !tokens_in(*map).contains_key(name@),
        },
{
    map.get(name).map(|entry| entry.value().clone())
}

/// `DashMap::insert`: afterwards the map holds `token` under `name`, in place
/// of what it held there before, and nothing else in it has changed.
#[verifier::external_body]
pub(crate) fn put_token(map: &mut DashMap<String, CachedToken>, name: String, token: CachedToken)
    ensures
        tokens_in(*final(map)) == tokens_in(*old(map)).insert(name@, token@),
{
    map.insert(name, token);
}

/// The text of the member `key` of the JSON object `text`; `None` where `text`
/// is no JSON, holds no object, or the object has no such member or one that
/// is not a string.
pub uninterp spec fn json_text_member(text: Seq<char>, key: Seq<char>) -> Option<Seq<char>>;

/// `serde_json::from_str` into a `serde_json::Value`, whose member `key` is
/// then read with `Value::get` and `Value::as_str`. What comes out depends on
/// the text and the key alone.
#[verifier::external_body]
pub(crate) fn read_json_text_member(text: &str, key: &str) -> (member: Option<String>)
    ensures
        match member {
            Some(found) => json_text_member(text@, key@) == Some(found@),
            None => json_text_member(text@, key@) is None,
        },
{
    let value: serde_json::Value = serde_json::from_str(text).ok()?;
    value.get(key)?.as_str().map(str::to_owned)
}

/// How `reqwest::StatusCode` displays the status `code`.
pub uninterp spec fn status_display(code: u16) -> Seq<char>;

/// The `Display` of `reqwest::StatusCode`: the code in decimal, a space, and
/// the reason phrase of the code, or words to say that it has none.
#[verifier::external_body]
pub(crate) fn status_text(code: u16) -> (text: String)
    requires
        100 <= code <= 999,
    ensures
        text@ == status_display(code),
        exists|reason: Seq<char>| text@ == #[trigger] (decimal(code as nat) + " "@ + reason),
{
    reqwest::StatusCode::from_u16(code).unwrap().to_string()
}

/// `c` is one of the ASCII digits.
pub open spec fn ascii_digit(c: char) -> bool {
    '0' as int <= c as int <= '9' as int
}

/// Two digits at `at` in `text` write a number from `low` to `high`.
pub open spec fn two_digits(text: Seq<char>, at: int, low: int, high: int) -> bool {
    let number = (text[at] as int - '0' as int) * 10 + (text[at + 1] as int - '0' as int);
    ascii_digit(text[at]) && ascii_digit(text[at + 1]) && low <= number <= high
}

/// `text` is a UTC date and time to the second in the notation of RFC 3339:
/// `YYYY-MM-DDTHH:MM:SSZ`, with each number in its range. A year past 9999 has
/// all its digits, after a plus sign.
pub open spec fn utc_timestamp(text: Seq<char>) -> bool {
    let n = text.len();
    &&& n == 20 || n >= 22
    &&& n >= 22 ==> text[0] == '+'
    &&& forall|i: int| n - 20 > i > 0 ==> ascii_digit(#[trigger] text[i])
    &&& two_digits(text, n - 20, 0, 99)
    &&& two_digits(text, n - 18, 0, 99)
    &&& text[n - 16] == '-'
    &&& two_digits(text, n - 15, 1, 12)
    &&& text[n - 13] == '-'
    &&& two_digits(text, n - 12, 1, 31)
    &&& text[n - 10] == 'T'
    &&& two_digits(text, n - 9, 0, 23)
    &&& text[n - 7] == ':'
    &&& two_digits(text, n - 6, 0, 59)
    &&& text[n - 4] == ':'
    &&& two_digits(text, n - 3, 0, 59)
    &&& text[n - 1] == 'Z'
}

/// `chrono::Utc::now`, written by `DateTime::to_rfc3339_opts` to the second
/// and with `Z` for the offset. The clock counts no leap seconds and stands
/// after the start of 1970. Which moment it is depends on the clock alone, and
/// is not said.
#[verifier::external_body]
pub(crate) fn now_rfc3339() -> (text: String)
    ensures
        utc_timestamp(text@),
{
    chrono::Utc::now().to_rfc3339_opts(chrono::SecondsFormat::Secs, true)
}

} // verus!
