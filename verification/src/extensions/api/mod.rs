//! Following the chain's head: reading block numbers and hashes out of the upstream's
//! JSON, and what the head-following task does on each event.
use vstd::prelude::*;
use serde_json::Value;
use crate::extensions::client::{has_prefix, starts_with};

pub mod hex;

use crate::extensions::api::hex::{parse_u64_hex, parse_hex_u64};

verus! {

/// What `value[field]` of `serde_json` gives (`Null` where there is no such field),
/// taken as an owned value.
pub uninterp spec fn json_field(value: Value, field: Seq<char>) -> Value;

/// What `Value::as_str` gives: the text of a JSON string, `None` for any other value.
pub uninterp spec fn json_str(value: Value) -> Option<Seq<char>>;

/// `serde_json`'s `Index<&str>` on `value`, cloned. Claimed: its result is named
/// `json_field(value, field)`.
#[verifier::external_body]
pub(crate) fn json_get(value: &Value, field: &str) -> (r: Value)
    ensures
        r == json_field(*value, field@),
{
    value[field].clone()
}

/// `serde_json::Value::as_str`, as an owned text. Claimed: its result is named
/// `json_str(value)`; `serde_json` documents it as the string's text for a JSON
/// string and `None` for any other value.
#[verifier::external_body]
pub(crate) fn json_as_str(value: &Value) -> (r: Option<String>)
    ensures
        match json_str(*value) {
            Some(s) => r matches Some(x) && x@ == s,
            None => r is None,
        },
{
    value.as_str().map(|s| s.to_string())
}

/// The configuration of the Substrate API extension.
#[derive(Debug, Clone)]
pub struct SubstrateApiConfig {
    /// How long without a new head before the endpoint is taken to be stale, in
    /// milliseconds.
    pub stale_timeout_ms: u64,
}

/// Why a head could not be read.
#[derive(Debug, Clone, Copy, PartialEq, Eq, Structural)]
pub enum ApiError {
    /// `number` is not a text starting with `0x`.
    InvalidNumber,
    /// The digits of `number` are not a hexadecimal `u64`.
    NumberFormat,
    /// `hash` is not a text.
    HashNotFound,
}

impl ApiError {
    pub fn message(&self) -> (m: String)
        ensures
            m@ == match *self {
                ApiError::InvalidNumber => "Invalid number"@,
                ApiError::NumberFormat => "invalid digit found in string"@,
                ApiError::HashNotFound => "Hash not found"@,
            },
    {
        match self {
            ApiError::InvalidNumber => String::from_str("Invalid number"),
            ApiError::NumberFormat => String::from_str("invalid digit found in string"),
            ApiError::HashNotFound => String::from_str("Hash not found"),
        }
    }
}

/// The block number written as `text`: `0x` followed by the number in hexadecimal.
pub open spec fn number_of_text(text: Seq<char>) -> Result<u64, ApiError> {
    if !has_prefix(text, "0x"@) {
        Err(ApiError::InvalidNumber)
    } else {
        match parse_u64_hex(text.skip(2)) {
            Some(n) => Ok(n),
            None => Err(ApiError::NumberFormat),
        }
    }
}

/// The block number of a head: its field `number`, a text `0x` followed by the
/// number in hexadecimal.
pub open spec fn block_number(value: Value) -> Result<u64, ApiError> {
    match json_str(json_field(value, "number"@)) {
        None => Err(ApiError::InvalidNumber),
        Some(s) => number_of_text(s),
    }
}

/// Reads a block number written as text (see `number_of_text`).
pub fn number_from_text(text: &str) -> (r: Result<u64, ApiError>)
    ensures
        r == number_of_text(text@),
{
    if !starts_with(text, "0x") {
        return Err(ApiError::InvalidNumber);
    }
    proof {
        reveal_strlit("0x");
    }
    let n = text.unicode_len();
    let digits = text.substring_char(2, n);
    assert(digits@ =~= text@.skip(2));
    match parse_hex_u64(digits) {
        Some(v) => Ok(v),
        None => Err(ApiError::NumberFormat),
    }
}

/// Reads the block number of a head (see `block_number`).
pub fn get_number(value: &Value) -> (r: Result<u64, ApiError>)
    ensures
        r == block_number(*value),
{
    let field = json_get(value, "number");
    match json_as_str(&field) {
        None => Err(ApiError::InvalidNumber),
        Some(s) => number_from_text(s.as_str()),
    }
}

/// Reads the hash of a head: its field `hash`, which must be a JSON string.
pub fn get_hash(value: &Value) -> (r: Result<Value, ApiError>)
    ensures
        json_str(json_field(*value, "hash"@)) is Some ==> r == Ok::<Value, ApiError>(json_field(*value, "hash"@)),
        json_str(json_field(*value, "hash"@)) is None ==> r == Err::<Value, ApiError>(ApiError::HashNotFound),
{
    let hash = json_get(value, "hash");
    if json_as_str(&hash).is_some() {
        Ok(hash)
    } else {
        Err(ApiError::HashNotFound)
    }
}

/// What the head-following task sees next.
pub enum HeadEvent {
    /// The subscription delivered a head.
    Head(Value),
    /// The subscription ended or failed.
    Ended,
    /// No head came within the stale timeout.
    Stale,
}

/// What the head-following task does next.
#[derive(Debug, Clone, Copy, PartialEq, Eq, Structural)]
pub enum HeadAction {
    /// Fetch the hash of the block with this number, then publish both.
    FetchHash(u64),
    /// Subscribe again (after a pause).
    Resubscribe,
    /// Move the client to its next endpoint, then subscribe again.
    RotateEndpoint,
    /// Give up this subscription with the error (and subscribe again after a pause).
    Abort(ApiError),
}

/// The action on `event`: a head's number is fetched, an ended subscription is
/// renewed, a stale one makes the client rotate its endpoint, an unreadable head
/// aborts the subscription.
pub fn head_action(event: HeadEvent) -> (a: HeadAction)
    ensures
        match event {
            HeadEvent::Head(v) => match block_number(v) {
                Ok(n) => a == HeadAction::FetchHash(n),
                Err(e) => a == HeadAction::Abort(e),
            },
            HeadEvent::Ended => a == HeadAction::Resubscribe,
            HeadEvent::Stale => a == HeadAction::RotateEndpoint,
        },
{
    match event {
        HeadEvent::Head(v) => match get_number(&v) {
            Ok(n) => HeadAction::FetchHash(n),
            Err(e) => HeadAction::Abort(e),
        },
        HeadEvent::Ended => HeadAction::Resubscribe,
        HeadEvent::Stale => HeadAction::RotateEndpoint,
    }
}

/// What the finalized-head task does with a finalized head once it has its hash.
#[derive(Debug, Clone, Copy, PartialEq, Eq, Structural)]
pub enum FinalizedStep {
    /// Publish the head as the latest finalized head.
    Publish,
    /// The endpoint went back behind the head published last: keep that head, move
    /// the client to its next endpoint, then subscribe again.
    RotateEndpoint,
}

/// A finalized head numbered `number` comes before the one published last, `last`.
pub open spec fn finalized_goes_back(last: Option<u64>, number: u64) -> bool {
    last matches Some(l) && number < l
}

/// The step for a finalized head numbered `number`, whose hash has been fetched, when
/// `last` is the number of the finalized head published last: an endpoint whose
/// finalized head goes back is left, and the head is not published; any other head
/// is published. So the published finalized number never goes down.
pub fn finalized_step(last: Option<u64>, number: u64) -> (s: FinalizedStep)
    ensures
        finalized_goes_back(last, number) ==> s == FinalizedStep::RotateEndpoint,
        !finalized_goes_back(last, number) ==> s == FinalizedStep::Publish,
        s == FinalizedStep::Publish ==> (last matches Some(l) ==> l <= number),
{
    match last {
        Some(l) => if number < l {
            FinalizedStep::RotateEndpoint
        } else {
            FinalizedStep::Publish
        },
        None => FinalizedStep::Publish,
    }
}

} // verus!
