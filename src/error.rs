use vstd::prelude::*;

verus! {

#[verifier::external_type_specification]
#[verifier::external_body]
pub struct ExSdkError(sentc_crypto::SdkError);

#[verifier::external_type_specification]
#[verifier::external_body]
pub struct ExJsonError(serde_json::Error);

#[verifier::external_type_specification]
#[verifier::external_body]
pub struct ExCoreError(sentc_crypto::sdk_core::Error);

/// Relies on sentc-crypto's `From<sdk_core::Error> for SdkError`, which wraps a
/// core error as an SDK error; nothing more is stated of the result.
pub assume_specification[ <sentc_crypto::SdkError as core::convert::From<sentc_crypto::sdk_core::Error>>::from ](
    value: sentc_crypto::sdk_core::Error,
) -> sentc_crypto::SdkError;

/// Every way in which a key lookup or an encryption call can fail.
pub enum SentcError {
    Sdk(sentc_crypto::SdkError),
    UserNotFound,
    GroupNotFound,
    KeyNotFound,
    NoKeyFound,
    ParentGroupNotFoundButRequired,
    ParentGroupKeyNotFoundButRequired,
    ConnectedGroupNotFoundButRequired,
    ConnectedGroupKeyNotFoundButRequired,
    NoGroupKeysFound,
    TimeError,
    JsonToStringFailed,
    JsonParseFailed(serde_json::Error),
    UsernameOrPasswordRequired,
    UserMfaRequired,
    /// The encrypted input does not hold a head and a body.
    MalformedEnvelope,
    /// The key server could not be reached, or its answer could not be read.
    FetchFailed,
}

impl From<sentc_crypto::SdkError> for SentcError {
    fn from(value: sentc_crypto::SdkError) -> (r: SentcError)
        ensures
            r == SentcError::Sdk(value),
    {
        SentcError::Sdk(value)
    }
}

impl vstd::std_specs::convert::FromSpecImpl<sentc_crypto::SdkError> for SentcError {
    open spec fn obeys_from_spec() -> bool {
        true
    }

    open spec fn from_spec(v: sentc_crypto::SdkError) -> SentcError {
        SentcError::Sdk(v)
    }
}

impl From<serde_json::Error> for SentcError {
    fn from(value: serde_json::Error) -> (r: SentcError)
        ensures
            r == SentcError::JsonParseFailed(value),
    {
        SentcError::JsonParseFailed(value)
    }
}

impl vstd::std_specs::convert::FromSpecImpl<serde_json::Error> for SentcError {
    open spec fn obeys_from_spec() -> bool {
        true
    }

    open spec fn from_spec(v: serde_json::Error) -> SentcError {
        SentcError::JsonParseFailed(v)
    }
}

impl From<sentc_crypto::sdk_core::Error> for SentcError {
    /// A core error of the crypto primitives surfaces as an SDK error.
    fn from(value: sentc_crypto::sdk_core::Error) -> (r: SentcError)
        ensures
            r is Sdk,
    {
        SentcError::Sdk(sentc_crypto::SdkError::from(value))
    }
}

impl vstd::std_specs::convert::FromSpecImpl<sentc_crypto::sdk_core::Error> for SentcError {
    open spec fn obeys_from_spec() -> bool {
        false
    }

    open spec fn from_spec(v: sentc_crypto::sdk_core::Error) -> SentcError {
        SentcError::Sdk(vstd::pervasive::arbitrary())
    }
}

} // verus!
