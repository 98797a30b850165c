//! Which verify key, if any, a decryption has to resolve before the signature
//! of the data can be checked.
use vstd::prelude::*;
use crate::envelope::EnvelopeHead;
use crate::error::SentcError;
use crate::key_store::{KeyStore, VersionedKey};

verus! {

/// What a decryption does about the signature of its data.
pub enum VerifyStep {
    /// No check: verification is off.
    Skip,
    /// Resolve the verify key `key_id` of the user `user_id`.
    Fetch { user_id: String, key_id: String },
}

impl VerifyStep {
    /// The user id and key id to resolve, or `None` for no check.
    pub open spec fn target(&self) -> Option<(Seq<char>, Seq<char>)> {
        match self {
            VerifyStep::Skip => None,
            VerifyStep::Fetch { user_id, key_id } => Some((user_id@, key_id@)),
        }
    }
}

/// The signer whose key checks data with head `head`: the pinned user if the
/// caller gave one, else the signer named in the head.
pub open spec fn signer_of(head: EnvelopeHead, user_id: Option<Seq<char>>) -> Option<Seq<char>> {
    match user_id {
        Some(u) => Some(u),
        None => match head.signer_user_id {
            Some(u) => Some(u@),
            None => None,
        },
    }
}

/// Decides the verify key for data with head `head`. With `verify` off
/// nothing is resolved. With `verify` on, the signer is the pinned user
/// `user_id`, else the signer named in the head (with neither: `UserNotFound`),
/// and the head must name the sign key to resolve (else `KeyNotFound`): data
/// that carries no signature is never passed as checked.
pub fn verify_key_request(head: &EnvelopeHead, verify: bool, user_id: Option<&str>) -> (r: Result<VerifyStep, SentcError>)
    ensures
        !verify ==> r matches Ok(VerifyStep::Skip),
        verify ==> !(r matches Ok(VerifyStep::Skip)),
        verify && signer_of(*head, opt_view(user_id)) is None ==> r matches Err(SentcError::UserNotFound),
        verify && signer_of(*head, opt_view(user_id)) is Some && head.sign is None ==> r matches Err(SentcError::KeyNotFound),
        verify && signer_of(*head, opt_view(user_id)) is Some && head.sign is Some ==> (r matches Ok(step)
            && step.target() == Some((signer_of(*head, opt_view(user_id))->Some_0, head.sign->Some_0.key_id@))),
{
    if !verify {
        return Ok(VerifyStep::Skip);
    }
    let signer = match user_id {
        Some(u) => u.to_owned(),
        None => match &head.signer_user_id {
            Some(u) => u.clone(),
            None => return Err(SentcError::UserNotFound),
        },
    };
    match &head.sign {
        None => Err(SentcError::KeyNotFound),
        Some(sign) => Ok(VerifyStep::Fetch { user_id: signer, key_id: sign.key_id.clone() }),
    }
}

/// The view of an optional identifier.
pub open spec fn opt_view(s: Option<&str>) -> Option<Seq<char>> {
    match s {
        Some(v) => Some(v@),
        None => None,
    }
}

/// Picks the verify key `key_id` out of the resolved keys of the signer; a
/// signer that could not be resolved gives `UserNotFound`, and a key id the
/// signer does not have gives `KeyNotFound`.
pub fn pick_verify_key<'a, V>(signer: Option<&'a KeyStore<V>>, key_id: &str) -> (r: Result<&'a VersionedKey<V>, SentcError>)
    requires
        signer matches Some(s) ==> s.wf(),
    ensures
        signer is None ==> r matches Err(SentcError::UserNotFound),
        signer matches Some(s) && !s@.keys.contains_key(key_id@) ==> r matches Err(SentcError::KeyNotFound),
        signer matches Some(s) && s@.keys.contains_key(key_id@) ==> (r matches Ok(k) && k.id@ == key_id@
            && k.material == signer->Some_0@.keys[key_id@]),
{
    match signer {
        None => Err(SentcError::UserNotFound),
        Some(s) => match s.get_key(key_id) {
            Some(k) => Ok(k),
            None => Err(SentcError::KeyNotFound),
        },
    }
}

} // verus!
