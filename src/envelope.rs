//! The head that precedes every ciphertext, and splitting it off encrypted
//! input. The head's JSON and the Base64 framing of encrypted strings are read
//! by sentc-crypto and base64ct.
use vstd::prelude::*;
use crate::error::SentcError;
use base64ct::Encoding;
use sentc_crypto_common::crypto::{EncryptedHead, SignHead};

verus! {

#[verifier::external_type_specification]
pub struct ExSignHead(SignHead);

#[verifier::external_type_specification]
pub struct ExEncryptedHead(EncryptedHead);

/// The fields of a head as sentc-crypto reads it.
pub open spec fn head_fields(h: EncryptedHead) -> (Seq<char>, Option<(Seq<char>, Seq<char>)>) {
    (
        h.id@,
        match h.sign {
            Some(s) => Some((s.id@, s.alg@)),
            None => None,
        },
    )
}

/// The signer's reference in a head: the id of the sign key and its algorithm.
pub struct SignRef {
    pub key_id: String,
    pub alg: String,
}

/// The metadata of one ciphertext: the id of the symmetric key that encrypted
/// it, and who signed it, if anyone did.
pub struct EnvelopeHead {
    pub key_id: String,
    pub signer_user_id: Option<String>,
    pub sign: Option<SignRef>,
}

impl EnvelopeHead {
    /// The key id and, when signed, the sign key id and algorithm.
    pub open spec fn fields(&self) -> (Seq<char>, Option<(Seq<char>, Seq<char>)>) {
        (
            self.key_id@,
            match self.sign {
                Some(s) => Some((s.key_id@, s.alg@)),
                None => None,
            },
        )
    }
}

/// The fields of the head that the JSON text `json` encodes, or `None` when it
/// is no such JSON.
pub uninterp spec fn parsed_head(json: Seq<u8>) -> Option<(Seq<char>, Option<(Seq<char>, Seq<char>)>)>;

/// The bytes that the standard Base64 text `s` encodes, or `None` when it is
/// not valid Base64.
pub uninterp spec fn base64_decoded(s: Seq<char>) -> Option<Seq<u8>>;

/// `z` is where the head of `data` ends: its first zero byte.
pub open spec fn is_head_end(data: Seq<u8>, z: int) -> bool {
    0 <= z < data.len() && data[z] == 0 && forall|j: int| 0 <= j < z ==> data[j] != 0
}

/// `data` holds a zero byte, the mark between head and body.
pub open spec fn has_head_end(data: Seq<u8>) -> bool {
    exists|z: int| 0 <= z < data.len() && data[z] == 0
}

/// What splitting `data` gives: the head's fields and the body, or `None`
/// when there is no zero byte or the bytes before it are no head.
pub open spec fn split_spec(data: Seq<u8>) -> Option<((Seq<char>, Option<(Seq<char>, Seq<char>)>), Seq<u8>)> {
    if has_head_end(data) {
        let z = choose|z: int| is_head_end(data, z);
        match parsed_head(data.take(z)) {
            Some(h) => Some((h, data.skip(z + 1))),
            None => None,
        }
    } else {
        None
    }
}

proof fn lemma_head_end_unique(data: Seq<u8>, a: int, b: int)
    requires
        is_head_end(data, a),
        is_head_end(data, b),
    ensures
        a == b,
{
    if a < b {
        assert(data[a] != 0);
    } else if b < a {
        assert(data[b] != 0);
    }
}

fn head_from(h: EncryptedHead) -> (r: EnvelopeHead)
    ensures
        r.signer_user_id is None,
        r.fields() == head_fields(h),
{
    let EncryptedHead { id, sign } = h;
    match sign {
        Some(s) => EnvelopeHead {
            key_id: id,
            signer_user_id: None,
            sign: Some(SignRef { key_id: s.id, alg: s.alg }),
        },
        None => EnvelopeHead { key_id: id, signer_user_id: None, sign: None },
    }
}

/// Relies on base64ct's `Base64::decode_vec`: the bytes that standard Base64
/// text encodes, or an error when the text is not valid Base64.
#[verifier::external_body]
fn decode_base64(s: &str) -> (r: Option<Vec<u8>>)
    ensures
        r is Some <==> base64_decoded(s@) is Some,
        r matches Some(b) ==> b@ == base64_decoded(s@)->Some_0,
{
    base64ct::Base64::decode_vec(s).ok()
}

/// Relies on sentc_crypto::crypto::split_head_and_encrypted_data: the bytes
/// before the first zero byte are read as the head's JSON, the bytes after it
/// are the body. Without a zero byte it would slice past the end.
#[verifier::external_body]
fn split_data_raw<'a>(data: &'a [u8]) -> (r: Result<(EncryptedHead, &'a [u8]), sentc_crypto::SdkError>)
    requires
        has_head_end(data@),
    ensures
        forall|z: int|
            #[trigger] is_head_end(data@, z) ==> (r is Ok <==> parsed_head(data@.take(z)) is Some) && (
            r matches Ok((h, rest)) ==> head_fields(h) == parsed_head(data@.take(z))->Some_0
                && rest@ == data@.skip(z + 1)),
{
    sentc_crypto::crypto::split_head_and_encrypted_data::<EncryptedHead>(data)
}

/// Relies on sentc_crypto::crypto::split_head_and_encrypted_string: it decodes
/// the Base64 text and reads the head of the bytes as
/// `split_head_and_encrypted_data` does.
#[verifier::external_body]
fn split_string_raw(s: &str) -> (r: Result<EncryptedHead, sentc_crypto::SdkError>)
    requires
        base64_decoded(s@) matches Some(b) ==> has_head_end(b),
    ensures
        r is Ok <==> (base64_decoded(s@) matches Some(b) && split_spec(b) is Some),
        r matches Ok(h) ==> head_fields(h) == split_spec(base64_decoded(s@)->Some_0)->Some_0.0,
{
    sentc_crypto::crypto::split_head_and_encrypted_string(s)
}

/// The position of the first zero byte of `data`.
fn head_end(data: &[u8]) -> (r: Option<usize>)
    ensures
        r is None <==> !has_head_end(data@),
        r matches Some(z) ==> is_head_end(data@, z as int),
{
    let mut i: usize = 0;
    while i < data.len()
        invariant
            i <= data@.len(),
            forall|j: int| 0 <= j < i ==> data@[j] != 0,
        decreases data@.len() - i,
    {
        if data[i] == 0 {
            return Some(i);
        }
        i = i + 1;
    }
    None
}

/// Splits encrypted bytes into their head and body. Input without the zero
/// byte that ends the head is malformed; a head that is no valid JSON is
/// reported by sentc-crypto.
pub fn split_head_and_data(data: &[u8]) -> (r: Result<(EnvelopeHead, &[u8]), SentcError>)
    ensures
        r is Ok <==> split_spec(data@) is Some,
        r matches Ok((h, body)) ==> (h.fields(), body@) == split_spec(data@)->Some_0
            && h.signer_user_id is None,
        !has_head_end(data@) ==> r matches Err(SentcError::MalformedEnvelope),
        has_head_end(data@) && split_spec(data@) is None ==> r matches Err(SentcError::Sdk(_)),
{
    match head_end(data) {
        None => Err(SentcError::MalformedEnvelope),
        Some(z) => {
            proof {
                let c = choose|c: int| is_head_end(data@, c);
                lemma_head_end_unique(data@, c, z as int);
            }
            match split_data_raw(data) {
                Ok((h, body)) => {
                    assert(is_head_end(data@, z as int));
                    Ok((head_from(h), body))
                },
                Err(e) => {
                    assert(is_head_end(data@, z as int));
                    Err(SentcError::Sdk(e))
                },
            }
        },
    }
}

/// Reads the head of an encrypted string: Base64 text of a head, a zero byte
/// and the body. Text that is no Base64, or a head that is no valid JSON, is
/// reported by sentc-crypto; decoded bytes without the zero byte are
/// malformed.
pub fn split_head_and_string(data: &str) -> (r: Result<EnvelopeHead, SentcError>)
    ensures
        r is Ok <==> (base64_decoded(data@) matches Some(b) && split_spec(b) is Some),
        r matches Ok(h) ==> h.fields() == split_spec(base64_decoded(data@)->Some_0)->Some_0.0
            && h.signer_user_id is None,
        base64_decoded(data@) is None ==> r matches Err(SentcError::Sdk(_)),
        base64_decoded(data@) matches Some(b) && !has_head_end(b) ==> r matches Err(
            SentcError::MalformedEnvelope,
        ),
        base64_decoded(data@) matches Some(b) && has_head_end(b) && split_spec(b) is None ==> r matches Err(
            SentcError::Sdk(_),
        ),
{
    if let Some(bytes) = decode_base64(data) {
        if head_end(bytes.as_slice()).is_none() {
            return Err(SentcError::MalformedEnvelope);
        }
    }
    match split_string_raw(data) {
        Ok(h) => Ok(head_from(h)),
        Err(e) => Err(SentcError::Sdk(e)),
    }
}

} // verus!
