use vstd::prelude::*;
use crate::secrets::SecretEntry;
use crate::text::copy_bytes;

verus! {

/// The standard-alphabet, padded base64 encoding of a byte string.
pub uninterp spec fn b64_of(b: Seq<u8>) -> Seq<u8>;

/// The public key that belongs to a 32-byte secret key.
pub uninterp spec fn pk_of(sk: Seq<u8>) -> Seq<u8>;

/// What opening a sealed box with a secret key returns.
pub uninterp spec fn unseal_of(sk: Seq<u8>, sealed: Seq<u8>) -> Option<Seq<u8>>;

/// Relies on base64's standard engine: encodes bytes as standard-alphabet,
/// padded base64 text.
#[verifier::external_body]
fn b64_encode(b: &Vec<u8>) -> (r: Vec<u8>)
    ensures
        r@ == b64_of(b@),
{
    base64::Engine::encode(&base64::engine::general_purpose::STANDARD, b.as_slice()).into_bytes()
}

/// Relies on base64's standard engine: decoding succeeds exactly on the
/// canonical standard-alphabet, padded encoding of some byte string — it
/// requires canonical padding and rejects non-zero trailing bits — and then
/// returns that string, the unique preimage of the text under the encoding.
#[verifier::external_body]
fn b64_decode(text: &Vec<u8>) -> (r: Option<Vec<u8>>)
    ensures
        (match r {
            Some(b) => b64_of(b@) == text@ && (forall|b2: Seq<u8>|
                b64_of(b2) == text@ ==> b2 == b@),
            None => forall|b2: Seq<u8>| b64_of(b2) != text@,
        }),
{
    match base64::Engine::decode(&base64::engine::general_purpose::STANDARD, text.as_slice()) {
        Ok(b) => Some(b),
        Err(_) => None,
    }
}

/// Relies on crypto_box's sealed boxes (PublicKey::seal, the libsodium
/// crypto_box_seal construction): the sealed payload opens, under any secret
/// key whose public key is the recipient key, to exactly the sealed
/// plaintext. Sealing is randomized, so nothing relates two calls.
#[verifier::external_body]
fn seal_to(plaintext: &Vec<u8>, recipient: &Vec<u8>) -> (r: Option<Vec<u8>>)
    requires
        recipient@.len() == 32,
    ensures
        (match r {
            Some(sealed) => forall|sk: Seq<u8>|
                sk.len() == 32 && pk_of(sk) == recipient@ ==> unseal_of(sk, sealed@) == Some(
                    plaintext@,
                ),
            None => true,
        }),
{
    let pk = match crypto_box::PublicKey::from_slice(recipient.as_slice()) {
        Ok(k) => k,
        Err(_) => {
            return None;
        },
    };
    match pk.seal(&mut crypto_box::aead::OsRng, plaintext.as_slice()) {
        Ok(sealed) => Some(sealed),
        Err(_) => None,
    }
}

/// The per-repository public key the remote service hands out: base64 text
/// plus the service's identifier for that key.
pub struct RecipientKey {
    pub key_b64: Vec<u8>,
    pub key_id: Vec<u8>,
}

/// A secret ready for transport: its name, the sealed-and-encoded payload,
/// and the identifier of the key that sealed it.
pub struct EncodedSecret {
    pub key: Vec<u8>,
    pub payload: Vec<u8>,
    pub key_id: Vec<u8>,
}

#[derive(Debug, PartialEq, Eq, Structural, Clone, Copy)]
pub enum EncodeError {
    /// The recipient key was not canonical base64 of exactly 32 bytes.
    MalformedRecipientKey,
    /// The sealing primitive itself refused.
    SealFailed,
}

/// What a well-formed payload promises: some 32-byte recipient key encodes to
/// the given base64 key text, and the payload is the base64 encoding of a
/// sealed box that opens to the plaintext under every matching secret key.
pub open spec fn sealed_payload_ok(payload: Seq<u8>, plaintext: Seq<u8>, key_b64: Seq<u8>) -> bool {
    exists|recipient: Seq<u8>, sealed: Seq<u8>|
        recipient.len() == 32 && #[trigger] b64_of(recipient) == key_b64 && payload == #[trigger] b64_of(
            sealed,
        ) && (forall|sk: Seq<u8>|
            sk.len() == 32 && pk_of(sk) == recipient ==> unseal_of(sk, sealed) == Some(plaintext))
}

/// Decode the recipient key text; succeeds if and only if the text is
/// canonical base64 of exactly 32 bytes, and then returns those bytes.
pub fn decode_recipient_key(rk: &RecipientKey) -> (r: Option<Vec<u8>>)
    ensures
        (match r {
            Some(k) => k@.len() == 32 && b64_of(k@) == rk.key_b64@,
            None => forall|k: Seq<u8>| k.len() == 32 ==> b64_of(k) != rk.key_b64@,
        }),
{
    match b64_decode(&rk.key_b64) {
        Some(k) => if k.len() == 32 {
            Some(k)
        } else {
            proof {
                assert forall|k2: Seq<u8>| k2.len() == 32 implies b64_of(k2) != rk.key_b64@ by {
                    if b64_of(k2) == rk.key_b64@ {
                        assert(k2 == k@);
                    }
                }
            }
            None
        },
        None => None,
    }
}

/// A recipient key text that some 32-byte key encodes to: the one shape of
/// key material the encoder accepts.
pub open spec fn well_formed_key_text(key_b64: Seq<u8>) -> bool {
    exists|k: Seq<u8>| k.len() == 32 && #[trigger] b64_of(k) == key_b64
}

/// Seal one entry's value to the recipient key: the result keeps the entry's
/// name and the key's identifier, and carries a payload that only the holder
/// of the matching secret key can open, and that opens to the entry's value.
/// The encoder rejects the key material as malformed exactly when no 32-byte
/// key encodes to the given text; with well-formed key material only the
/// sealing primitive's own refusal is left.
pub fn encode_secret(entry: &SecretEntry, rk: &RecipientKey) -> (r: Result<
    EncodedSecret,
    EncodeError,
>)
    ensures
        (match r {
            Ok(e) => e.key@ == entry.key@ && e.key_id@ == rk.key_id@ && sealed_payload_ok(
                e.payload@,
                entry.value@,
                rk.key_b64@,
            ),
            Err(e) => e == EncodeError::MalformedRecipientKey || e == EncodeError::SealFailed,
        }),
        r == Err::<EncodedSecret, EncodeError>(EncodeError::MalformedRecipientKey)
            <==> !well_formed_key_text(rk.key_b64@),
{
    let recipient = match decode_recipient_key(rk) {
        Some(k) => k,
        None => {
            proof {
                assert(!well_formed_key_text(rk.key_b64@)) by {
                    if well_formed_key_text(rk.key_b64@) {
                        let k0 = choose|k: Seq<u8>| k.len() == 32 && #[trigger] b64_of(k)
                            == rk.key_b64@;
                        assert(b64_of(k0) != rk.key_b64@);
                    }
                }
            }
            return Err(EncodeError::MalformedRecipientKey);
        },
    };
    proof {
        assert(recipient@.len() == 32 && b64_of(recipient@) == rk.key_b64@);
        assert(well_formed_key_text(rk.key_b64@));
    }
    let sealed = match seal_to(&entry.value, &recipient) {
        Some(s) => s,
        None => {
            return Err(EncodeError::SealFailed);
        },
    };
    let payload = b64_encode(&sealed);
    proof {
        assert(recipient@.len() == 32 && b64_of(recipient@) == rk.key_b64@ && payload@ == b64_of(
            sealed@,
        ) && (forall|sk: Seq<u8>|
            sk.len() == 32 && pk_of(sk) == recipient@ ==> unseal_of(sk, sealed@) == Some(
                entry.value@,
            )));
        assert(sealed_payload_ok(payload@, entry.value@, rk.key_b64@));
    }
    Ok(EncodedSecret { key: copy_bytes(&entry.key), payload, key_id: copy_bytes(&rk.key_id) })
}

} // verus!
