//! Signing: a BLS signature in the second pairing group over a message
//! digest, under a domain-separation tag that belongs to this transaction
//! protocol alone.

use vstd::prelude::*;
use vstd::utf8::encode_utf8;
use blst::min_pk::{PublicKey, SecretKey, Signature};
use blst::BLST_ERROR;
use crate::error::{Invalid, TxError};
use crate::keys::{
    public_key_of, reduce_wide, scalar_order, secret_array, secret_scalar, PUBLIC_KEY_LEN,
    SECRET_LEN,
};
use crate::numeral::{be_value, le_value};

verus! {

/// The length of a compressed signature.
pub const SIGNATURE_LEN: usize = 96;

/// The domain-separation tag under which transactions are signed.
pub const DST_TX: &'static str = "AMADEUS_SIG_BLS12381G2_XMD:SHA-256_SSWU_RO_TX_";

/// The bytes of [`DST_TX`].
pub open spec fn signing_domain() -> Seq<u8> {
    encode_utf8(DST_TX@)
}

/// The status that the crate blst hands back.
#[verifier::external_type_specification]
#[verifier::external_body]
pub struct ExBlstError(BLST_ERROR);

/// The 96-byte compressed signature of the secret scalar `scalar` over
/// `message` under the tag `dst`.
pub uninterp spec fn bls_signature(scalar: nat, message: Seq<u8>, dst: Seq<u8>) -> Seq<u8>;

/// Whether `signature` is accepted for `message` under `dst` and the
/// compressed public key `public_key`.
pub uninterp spec fn bls_accepts(
    public_key: Seq<u8>,
    message: Seq<u8>,
    dst: Seq<u8>,
    signature: Seq<u8>,
) -> bool;

/// The signature of `secret` over `message` under `dst`.
pub open spec fn signature_of(secret: Seq<u8>, message: Seq<u8>, dst: Seq<u8>) -> Seq<u8> {
    bls_signature(secret_scalar(secret), message, dst)
}

/// Secrets that stand for the same scalar have the same public key and make
/// the same signatures: only the secret modulo the order of the scalar field
/// counts.
pub proof fn lemma_congruent_secrets(a: Seq<u8>, b: Seq<u8>, message: Seq<u8>, dst: Seq<u8>)
    requires
        le_value(a) % scalar_order() == le_value(b) % scalar_order(),
    ensures
        public_key_of(a) == public_key_of(b),
        signature_of(a, message, dst) == signature_of(b, message, dst),
{
}

/// `SecretKey::from_bytes`, `SecretKey::sign` and `Signature::to_bytes` of
/// the crate blst, in its `min_pk` flavour. `from_bytes` reads 32 big-endian
/// bytes and refuses zero and every number from the order of the scalar
/// field upwards. The signature, made with an empty augmentation, depends on
/// the number, the message and the tag alone.
#[verifier::external_body]
fn sign_with_scalar(scalar_be: &[u8; 32], message: &[u8], dst: &[u8]) -> (r: Result<
    [u8; 96],
    BLST_ERROR,
>)
    ensures
        r is Ok <==> 0 < be_value(scalar_be@) < scalar_order(),
        r matches Ok(signature) ==> signature@ == bls_signature(
            be_value(scalar_be@),
            message@,
            dst@,
        ),
{
    match SecretKey::from_bytes(scalar_be) {
        Ok(key) => Ok(key.sign(message, dst, &[]).to_bytes()),
        Err(e) => Err(e),
    }
}

/// `PublicKey::from_bytes`, `Signature::from_bytes` and `Signature::verify`
/// of the crate blst, in its `min_pk` flavour, with the group checks of both
/// points switched on and an empty augmentation. Bytes that are no public
/// key or no signature are not accepted.
#[verifier::external_body]
fn verify_with_key(public_key: &[u8], message: &[u8], dst: &[u8], signature: &[u8]) -> (ok: bool)
    ensures
        ok == bls_accepts(public_key@, message@, dst@, signature@),
{
    let key = match PublicKey::from_bytes(public_key) {
        Ok(key) => key,
        Err(_) => return false,
    };
    let sig = match Signature::from_bytes(signature) {
        Ok(sig) => sig,
        Err(_) => return false,
    };
    matches!(sig.verify(true, message, dst, &[], &key, true), BLST_ERROR::BLST_SUCCESS)
}

/// The bytes of `a` in the opposite order.
fn reversed(a: &[u8; 32]) -> (out: [u8; 32])
    ensures
        out@ == a@.reverse(),
{
    let mut out = [0u8; 32];
    let mut i: usize = 0;
    while i < 32
        invariant
            i <= 32,
            forall|j: int| 0 <= j < i ==> out@[j] == a@[31 - j],
        decreases 32 - i,
    {
        out.set(i, a[31 - i]);
        i += 1;
    }
    proof {
        assert(out@ =~= a@.reverse());
    }
    out
}

/// Signs `message` with the secret key `sk_bytes` under the tag `dst`.
///
/// Fails with a validation error where the secret is not 64 bytes long, and
/// with a crypto error where the secret stands for the scalar zero, with
/// which nothing can be signed.
pub fn sign(sk_bytes: &[u8], message: &[u8], dst: &[u8]) -> (r: Result<Vec<u8>, TxError>)
    ensures
        sk_bytes@.len() != 64 ==> r == Err::<Vec<u8>, TxError>(
            TxError::Validation(Invalid::SecretLength),
        ),
        sk_bytes@.len() == 64 && secret_scalar(sk_bytes@) == 0 ==> r == Err::<Vec<u8>, TxError>(
            TxError::Crypto,
        ),
        sk_bytes@.len() == 64 && secret_scalar(sk_bytes@) != 0 ==> (r matches Ok(signature)
            && signature@ == signature_of(sk_bytes@, message@, dst@) && signature@.len() == 96),
{
    if sk_bytes.len() != SECRET_LEN {
        return Err(TxError::Validation(Invalid::SecretLength));
    }
    let wide = secret_array(sk_bytes);
    let scalar = reduce_wide(&wide);
    let scalar_be = reversed(&scalar);
    proof {
        assert(scalar_be@.reverse() =~= scalar@);
        assert(le_value(scalar@) == be_value(scalar_be@));
    }
    match sign_with_scalar(&scalar_be, message, dst) {
        Ok(point) => {
            let mut signature: Vec<u8> = Vec::new();
            let mut i: usize = 0;
            while i < 96
                invariant
                    i <= 96,
                    signature@ == point@.subrange(0, i as int),
                decreases 96 - i,
            {
                signature.push(point[i]);
                i += 1;
                proof {
                    assert(signature@ =~= point@.subrange(0, i as int));
                }
            }
            proof {
                assert(signature@ =~= point@);
            }
            Ok(signature)
        },
        Err(_) => Err(TxError::Crypto),
    }
}

/// Whether `signature` is a valid signature over `message` under `dst` for
/// `public_key`.
pub open spec fn valid_signature(
    public_key: Seq<u8>,
    message: Seq<u8>,
    dst: Seq<u8>,
    signature: Seq<u8>,
) -> bool {
    &&& public_key.len() == 48
    &&& signature.len() == 96
    &&& bls_accepts(public_key, message, dst, signature)
}

/// Checks a signature over `message` under `dst` against a compressed public
/// key. Keys and signatures in any other than the compressed form are not
/// accepted. Nothing in this library calls it on the way to a signature: a
/// caller that wants to check one before it pays for a submission calls it
/// of its own accord.
pub fn verify(public_key: &[u8], message: &[u8], dst: &[u8], signature: &[u8]) -> (ok: bool)
    ensures
        ok == valid_signature(public_key@, message@, dst@, signature@),
{
    if public_key.len() != PUBLIC_KEY_LEN || signature.len() != SIGNATURE_LEN {
        return false;
    }
    verify_with_key(public_key, message, dst, signature)
}

} // verus!
