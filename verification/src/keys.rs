//! Key derivation: the public key of a 64-byte secret is the base point of
//! the first pairing group multiplied by the secret, read as a little-endian
//! integer and reduced modulo the order of the scalar field.

use vstd::prelude::*;
use bls12_381::{G1Projective, Scalar};
use group::Curve;
use crate::error::{Invalid, TxError};
use crate::numeral::le_value;

verus! {

/// The length of a secret key.
pub const SECRET_LEN: usize = 64;

/// The length of a compressed public key, and of an address.
pub const PUBLIC_KEY_LEN: usize = 48;

/// The order of the scalar field of BLS12-381.
pub open spec fn scalar_order() -> nat {
    0x73eda753299d7d483339d80809a1d80553bda402fffe5bfeffffffff00000001nat
}

/// The scalar that a secret stands for.
pub open spec fn secret_scalar(secret: Seq<u8>) -> nat {
    le_value(secret) % scalar_order()
}

/// The compressed form of the base point of the first pairing group
/// multiplied by `scalar`.
pub uninterp spec fn g1_public_key(scalar: nat) -> Seq<u8>;

/// The public key of `secret`.
pub open spec fn public_key_of(secret: Seq<u8>) -> Seq<u8> {
    g1_public_key(secret_scalar(secret))
}

/// `Scalar::from_bytes_wide` and `Scalar::to_bytes` of the crate bls12_381:
/// the 64 bytes are read as a little-endian integer and reduced modulo the
/// order of the scalar field; the result is that scalar in 32 little-endian
/// bytes.
#[verifier::external_body]
pub(crate) fn reduce_wide(secret: &[u8; 64]) -> (scalar: [u8; 32])
    ensures
        le_value(scalar@) == le_value(secret@) % scalar_order(),
{
    Scalar::from_bytes_wide(secret).to_bytes()
}

/// Multiplication of `G1Projective::generator` by a scalar in the crate
/// bls12_381, followed by `to_affine` and `to_compressed`: the 48-byte
/// compressed point. `Scalar::from_bytes` accepts the little-endian bytes of
/// any number below the order, which is what `requires` asks for. The point
/// depends on the number alone.
#[verifier::external_body]
fn base_point_multiple(scalar: &[u8; 32]) -> (point: [u8; 48])
    requires
        le_value(scalar@) < scalar_order(),
    ensures
        point@ == g1_public_key(le_value(scalar@)),
{
    let s = Scalar::from_bytes(scalar).unwrap();
    (G1Projective::generator() * s).to_affine().to_compressed()
}

/// The 64 bytes of `bytes` as an array.
pub(crate) fn secret_array(bytes: &[u8]) -> (out: [u8; 64])
    requires
        bytes.len() == 64,
    ensures
        out@ == bytes@,
{
    let mut out = [0u8; 64];
    let mut i: usize = 0;
    while i < 64
        invariant
            i <= 64,
            bytes.len() == 64,
            forall|j: int| 0 <= j < i ==> out@[j] == bytes@[j],
        decreases 64 - i,
    {
        out.set(i, bytes[i]);
        i += 1;
    }
    proof {
        assert(out@ =~= bytes@);
    }
    out
}

/// Derives the compressed public key of a secret key. Fails, before any
/// curve arithmetic, where the secret is not exactly 64 bytes long.
pub fn get_public_key(sk_bytes: &[u8]) -> (r: Result<Vec<u8>, TxError>)
    ensures
        sk_bytes@.len() != 64 ==> r == Err::<Vec<u8>, TxError>(
            TxError::Validation(Invalid::SecretLength),
        ),
        sk_bytes@.len() == 64 ==> (r matches Ok(pk) && pk@ == public_key_of(sk_bytes@)
            && pk@.len() == 48),
{
    if sk_bytes.len() != SECRET_LEN {
        return Err(TxError::Validation(Invalid::SecretLength));
    }
    let wide = secret_array(sk_bytes);
    let scalar = reduce_wide(&wide);
    let point = base_point_multiple(&scalar);
    let mut pk: Vec<u8> = Vec::new();
    let mut i: usize = 0;
    while i < 48
        invariant
            i <= 48,
            pk@ == point@.subrange(0, i as int),
        decreases 48 - i,
    {
        pk.push(point[i]);
        i += 1;
        proof {
            assert(pk@ =~= point@.subrange(0, i as int));
        }
    }
    proof {
        assert(pk@ =~= point@);
    }
    Ok(pk)
}

} // verus!
