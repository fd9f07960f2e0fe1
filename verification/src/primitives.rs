//! Trusted boundary to the field, hash and signature collaborators.
//!
//! Everything the library assumes of the outside cryptographic crates is
//! collected here: opaque declarations of their types, names for the values
//! their deterministic functions return, and thin wrappers whose contracts
//! state no more than the collaborators' sources show.

use vstd::prelude::*;

use pairing_ce::bn256::Bn256;
use pairing_ce::bn256::Fr;
use pairing_ce::bn256::FrRepr;
use pairing_ce::ff::PrimeField;
use pairing_ce::ff::PrimeFieldRepr;
use rand::Rand;
use sapling_crypto_ce::alt_babyjubjub::fs::Fs;
use sapling_crypto_ce::alt_babyjubjub::AltJubjubBn256;
use sapling_crypto_ce::eddsa::PrivateKey;
use sapling_crypto_ce::eddsa::PublicKey;
use sapling_crypto_ce::eddsa::Signature;
use sapling_crypto_ce::group_hash::BlakeHasher;
use sapling_crypto_ce::jubjub::FixedGenerators;
use sapling_crypto_ce::poseidon::bn256::Bn256PoseidonParams;
use std::io::Write;

verus! {

/// Width in bytes of the message handed to the signature primitive: one byte
/// short of the field element's full width, so the digest always fits without
/// modular wraparound ambiguity.
pub const NUM_BYTES_TO_SIGN: usize = 31;

#[verifier::external_type_specification]
#[verifier::external_body]
pub struct ExFr(Fr);

#[verifier::external_type_specification]
#[verifier::external_body]
pub struct ExBn256PoseidonParams(Bn256PoseidonParams);

#[verifier::external_type_specification]
#[verifier::external_body]
pub struct ExAltJubjubBn256(AltJubjubBn256);

/// A secret key for spend authorization. The wrapped outside type is kept
/// opaque: nothing of it is read here; it is only handed to the signature
/// primitive.
#[verifier::external_body]
pub struct SpendingKey {
    inner: PrivateKey<Bn256>,
}

/// The public counterpart of a [`SpendingKey`], kept opaque for the same
/// reason.
#[verifier::external_body]
pub struct VerifyingKey {
    inner: PublicKey<Bn256>,
}

/// A signature produced over the byte encoding of a request digest, kept
/// opaque: it is only stored and handed back to the signature primitive.
#[verifier::external_body]
pub struct SpendSignature {
    inner: Signature<Bn256>,
}

impl Clone for SpendSignature {
    /// Relies on the derived `Clone` of the signature type: it copies the
    /// point and scalar, so the copy equals the value cloned.
    #[verifier::external_body]
    fn clone(&self) -> (r: Self)
        ensures
            r == *self,
    {
        SpendSignature { inner: self.inner.clone() }
    }
}

/// The field element that encodes a 64-bit integer.
pub uninterp spec fn fr_of(x: u64) -> Fr;

/// The digest vector the Poseidon sponge returns for an ordered list of
/// field elements under a given parameter set.
pub uninterp spec fn poseidon_of(params: Bn256PoseidonParams, input: Seq<Fr>) -> Seq<Fr>;

/// The canonical little-endian byte representation of a field element.
pub uninterp spec fn fr_bytes_of(x: Fr) -> Seq<u8>;

/// The fixed-width byte string a field element is serialized to before
/// signing: the first NUM_BYTES_TO_SIGN bytes of its canonical
/// little-endian representation.
pub open spec fn fr_bytes31_of(x: Fr) -> Seq<u8> {
    fr_bytes_of(x).take(NUM_BYTES_TO_SIGN as int)
}

/// A parameter set the Poseidon sponge is total on: its width leaves room
/// for at least one absorbed element per cycle, so hashing any input
/// returns a digest.
pub uninterp spec fn poseidon_wf(params: Bn256PoseidonParams) -> bool;

/// The public key derived from a secret key under the spend-authorization
/// generator.
pub uninterp spec fn public_of(sk: SpendingKey, sign_params: AltJubjubBn256) -> VerifyingKey;

/// The outcome of checking a signature over a raw byte message against a
/// public key under the spend-authorization generator.
pub uninterp spec fn eddsa_verifies(
    pk: VerifyingKey,
    msg: Seq<u8>,
    sig: SpendSignature,
    sign_params: AltJubjubBn256,
) -> bool;

/// Relies on the derived `Clone` of the field type: the type is plain data,
/// so the copy equals the value cloned.
pub assume_specification[ <Fr as Clone>::clone ](x: &Fr) -> (r: Fr)
    ensures
        r == *x,
;

/// Relies on ff's `PrimeField::from_repr` applied to `FrRepr::from`: every
/// 64-bit integer lies below the field modulus, so the conversion never fails
/// and its result is a function of the integer alone.
#[verifier::external_body]
pub(crate) fn fr_from_u64(x: u64) -> (r: Fr)
    ensures
        r == fr_of(x),
{
    Fr::from_repr(FrRepr::from(x)).unwrap()
}

/// Relies on the derived `PartialEq` of the field type: it compares the
/// underlying representations, so it decides value equality.
#[verifier::external_body]
pub(crate) fn fr_eq(a: &Fr, b: &Fr) -> (r: bool)
    ensures
        r == (*a == *b),
{
    a == b
}

/// Relies on `Bn256PoseidonParams::new` with the Blake group hasher: it
/// builds the standard width-six parameter set (t = 6, security level 126,
/// output length one), on which the sponge absorbs at least one element per
/// cycle and so is total.
#[verifier::external_body]
pub(crate) fn make_poseidon_params() -> (r: Bn256PoseidonParams)
    ensures
        poseidon_wf(r),
{
    Bn256PoseidonParams::new::<BlakeHasher>()
}

/// Builds the hash parameter set every digest of this library is computed
/// under.
pub fn poseidon_params() -> (r: Bn256PoseidonParams)
    ensures
        poseidon_wf(r),
{
    make_poseidon_params()
}

/// Relies on `sapling_crypto_ce::poseidon::poseidon_hash`: the digest vector
/// is a function of the parameter set and the input alone. On a parameter
/// set the sponge is total on, it holds at least one element, so taking the
/// first one never fails; degenerate widths, on which the callee divides by
/// zero, are excluded here.
#[verifier::external_body]
pub(crate) fn poseidon_digest(params: &Bn256PoseidonParams, input: &Vec<Fr>) -> (r: Fr)
    requires
        poseidon_wf(*params),
    ensures
        r == poseidon_of(*params, input@)[0],
{
    sapling_crypto_ce::poseidon::poseidon_hash::<Bn256>(params, input.as_slice())[0]
}

/// Relies on ff's `PrimeFieldRepr::write_le`: it writes the canonical
/// little-endian representation of the element — 32 bytes for this field —
/// infallibly, as a function of the field element alone.
#[verifier::external_body]
pub(crate) fn fr_to_bytes_le(x: &Fr) -> (r: Vec<u8>)
    ensures
        r@ == fr_bytes_of(*x),
        r@.len() == 32,
{
    let mut bytes: Vec<u8> = Vec::new();
    x.into_repr().write_le(&mut bytes).unwrap();
    bytes
}

/// Serializes a field element to the fixed signing width.
pub(crate) fn fr_to_bytes_le_31(x: &Fr) -> (r: Vec<u8>)
    ensures
        r@ == fr_bytes31_of(*x),
        r@.len() == NUM_BYTES_TO_SIGN,
{
    let mut bytes = fr_to_bytes_le(x);
    bytes.truncate(NUM_BYTES_TO_SIGN);
    proof {
        assert(bytes@ =~= fr_bytes31_of(*x));
    }
    bytes
}

/// Relies on `rand::thread_rng` and the scalar field's `Rand` instance: the
/// key is random, so nothing is stated of it.
#[verifier::external_body]
pub(crate) fn random_spending_key() -> SpendingKey {
    SpendingKey { inner: PrivateKey(Fs::rand(&mut rand::thread_rng())) }
}

/// Relies on `PublicKey::from_private`: the public key is a function of the
/// secret key, the spend-authorization generator and the curve parameters
/// alone.
#[verifier::external_body]
pub(crate) fn derive_verifying_key(sk: &SpendingKey, sign_params: &AltJubjubBn256) -> (r: VerifyingKey)
    ensures
        r == public_of(*sk, *sign_params),
{
    VerifyingKey {
        inner: PublicKey::from_private(&sk.inner, FixedGenerators::SpendingKeyGenerator, sign_params),
    }
}

/// Relies on `PrivateKey::sign_raw_message` (with randomness drawn from
/// `rand::thread_rng`): whatever the randomness, the signature it returns
/// verifies, under the spend-authorization generator and the same curve
/// parameters, against the public key `PublicKey::from_private` derives from
/// the signing key. The callee rejects messages longer than the declared
/// maximum width by assertion, so those inputs are excluded here.
#[verifier::external_body]
pub(crate) fn eddsa_sign_raw(
    sk: &SpendingKey,
    msg: &Vec<u8>,
    sign_params: &AltJubjubBn256,
) -> (r: SpendSignature)
    requires
        msg@.len() == NUM_BYTES_TO_SIGN,
    ensures
        eddsa_verifies(public_of(*sk, *sign_params), msg@, r, *sign_params),
{
    let mut rng = rand::thread_rng();
    SpendSignature {
        inner: sk.inner.sign_raw_message(
            msg.as_slice(),
            &mut rng,
            FixedGenerators::SpendingKeyGenerator,
            sign_params,
            NUM_BYTES_TO_SIGN,
        ),
    }
}

/// Relies on `PublicKey::verify_for_raw_message`: its outcome is a function
/// of the public key, the message, the signature and the curve parameters
/// alone, with the generator fixed to spend authorization. The callee rejects
/// messages longer than the declared maximum width by assertion, so those
/// inputs are excluded here.
#[verifier::external_body]
pub(crate) fn eddsa_verify_raw(
    pk: &VerifyingKey,
    msg: &Vec<u8>,
    sig: &SpendSignature,
    sign_params: &AltJubjubBn256,
) -> (r: bool)
    requires
        msg@.len() == NUM_BYTES_TO_SIGN,
    ensures
        r == eddsa_verifies(*pk, msg@, *sig, *sign_params),
{
    pk.inner.verify_for_raw_message(
        msg.as_slice(),
        &sig.inner,
        FixedGenerators::SpendingKeyGenerator,
        sign_params,
        NUM_BYTES_TO_SIGN,
    )
}

/// Draws a fresh spend-authorization key pair; the verifying key is the one
/// derived from the secret key, so signatures made with the secret key are
/// owed acceptance by it.
pub fn generate_keypair(sign_params: &AltJubjubBn256) -> (r: (SpendingKey, VerifyingKey))
    ensures
        r.1 == public_of(r.0, *sign_params),
{
    let sk = random_spending_key();
    let pk = derive_verifying_key(&sk, sign_params);
    (sk, pk)
}

} // verus!
