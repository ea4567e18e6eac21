//! Signatures over the curve P-384, and random bytes.
use ecdsa::signature::Verifier;
use ecdsa::{Signature, VerifyingKey};
use p384::pkcs8::DecodePublicKey;
use p384::NistP384;
use rand::RngExt;
use vstd::prelude::*;

verus! {

/// The number that bytes make, the highest first.
pub open spec fn be_value(bytes: Seq<u8>) -> nat
    decreases bytes.len(),
{
    if bytes.len() == 0 {
        0
    } else {
        be_value(bytes.drop_last()) * 256 + bytes.last() as nat
    }
}

/// The order of the group of P-384.
pub open spec fn group_order() -> nat {
    0xffffffffffffffffffffffffffffffffffffffffffffffffc7634d81f4372ddf581a0db248b0a77aecec196accc52973nat
}

/// Whether bytes have the form of a signature: two numbers of 48 bytes, each above 0 and
/// below the order of the group.
pub open spec fn signature_form(bytes: Seq<u8>) -> bool {
    &&& bytes.len() == 96
    &&& 0 < be_value(bytes.take(48)) < group_order()
    &&& 0 < be_value(bytes.skip(48)) < group_order()
}

/// What is wrong with bytes that are no P-384 public key in DER, in the words of
/// `VerifyingKey::from_public_key_der`.
pub uninterp spec fn public_key_fault(der: Seq<u8>) -> Option<Seq<char>>;

/// Whether bytes are a P-384 public key in DER.
pub open spec fn public_key_form(der: Seq<u8>) -> bool {
    public_key_fault(der) is None
}

/// Whether a signature of a message holds under a public key in DER, as
/// `VerifyingKey::verify` decides it.
pub uninterp spec fn signature_holds(der: Seq<u8>, message: Seq<u8>, signature: Seq<u8>) -> bool;

/// Calls `from_public_key_der` of [`VerifyingKey`], which parses a SubjectPublicKeyInfo, and
/// hands out the words of its error. The answer is a function of the bytes; the grammar of DER
/// is not spelled out here.
#[verifier::external_body]
pub(crate) fn check_public_key(der: &[u8]) -> (r: Result<(), String>)
    ensures
        (match r {
            Ok(_) => None,
            Err(fault) => Some(fault@),
        }) == public_key_fault(der@),
{
    match VerifyingKey::<NistP384>::from_public_key_der(der) {
        Ok(_) => Ok(()),
        Err(e) => Err(e.to_string()),
    }
}

/// Calls [`Signature::from_slice`], which takes 96 bytes: the two numbers of a signature,
/// each in the range of the group's scalars and not 0.
#[verifier::external_body]
pub(crate) fn is_signature(bytes: &[u8]) -> (r: bool)
    ensures
        r == signature_form(bytes@),
{
    Signature::<NistP384>::from_slice(bytes).is_ok()
}

/// Calls `verify` of [`VerifyingKey`] with a key and a signature that parse. The answer is a
/// function of the three rows of bytes; the arithmetic of the curve is not spelled out here.
#[verifier::external_body]
pub(crate) fn verify(der: &[u8], message: &[u8], signature: &[u8]) -> (r: bool)
    requires
        public_key_form(der@),
        signature_form(signature@),
    ensures
        r == signature_holds(der@, message@, signature@),
{
    let key = VerifyingKey::<NistP384>::from_public_key_der(der).expect("a parsed key");
    let signature = Signature::<NistP384>::from_slice(signature).expect("a parsed signature");
    key.verify(message, &signature).is_ok()
}

/// Calls `fill` of the thread's random generator. Nothing is known of the bytes but how many
/// there are. The call panics where the system has no source of randomness.
#[verifier::external_body]
pub(crate) fn random_bytes(len: usize) -> (r: Vec<u8>)
    requires
        len <= isize::MAX,
    ensures
        r@.len() == len,
{
    let mut bytes = vec![0u8; len];
    rand::rng().fill(&mut bytes[..]);
    bytes
}

/// A number is read with its highest byte first: one more byte makes 256 times as much plus the
/// byte, and zeros in front do not count.
pub proof fn numbers_have_their_high_byte_first(bytes: Seq<u8>, last: u8)
    ensures
        be_value(Seq::<u8>::empty()) == 0,
        be_value(bytes.push(last)) == 256 * be_value(bytes) + last,
        be_value(seq![0u8] + bytes) == be_value(bytes),
    decreases bytes.len(),
{
    assert(bytes.push(last).drop_last() =~= bytes);
    assert(bytes.push(last).last() == last);
    let z = seq![0u8] + bytes;
    if bytes.len() > 0 {
        numbers_have_their_high_byte_first(bytes.drop_last(), bytes.last());
        assert(z.drop_last() =~= seq![0u8] + bytes.drop_last());
        assert(z.last() == bytes.last());
    } else {
        reveal_with_fuel(be_value, 2);
        assert(z.drop_last() =~= Seq::<u8>::empty());
        assert(z.last() == 0);
    }
}

/// A signature is two numbers of 48 bytes, neither of them zero, and of the same range: with
/// both swapped it has the form of one still.
pub proof fn signatures_are_two_numbers(r: Seq<u8>, s: Seq<u8>)
    requires
        r.len() == 48,
        s.len() == 48,
    ensures
        signature_form(r + s) == signature_form(s + r),
        signature_form(r + s) ==> be_value(r) > 0 && be_value(s) > 0,
        be_value(r) == 0 ==> !signature_form(r + s),
{
    assert((r + s).take(48) =~= r);
    assert((r + s).skip(48) =~= s);
    assert((s + r).take(48) =~= s);
    assert((s + r).skip(48) =~= r);
}

/// Nothing of another length than 96 bytes has the form of a signature.
pub proof fn signatures_have_96_bytes(bytes: Seq<u8>)
    requires
        bytes.len() != 96,
    ensures
        !signature_form(bytes),
{
}

/// The order of the group P-384 is a little less than two to the 384th.
pub proof fn the_group_has_its_order()
    ensures
        group_order() + 0x389cb27e0bc8d220a7e5f24db74f58851313e695333ad68dnat
            == 0x1000000000000000000000000000000000000000000000000000000000000000000000000000000000000000000000000nat,
{
}

} // verus!
