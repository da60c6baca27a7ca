//! Keys, digests and signatures, each as bytes.

use crate::hexadecimal::{decode, hex_decoded, HexError};
use blake2::{Blake2b, Digest};
use k256::ecdsa::signature::hazmat::PrehashSigner;
use k256::ecdsa::{Signature, SigningKey};
use typenum::U32;
use vstd::prelude::*;
use vstd::utf8::encode_utf8;

verus! {

/// The number whose digits in base 256 the bytes are, the most significant first.
pub open spec fn big_endian(bytes: Seq<u8>) -> nat
    decreases bytes.len(),
{
    if bytes.len() == 0 {
        0
    } else {
        256 * big_endian(bytes.drop_last()) + bytes.last() as nat
    }
}

/// The order of the group of the curve secp256k1.
pub open spec fn group_order() -> nat {
    0xFFFFFFFFFFFFFFFFFFFFFFFFFFFFFFFEBAAEDCE6AF48A03BBFD25E8CD0364141nat
}

/// Whether bytes are a scalar of the group other than zero.
pub open spec fn is_scalar(bytes: Seq<u8>) -> bool {
    0 < big_endian(bytes) < group_order()
}

/// Whether bytes are a private key in full length.
pub open spec fn is_private_key(bytes: Seq<u8>) -> bool {
    bytes.len() == 32 && is_scalar(bytes)
}

/// Whether bytes are read as a private key. A key may lack up to eight of its leading bytes.
pub open spec fn is_readable_key(bytes: Seq<u8>) -> bool {
    24 <= bytes.len() <= 32 && is_scalar(bytes)
}

/// Bytes with zeros before them up to the full length of a private key.
pub open spec fn padded_key(bytes: Seq<u8>) -> Seq<u8> {
    Seq::new((32 - bytes.len()) as nat, |i: int| 0u8) + bytes
}

/// Whether bytes are a signature: two scalars other than zero, in full length.
pub open spec fn is_signature(bytes: Seq<u8>) -> bool {
    bytes.len() == 64 && is_scalar(bytes.take(32)) && is_scalar(bytes.skip(32))
}

/// Bytes without the zeros that they begin with.
pub open spec fn without_leading_zeros(bytes: Seq<u8>) -> Seq<u8>
    decreases bytes.len(),
{
    if bytes.len() > 0 && bytes.first() == 0 {
        without_leading_zeros(bytes.drop_first())
    } else {
        bytes
    }
}

/// A positive number, given by its bytes, as an integer of DER: the fewest bytes that hold it, of
/// which the first has its high bit clear.
pub open spec fn der_integer(bytes: Seq<u8>) -> Seq<u8> {
    let digits = without_leading_zeros(bytes);
    let content = if digits.len() > 0 && digits.first() >= 128 {
        seq![0u8] + digits
    } else {
        digits
    };
    seq![2u8, content.len() as u8] + content
}

/// A signature in DER: a sequence of its two integers.
pub open spec fn der_signature(bytes: Seq<u8>) -> Seq<u8> {
    let content = der_integer(bytes.take(32)) + der_integer(bytes.skip(32));
    seq![0x30u8, content.len() as u8] + content
}

/// The BLAKE2b digest of bytes in 32 bytes.
pub uninterp spec fn blake2b_256(data: Seq<u8>) -> Seq<u8>;

/// The deterministic ECDSA signature of a digest with a private key, if the two give one.
pub uninterp spec fn ecdsa_signature(key: Seq<u8>, digest: Seq<u8>) -> Option<Seq<u8>>;

/// Whether bytes have the shape of an uncompressed point: a tag of 4 and two coordinates of 32
/// bytes each.
pub open spec fn is_uncompressed_point(bytes: Seq<u8>) -> bool {
    bytes.len() == 65 && bytes[0] == 4
}

/// The public key of a private key, as an uncompressed point.
pub uninterp spec fn uncompressed_point(key: Seq<u8>) -> Seq<u8>;

/// Why a text is not a private key.
#[derive(Debug, Clone, Copy, PartialEq, Eq, Structural)]
pub enum KeyError {
    /// The text is not hexadecimal.
    InvalidHex(HexError),
    /// The bytes are too few or too many, or their number is not below the order of the group or
    /// is zero.
    InvalidKey,
}

/// The private key that a text is the hexadecimal form of, or why there is none.
pub open spec fn key_in(text: Seq<char>) -> Result<Seq<u8>, KeyError> {
    match hex_decoded(encode_utf8(text)) {
        Ok(bytes) => if is_readable_key(bytes) {
            Ok(padded_key(bytes))
        } else {
            Err(KeyError::InvalidKey)
        },
        Err(e) => Err(KeyError::InvalidHex(e)),
    }
}

/// Calls `from_slice` and `to_bytes` of `k256::ecdsa::SigningKey`: reads 24 to 32 bytes as a
/// number, the most significant first, refuses zero and what is not below the order of the group,
/// and writes the number in 32 bytes.
#[verifier::external_body]
fn full_key(bytes: &Vec<u8>) -> (res: Option<Vec<u8>>)
    ensures
        res is Some <==> is_readable_key(bytes@),
        res is Some ==> res->0@ == padded_key(bytes@),
{
    SigningKey::from_slice(bytes).ok().map(|key| key.to_bytes().to_vec())
}

/// Calls `sign_prehash` of `k256::ecdsa::SigningKey`. The signature is deterministic, so it is a
/// function of the key and the digest; that there is one is not certain, since either of its
/// numbers could come out as zero. Its two numbers are scalars other than zero.
#[verifier::external_body]
pub(crate) fn sign_prehash(key: &Vec<u8>, digest: &[u8; 32]) -> (res: Option<Vec<u8>>)
    requires
        is_private_key(key@),
    ensures
        match ecdsa_signature(key@, digest@) {
            Some(signature) => res is Some && res->0@ == signature,
            None => res is None,
        },
        res is Some ==> is_signature(res->0@),
{
    let key = SigningKey::from_slice(key).unwrap();
    let signature: Result<Signature, k256::ecdsa::Error> = key.sign_prehash(digest);
    signature.ok().map(|signature| signature.to_bytes().to_vec())
}

/// Calls `to_der` of `k256::ecdsa::Signature`, which writes the two numbers of the signature as a
/// DER sequence of two integers.
#[verifier::external_body]
pub(crate) fn to_der(signature: &Vec<u8>) -> (res: Vec<u8>)
    requires
        is_signature(signature@),
    ensures
        res@ == der_signature(signature@),
{
    Signature::from_slice(signature).unwrap().to_der().as_bytes().to_vec()
}

/// Calls `verifying_key` of `k256::ecdsa::SigningKey` and `to_encoded_point` of the public key,
/// without compression: a tag and the two coordinates, 32 bytes each.
#[verifier::external_body]
pub(crate) fn public_key(key: &Vec<u8>) -> (res: Vec<u8>)
    requires
        is_private_key(key@),
    ensures
        res@ == uncompressed_point(key@),
        is_uncompressed_point(res@),
{
    let key = SigningKey::from_slice(key).unwrap();
    key.verifying_key().to_encoded_point(false).as_bytes().to_vec()
}

/// Computes a BLAKE2b digest of 32 bytes. Calls `new`, `update` and `finalize` of
/// `blake2::Blake2b` for that size; the digest is a function of the data.
#[verifier::external_body]
pub(crate) fn blake2b_256_hash(data: &[u8]) -> (res: [u8; 32])
    ensures
        res@ == blake2b_256(data@),
{
    let mut blake = Blake2b::<U32>::new();
    blake.update(data);
    blake.finalize().into()
}

/// The zeros before a key do not change its number.
proof fn lemma_padding_keeps_the_number(zeros: nat, bytes: Seq<u8>)
    ensures
        big_endian(Seq::new(zeros, |i: int| 0u8) + bytes) == big_endian(bytes),
    decreases bytes.len(), zeros,
{
    let padding = Seq::new(zeros, |i: int| 0u8);
    let all = padding + bytes;
    if bytes.len() > 0 {
        lemma_padding_keeps_the_number(zeros, bytes.drop_last());
        assert(all.drop_last() =~= padding + bytes.drop_last());
        assert(all.last() == bytes.last());
    } else if zeros > 0 {
        let shorter = Seq::new((zeros - 1) as nat, |i: int| 0u8);
        lemma_padding_keeps_the_number((zeros - 1) as nat, bytes);
        assert(all.drop_last() =~= shorter + bytes);
        assert(all.last() == 0);
    } else {
        assert(all =~= bytes);
    }
}

/// A key that is read is a private key in full length.
pub proof fn lemma_key_is_private_key(text: Seq<char>)
    ensures
        key_in(text) matches Ok(key) ==> is_private_key(key),
{
    match hex_decoded(encode_utf8(text)) {
        Ok(bytes) => {
            if is_readable_key(bytes) {
                lemma_padding_keeps_the_number((32 - bytes.len()) as nat, bytes);
            }
        },
        Err(_) => {},
    }
}

/// What is left without leading zeros is the end of the bytes after those zeros, does not begin
/// with a zero, and is empty only where the number is zero.
proof fn lemma_without_leading_zeros(bytes: Seq<u8>)
    ensures
        ({
            let digits = without_leading_zeros(bytes);
            &&& digits.len() <= bytes.len()
            &&& bytes == Seq::new((bytes.len() - digits.len()) as nat, |i: int| 0u8) + digits
            &&& digits.len() > 0 ==> digits.first() != 0
            &&& big_endian(bytes) > 0 ==> digits.len() > 0
        }),
    decreases bytes.len(),
{
    let digits = without_leading_zeros(bytes);
    let zeros = (bytes.len() - digits.len()) as nat;
    if bytes.len() > 0 && bytes.first() == 0 {
        let rest = bytes.drop_first();
        lemma_without_leading_zeros(rest);
        assert(bytes =~= Seq::new(zeros, |i: int| 0u8) + digits) by {
            assert forall|i: int| 0 < i < bytes.len() implies bytes[i] == rest[i - 1] by {}
        }
    } else {
        assert(bytes =~= Seq::new(0, |i: int| 0u8) + digits);
    }
    lemma_padding_keeps_the_number(zeros, digits);
}

/// The integer of DER begins with its tag and the number of its other bytes, at least one and at
/// most one more than the scalar has.
proof fn lemma_der_integer(bytes: Seq<u8>)
    requires
        bytes.len() == 32,
        is_scalar(bytes),
    ensures
        ({
            let der = der_integer(bytes);
            &&& 3 <= der.len() <= 35
            &&& der[0] == 2
            &&& der[1] == der.len() - 2
            &&& der[2] < 128
        }),
{
    lemma_without_leading_zeros(bytes);
}

/// The integer of DER shows where it ends, and determines the scalar.
proof fn lemma_der_integer_is_self_delimiting(a: Seq<u8>, b: Seq<u8>, x: Seq<u8>, y: Seq<u8>)
    requires
        a.len() == 32 && is_scalar(a),
        b.len() == 32 && is_scalar(b),
        der_integer(a) + x == der_integer(b) + y,
    ensures
        a == b,
        x == y,
{
    lemma_der_integer(a);
    lemma_der_integer(b);
    lemma_without_leading_zeros(a);
    lemma_without_leading_zeros(b);
    let da = der_integer(a);
    let db = der_integer(b);
    let s = da + x;
    let t = db + y;
    assert(s[1] == da[1] && t[1] == db[1]);
    assert(da =~= s.take(da.len() as int));
    assert(db =~= t.take(db.len() as int));
    assert(x =~= s.skip(da.len() as int));
    assert(y =~= t.skip(db.len() as int));
    let digits_a = without_leading_zeros(a);
    let digits_b = without_leading_zeros(b);
    assert(da[2] == db[2]);
    assert(da.skip(2) == db.skip(2));
    if da[2] == 0 {
        assert(digits_a =~= da.skip(3));
        assert(digits_b =~= db.skip(3));
    } else {
        assert(digits_a =~= da.skip(2));
        assert(digits_b =~= db.skip(2));
    }
}

/// A signature in DER is at most 72 bytes long and announces its own length.
pub proof fn lemma_der_signature_length(signature: Seq<u8>)
    requires
        is_signature(signature),
    ensures
        ({
            let der = der_signature(signature);
            &&& 8 <= der.len() <= 72
            &&& der[0] == 0x30
            &&& der[1] == der.len() - 2
        }),
{
    lemma_der_integer(signature.take(32));
    lemma_der_integer(signature.skip(32));
}

/// Two signatures that are the same in DER are the same signature.
pub proof fn lemma_der_determines_the_signature(a: Seq<u8>, b: Seq<u8>)
    requires
        is_signature(a),
        is_signature(b),
        der_signature(a) == der_signature(b),
    ensures
        a == b,
{
    let r_a = der_integer(a.take(32));
    let s_a = der_integer(a.skip(32));
    let r_b = der_integer(b.take(32));
    let s_b = der_integer(b.skip(32));
    assert(der_signature(a).skip(2) =~= r_a + s_a);
    assert(der_signature(b).skip(2) =~= r_b + s_b);
    lemma_der_integer_is_self_delimiting(a.take(32), b.take(32), s_a, s_b);
    assert(s_a + seq![] =~= s_a);
    assert(s_b + seq![] =~= s_b);
    lemma_der_integer_is_self_delimiting(a.skip(32), b.skip(32), seq![], seq![]);
    assert(a =~= a.take(32) + a.skip(32));
    assert(b =~= b.take(32) + b.skip(32));
}

/// Reads a private key from its hexadecimal form.
pub fn read_key(text: &str) -> (res: Result<Vec<u8>, KeyError>)
    ensures
        match key_in(text@) {
            Ok(key) => res is Ok && res->Ok_0@ == key,
            Err(e) => res == Err::<Vec<u8>, KeyError>(e),
        },
        res is Ok ==> is_private_key(res->Ok_0@),
        match hex_decoded(encode_utf8(text@)) {
            Ok(bytes) => {
                &&& res is Ok <==> 24 <= bytes.len() <= 32 && 0 < big_endian(bytes) < group_order()
                &&& res is Ok ==> res->Ok_0@.len() == 32 && big_endian(res->Ok_0@) == big_endian(
                    bytes,
                )
                &&& res is Err ==> res->Err_0 == KeyError::InvalidKey
            },
            Err(e) => res is Err && res->Err_0 == KeyError::InvalidHex(e),
        },
{
    proof {
        lemma_key_is_private_key(text@);
        match hex_decoded(encode_utf8(text@)) {
            Ok(bytes) => {
                if is_readable_key(bytes) {
                    lemma_padding_keeps_the_number((32 - bytes.len()) as nat, bytes);
                }
            },
            Err(_) => {},
        }
    }
    match decode(text) {
        Ok(bytes) => match full_key(&bytes) {
            Some(key) => Ok(key),
            None => Err(KeyError::InvalidKey),
        },
        Err(e) => Err(KeyError::InvalidHex(e)),
    }
}

/// A text is read as a private key exactly where it is hexadecimal for 24 to 32 bytes whose number
/// is above zero and below the order of the group; the key has that very number and 32 bytes.
pub proof fn lemma_key_has_the_number_in_the_text(text: Seq<char>)
    ensures
        match hex_decoded(encode_utf8(text)) {
            Ok(bytes) => {
                &&& key_in(text) is Ok <==> 24 <= bytes.len() <= 32 && 0 < big_endian(bytes)
                    < group_order()
                &&& key_in(text) matches Ok(key) ==> key.len() == 32 && big_endian(key)
                    == big_endian(bytes)
                &&& key_in(text) is Err ==> key_in(text)->Err_0 == KeyError::InvalidKey
            },
            Err(e) => key_in(text) == Err::<Seq<u8>, KeyError>(KeyError::InvalidHex(e)),
        },
{
    match hex_decoded(encode_utf8(text)) {
        Ok(bytes) => {
            if is_readable_key(bytes) {
                lemma_padding_keeps_the_number((32 - bytes.len()) as nat, bytes);
            }
        },
        Err(_) => {},
    }
}

} // verus!
