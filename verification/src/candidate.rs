//! Candidate generation: drawing a private scalar from the system's entropy
//! source, validating it against the curve's group order, and deriving the
//! candidate's address from the public point.

use vstd::prelude::*;
use rand::RngCore;
use sha3::Digest;

verus! {

/// The big-endian integer value of a byte sequence.
pub open spec fn be_bytes_val(b: Seq<u8>) -> nat
    decreases b.len(),
{
    if b.len() == 0 {
        0
    } else {
        be_bytes_val(b.drop_last()) * 256 + b.last() as nat
    }
}

/// The order of the secp256k1 group generated by the base point.
pub open spec fn curve_order() -> nat {
    0xFFFFFFFF_FFFFFFFF_FFFFFFFF_FFFFFFFE_BAAEDCE6_AF48A03B_BFD25E8C_D0364141nat
}

/// A valid private scalar: 32 bytes whose big-endian value lies in
/// `[1, curve_order())`.
pub open spec fn is_valid_scalar(b: Seq<u8>) -> bool {
    b.len() == 32 && 1 <= be_bytes_val(b) < curve_order()
}

/// The 65-byte uncompressed encoding (`0x04`, then the X and Y coordinates)
/// of the public point obtained by multiplying the base point by the scalar.
pub uninterp spec fn public_key_bytes(scalar: Seq<u8>) -> Seq<u8>;

/// The 32-byte Keccak-256 digest of a byte sequence.
pub uninterp spec fn keccak256(data: Seq<u8>) -> Seq<u8>;

/// The address derived from a private scalar: the lower 20 bytes of the
/// Keccak-256 digest of the public point's 64 coordinate bytes, rendered as
/// lowercase hexadecimal behind a `0x` prefix.
pub open spec fn address_chars(scalar: Seq<u8>) -> Seq<char> {
    seq!['0', 'x'] + crate::encoding::hex_chars(keccak256(public_key_bytes(scalar).skip(1)).skip(12))
}

/// Relies on rand's `OsRng`: fills the buffer with bytes drawn from the
/// operating system's entropy source. Nothing is promised of the values.
#[verifier::external_body]
fn random_bytes() -> [u8; 32] {
    let mut buf = [0u8; 32];
    rand::rngs::OsRng.fill_bytes(&mut buf);
    buf
}

/// Relies on secp256k1: `SecretKey::from_slice` returns `Ok` exactly when
/// given 32 bytes whose big-endian value lies in `[1, curve order)`, and
/// `PublicKey::from_secret_key_global` followed by `serialize_uncompressed`
/// deterministically produces the 65-byte uncompressed encoding of the
/// derived public point, a leading `0x04` followed by the X and Y
/// coordinates. The three calls are chained here because the crate's key
/// types carry no specification of their own.
#[verifier::external_body]
fn derive_public_bytes(scalar: &[u8; 32]) -> (r: Option<Vec<u8>>)
    ensures
        r is Some <==> is_valid_scalar(scalar@),
        r matches Some(v) ==> v@ == public_key_bytes(scalar@) && v@.len() == 65 && v@[0] == 0x04,
{
    match secp256k1::SecretKey::from_slice(scalar) {
        Ok(sk) => {
            let pk = secp256k1::PublicKey::from_secret_key_global(&sk);
            Some(pk.serialize_uncompressed().to_vec())
        },
        Err(_) => None,
    }
}

/// Relies on sha3's `Keccak256` through the `Digest` trait: a 32-byte digest
/// that is a function of the input bytes alone.
#[verifier::external_body]
fn keccak256_digest(data: &[u8]) -> (r: Vec<u8>)
    ensures
        r@ == keccak256(data@),
        r@.len() == 32,
{
    sha3::Keccak256::digest(data).to_vec()
}

/// The bytes of `v` from `from` (inclusive) to `to` (exclusive).
pub fn sub_vec(v: &Vec<u8>, from: usize, to: usize) -> (r: Vec<u8>)
    requires
        from <= to <= v.len(),
    ensures
        r@ == v@.subrange(from as int, to as int),
{
    let mut r: Vec<u8> = Vec::new();
    let mut i: usize = from;
    while i < to
        invariant
            from <= i <= to <= v.len(),
            r@ == v@.subrange(from as int, i as int),
        decreases to - i,
    {
        r.push(v[i]);
        proof {
            assert(r@ =~= v@.subrange(from as int, i + 1 as int));
        }
        i = i + 1;
    }
    r
}

/// A generated candidate keypair: the private scalar's 32 bytes and the
/// derived address.
pub struct Candidate {
    /// The private scalar, big-endian.
    pub scalar: [u8; 32],
    /// The derived address, `0x` followed by 40 lowercase hexadecimal digits.
    pub address: String,
}

impl Candidate {
    /// The scalar is a valid private key and the address is derived from it.
    pub open spec fn wf(&self) -> bool {
        is_valid_scalar(self.scalar@) && self.address@ == address_chars(self.scalar@)
    }
}

/// Derives the address of a private scalar, or returns `None` exactly when
/// the bytes are not a valid scalar.
pub fn derive_address(scalar: &[u8; 32]) -> (r: Option<String>)
    ensures
        r is Some <==> is_valid_scalar(scalar@),
        r matches Some(a) ==> a@ == address_chars(scalar@),
{
    match derive_public_bytes(scalar) {
        None => None,
        Some(pub_bytes) => {
            let coords = sub_vec(&pub_bytes, 1, 65);
            proof {
                assert(coords@ =~= public_key_bytes(scalar@).skip(1));
            }
            let digest = keccak256_digest(coords.as_slice());
            let tail = sub_vec(&digest, 12, 32);
            proof {
                assert(tail@ =~= keccak256(public_key_bytes(scalar@).skip(1)).skip(12));
            }
            let hex = crate::encoding::hex_encode(tail.as_slice());
            let mut address = String::new();
            crate::text::push_char(&mut address, '0');
            crate::text::push_char(&mut address, 'x');
            address.append(hex.as_str());
            proof {
                assert(address@ =~= address_chars(scalar@));
            }
            Some(address)
        },
    }
}

/// Draws random scalars until one is valid and returns it with its derived
/// address. A draw outside `[1, curve order)` is discarded and a fresh draw
/// taken; the attempt bound only makes termination evident and is never
/// reached in practice, since almost every draw is valid.
pub fn generate() -> (r: Option<Candidate>)
    ensures
        r matches Some(c) ==> c.wf(),
{
    let mut attempts: u64 = 0;
    while attempts < u64::MAX
        decreases u64::MAX - attempts,
    {
        let scalar = random_bytes();
        match derive_address(&scalar) {
            Some(address) => {
                return Some(Candidate { scalar, address });
            },
            None => {},
        }
        attempts = attempts + 1;
    }
    None
}

} // verus!
