use vstd::prelude::*;

use ed25519_dalek::Verifier;
use sha2::Digest;

verus! {

/// The SHA-256 digest of a byte sequence; its value is fixed by the input alone.
pub uninterp spec fn sha256_spec(data: Seq<u8>) -> Seq<u8>;

/// The Keccak-256 digest of a byte sequence; its value is fixed by the input alone.
pub uninterp spec fn keccak256_spec(data: Seq<u8>) -> Seq<u8>;

/// Whether an Ed25519 signature over `message` verifies under the public key
/// `pubkey`; fixed by the three byte strings alone. A key that does not decode
/// to a curve point verifies nothing.
pub uninterp spec fn ed25519_verifies(pubkey: Seq<u8>, message: Seq<u8>, signature: Seq<u8>) -> bool;

/// Relies on sha2::Sha256: a 32-byte digest, a pure function of the input bytes.
#[verifier::external_body]
pub fn sha256(data: &[u8]) -> (r: [u8; 32])
    ensures
        r@ == sha256_spec(data@),
        r@.len() == 32,
{
    let digest = sha2::Sha256::digest(data);
    let mut out = [0u8; 32];
    out.copy_from_slice(&digest);
    out
}

/// Relies on sha3::Keccak256: a 32-byte digest, a pure function of the input bytes.
#[verifier::external_body]
pub fn keccak256(data: &[u8]) -> (r: [u8; 32])
    ensures
        r@ == keccak256_spec(data@),
        r@.len() == 32,
{
    let digest = sha3::Keccak256::digest(data);
    let mut out = [0u8; 32];
    out.copy_from_slice(&digest);
    out
}

/// Relies on ed25519_dalek::VerifyingKey::verify: deterministic in the key,
/// message and signature bytes; an undecodable key rejects every signature.
#[verifier::external_body]
pub fn ed25519_verify(pubkey: &[u8; 32], message: &[u8], signature: &[u8; 64]) -> (r: bool)
    ensures
        r == ed25519_verifies(pubkey@, message@, signature@),
{
    match ed25519_dalek::VerifyingKey::from_bytes(pubkey) {
        Ok(key) => {
            let sig = ed25519_dalek::Signature::from_bytes(signature);
            key.verify(message, &sig).is_ok()
        }
        Err(_) => false,
    }
}

/// The sixteen lower-case hex digits, in value order.
pub open spec fn hex_digits() -> Seq<char> {
    seq!['0', '1', '2', '3', '4', '5', '6', '7', '8', '9', 'a', 'b', 'c', 'd', 'e', 'f']
}

/// Lower-case hex rendering of a byte sequence: two digits per byte, high
/// nibble first.
pub open spec fn hex_encode_spec(data: Seq<u8>) -> Seq<char>
    decreases data.len(),
{
    if data.len() == 0 {
        Seq::empty()
    } else {
        seq![
            hex_digits()[data.first() as int / 16],
            hex_digits()[data.first() as int % 16],
        ] + hex_encode_spec(data.drop_first())
    }
}

/// Relies on hex::encode: two lower-case digits per byte, high nibble first.
#[verifier::external_body]
pub fn hex_encode(data: &[u8]) -> (r: String)
    ensures
        r@ == hex_encode_spec(data@),
{
    hex::encode(data)
}

/// True of a character that stands for a hex nibble.
pub open spec fn is_hex_digit_char(c: char) -> bool {
    ('0' <= c && c <= '9') || ('a' <= c && c <= 'f') || ('A' <= c && c <= 'F')
}

/// The nibble a hex character stands for.
pub open spec fn hex_char_val(c: char) -> u8 {
    if '0' <= c && c <= '9' {
        (c as u8 - '0' as u8) as u8
    } else if 'a' <= c && c <= 'f' {
        (c as u8 - 'a' as u8 + 10) as u8
    } else {
        (c as u8 - 'A' as u8 + 10) as u8
    }
}

/// A string decodes as hex when its length is even and every character is a
/// hex digit.
pub open spec fn hex_decode_ok(s: Seq<char>) -> bool {
    s.len() % 2 == 0 && (forall|i: int| 0 <= i < s.len() ==> is_hex_digit_char(#[trigger] s[i]))
}

/// The bytes a well-formed hex string stands for.
pub open spec fn hex_decode_spec(s: Seq<char>) -> Seq<u8> {
    Seq::new(s.len() / 2, |i: int| (hex_char_val(s[2 * i]) * 16 + hex_char_val(s[2 * i + 1])) as u8)
}

/// Relies on hex::decode: succeeds exactly on even-length all-hex input, both
/// cases accepted, and returns one byte per digit pair.
#[verifier::external_body]
pub fn hex_decode(s: &str) -> (r: Option<Vec<u8>>)
    ensures
        r matches Some(v) ==> hex_decode_ok(s@) && v@ == hex_decode_spec(s@),
        r is None ==> !hex_decode_ok(s@),
{
    match hex::decode(s) {
        Ok(v) => Some(v),
        Err(_) => None,
    }
}

/// Append every byte of `src` to `dst`, in order.
pub fn push_bytes(dst: &mut Vec<u8>, src: &[u8])
    ensures
        final(dst)@ == old(dst)@ + src@,
{
    let mut i: usize = 0;
    while i < src.len()
        invariant
            i <= src@.len(),
            dst@ == old(dst)@ + src@.subrange(0, i as int),
        decreases src@.len() - i,
    {
        dst.push(src[i]);
        assert(old(dst)@ + src@.subrange(0, i as int) + seq![src@[i as int]] =~= old(dst)@
            + src@.subrange(0, i + 1));
        i += 1;
    }
    assert(dst@ =~= old(dst)@ + src@);
}

/// Copy 32 bytes out of `data` at `off`.
#[verifier::loop_isolation(false)]
pub fn read_key(data: &[u8], off: usize) -> (r: [u8; 32])
    requires
        off + 32 <= data@.len(),
        data@.len() <= usize::MAX,
    ensures
        r@ == data@.subrange(off as int, off + 32),
{
    let mut k = [0u8; 32];
    let mut i: usize = 0;
    while i < 32
        invariant
            i <= 32,
            off + 32 <= data@.len(),
            k@.len() == 32,
            forall|j: int| 0 <= j < i ==> k@[j] == data@[off + j],
        decreases 32 - i,
    {
        k[i] = data[off + i];
        i += 1;
    }
    assert(k@ =~= data@.subrange(off as int, off + 32));
    k
}

/// Copy 64 bytes out of `data` at `off`.
#[verifier::loop_isolation(false)]
pub fn read_sig(data: &[u8], off: usize) -> (r: [u8; 64])
    requires
        off + 64 <= data@.len(),
        data@.len() <= usize::MAX,
    ensures
        r@ == data@.subrange(off as int, off + 64),
{
    let mut k = [0u8; 64];
    let mut i: usize = 0;
    while i < 64
        invariant
            i <= 64,
            off + 64 <= data@.len(),
            k@.len() == 64,
            forall|j: int| 0 <= j < i ==> k@[j] == data@[off + j],
        decreases 64 - i,
    {
        k[i] = data[off + i];
        i += 1;
    }
    assert(k@ =~= data@.subrange(off as int, off + 64));
    k
}

} // verus!
