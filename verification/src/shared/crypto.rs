//! RSA (PKCS #1 v1.5) encryption of the datagram messages. Keys travel as
//! PEM text; the private key stays with its owner, as PKCS #8 PEM text.

use vstd::prelude::*;

verus! {

/// Whether `pem` is the PEM text of an RSA public key that the `rsa` crate
/// accepts (`DecodePublicKey::from_public_key_pem` succeeds on it).
pub uninterp spec fn pem_is_public_key(pem: Seq<char>) -> bool;

/// The size in bytes of the modulus of the public key written as `pem`
/// (`PublicKeyParts::size` of the decoded key).
pub uninterp spec fn pem_modulus_bytes(pem: Seq<char>) -> nat;

/// Whether `c` is one of the PKCS #1 v1.5 encryptions of the message `m`
/// under the public key written as `pem` (the padding is random, so one
/// message has many).
pub uninterp spec fn pkcs1v15_encrypts(pem: Seq<char>, m: Seq<u8>, c: Seq<u8>) -> bool;

/// What PKCS #1 v1.5 decryption of `c`, with the private key written as the
/// PKCS #8 PEM text `private_pem`, gives back; none where the text is no
/// key or `c` is no ciphertext for it.
pub uninterp spec fn pkcs1v15_decrypt(private_pem: Seq<char>, c: Seq<u8>) -> Option<Seq<u8>>;

/// Whether `private_pem` is the PKCS #8 PEM text of a two-prime RSA private
/// key whose primes both exceed 1, so that loading it
/// (`DecodePrivateKey::from_pkcs8_pem`, whose precomputation divides by each
/// prime less one) cannot fail on a division by zero.
pub uninterp spec fn pkcs8_key_usable(private_pem: Seq<char>) -> bool;

/// The size in bytes of the key's modulus for a key of `bits` bits.
pub open spec fn modulus_bytes_of_bits(bits: nat) -> nat {
    (bits + 7) / 8
}

/// The size, in bits, of the keys this library makes.
pub const KEY_BITS: usize = 2048;

/// A new random key pair of `bits` bits (`RsaPrivateKey::new` with the
/// thread's random generator), as the PKCS #8 PEM text of the private key
/// and the PEM text of the public key, both with CRLF line endings
/// (`EncodePrivateKey::to_pkcs8_pem`, `EncodePublicKey::to_public_key_pem`).
/// The keys depend on chance, and making them can fail: nothing says which
/// keys come out, nor that any do. What is claimed of a pair that does come
/// out: the rsa crate makes the modulus exactly `bits` bits long and the
/// exponent 65537, so its public text decodes (up to 4096 bits); the private
/// text is that of the generated key, whose two primes are real primes; and
/// what is encrypted under the public key decrypts with the private key to
/// the same message.
#[verifier::external_body]
fn generate_key_texts(bits: usize) -> (r: Option<(String, String)>)
    requires
        64 <= bits <= 4096,
    ensures
        r is Some ==> pkcs8_key_usable(r.unwrap().0@),
        r is Some ==> pem_is_public_key(r.unwrap().1@),
        r is Some ==> pem_modulus_bytes(r.unwrap().1@) == modulus_bytes_of_bits(bits as nat),
        r is Some ==> forall|m: Seq<u8>, c: Seq<u8>|
            #[trigger] pkcs1v15_encrypts(r.unwrap().1@, m, c) ==> pkcs1v15_decrypt(r.unwrap().0@, c)
                == Some(m),
{
    let key = rsa::RsaPrivateKey::new(&mut rand::thread_rng(), bits).ok()?;
    let private = rsa::pkcs8::EncodePrivateKey::to_pkcs8_pem(&key, rsa::pkcs1::LineEnding::CRLF).ok()?;
    let public = rsa::pkcs8::EncodePublicKey::to_public_key_pem(
        &key.to_public_key(),
        rsa::pkcs1::LineEnding::CRLF,
    ).ok()?;
    Some((String::from(private.as_str()), public))
}

/// The size in bytes of the modulus of the public key written as `pem`
/// (`DecodePublicKey::from_public_key_pem`, then `PublicKeyParts::size`);
/// none if `pem` is not the text of a public key.
#[verifier::external_body]
fn pem_modulus(pem: &str) -> (r: Option<usize>)
    ensures
        r is Some <==> pem_is_public_key(pem@),
        r is Some ==> r.unwrap() == pem_modulus_bytes(pem@),
{
    match <rsa::RsaPublicKey as rsa::pkcs8::DecodePublicKey>::from_public_key_pem(pem) {
        Ok(key) => Some(rsa::PublicKeyParts::size(&key)),
        Err(_) => None,
    }
}

/// `bytes` encrypted under PKCS #1 v1.5 padding with the public key written
/// as `pem` (`DecodePublicKey::from_public_key_pem`, then
/// `PublicKey::encrypt` with the thread's random generator). The padding is
/// random, so which ciphertext comes out is not claimed; only that it is an
/// encryption of `bytes` for that key, as long as the modulus. The rsa crate
/// refuses a message longer than the modulus less 11 bytes, and checks
/// nothing else that a decoded key could fail, so a message that fits is
/// always encrypted.
#[verifier::external_body]
fn encrypt_pem(pem: &str, bytes: &[u8]) -> (r: Option<Vec<u8>>)
    requires
        pem_is_public_key(pem@),
        bytes@.len() + 11 <= pem_modulus_bytes(pem@),
    ensures
        r is Some,
        r is Some ==> r.unwrap()@.len() == pem_modulus_bytes(pem@),
        r is Some ==> pkcs1v15_encrypts(pem@, bytes@, r.unwrap()@),
{
    let key = <rsa::RsaPublicKey as rsa::pkcs8::DecodePublicKey>::from_public_key_pem(pem).ok()?;
    rsa::PublicKey::encrypt(&key, &mut rand::thread_rng(), rsa::Pkcs1v15Encrypt, bytes).ok()
}

/// `bytes` decrypted under PKCS #1 v1.5 padding with the private key
/// written as the PKCS #8 PEM text `private_pem`
/// (`DecodePrivateKey::from_pkcs8_pem`, then `RsaPrivateKey::decrypt`,
/// which uses no randomness); none if the text is no key or the bytes are no
/// ciphertext for it. Loading a key text whose primes are 0 or 1 would
/// panic, so only usable key texts are taken.
#[verifier::external_body]
fn decrypt_pem(private_pem: &str, bytes: &[u8]) -> (r: Option<Vec<u8>>)
    requires
        pkcs8_key_usable(private_pem@),
    ensures
        r is Some <==> pkcs1v15_decrypt(private_pem@, bytes@) is Some,
        r is Some ==> r.unwrap()@ == pkcs1v15_decrypt(private_pem@, bytes@).unwrap(),
{
    let key = <rsa::RsaPrivateKey as rsa::pkcs8::DecodePrivateKey>::from_pkcs8_pem(private_pem).ok()?;
    key.decrypt(rsa::Pkcs1v15Encrypt, bytes).ok()
}

/// A private key and its public key, both as PEM text.
#[derive(Debug)]
pub struct KeyPair {
    private_pem: String,
    public_pem: String,
}

impl KeyPair {
    /// The pair's invariant: the private text is a usable key, the public
    /// text a key of the library's size, and what is encrypted under the
    /// public text decrypts with the private one.
    #[verifier::type_invariant]
    closed spec fn matched(self) -> bool {
        &&& pkcs8_key_usable(self.private_pem@)
        &&& pem_is_public_key(self.public_pem@)
        &&& pem_modulus_bytes(self.public_pem@) == modulus_bytes_of_bits(KEY_BITS as nat)
        &&& forall|m: Seq<u8>, c: Seq<u8>|
            #[trigger] pkcs1v15_encrypts(self.public_pem@, m, c) ==> pkcs1v15_decrypt(
                self.private_pem@,
                c,
            ) == Some(m)
    }

    /// A new random key pair of `KEY_BITS` bits; none if the keys or their
    /// texts could not be made.
    pub fn generate() -> (r: Option<KeyPair>)
        ensures
            r is Some ==> pem_is_public_key(r.unwrap().public_text()),
            r is Some ==> pem_modulus_bytes(r.unwrap().public_text()) == 256,
    {
        match generate_key_texts(KEY_BITS) {
            Some((private_pem, public_pem)) => Some(KeyPair { private_pem, public_pem }),
            None => None,
        }
    }

    /// The PEM text of the public key.
    pub closed spec fn public_text(&self) -> Seq<char> {
        self.public_pem@
    }

    /// The PEM text of the public key, to hand to the other side.
    pub fn public_pem(&self) -> (r: &String)
        ensures
            r@ == self.public_text(),
    {
        &self.public_pem
    }

    /// `bytes` decrypted with the private key; none if they are not a
    /// ciphertext for it. A ciphertext made for the public key gives back
    /// its message.
    pub fn decrypt(&self, bytes: &[u8]) -> (r: Option<Vec<u8>>)
        ensures
            forall|m: Seq<u8>|
                #[trigger] pkcs1v15_encrypts(self.public_text(), m, bytes@) ==> r is Some
                    && r.unwrap()@ == m,
    {
        proof {
            use_type_invariant(self);
        }
        decrypt_pem(self.private_pem.as_str(), bytes)
    }
}

/// Whether `pem` is the PEM text of a public key.
pub fn is_public_key(pem: &str) -> (r: bool)
    ensures
        r == pem_is_public_key(pem@),
{
    pem_modulus(pem).is_some()
}

/// Whether a message of `len` bytes can be encrypted under a key whose
/// modulus has `modulus` bytes: PKCS #1 v1.5 padding takes 11 of them.
pub open spec fn fits(len: nat, modulus: nat) -> bool {
    len + 11 <= modulus
}

/// `bytes` encrypted for the owner of the public key written as `pem`;
/// none exactly when `pem` is no key or the message is too long for it.
pub fn encrypt_for(pem: &str, bytes: &[u8]) -> (r: Option<Vec<u8>>)
    ensures
        r is Some <==> (pem_is_public_key(pem@) && fits(bytes@.len(), pem_modulus_bytes(pem@))),
        r is Some ==> r.unwrap()@.len() == pem_modulus_bytes(pem@),
        r is Some ==> pkcs1v15_encrypts(pem@, bytes@, r.unwrap()@),
{
    match pem_modulus(pem) {
        None => None,
        Some(size) => {
            if size < 11 || bytes.len() > size - 11 {
                None
            } else {
                encrypt_pem(pem, bytes)
            }
        },
    }
}

} // verus!
