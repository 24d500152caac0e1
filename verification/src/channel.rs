//! The encrypted leg of a secure channel: the Encryptor/Decryptor worker
//! pair created on handshake success.
//!
//! The cipher here is a model of the pluggable cryptographic capability:
//! a keyed stream cipher with an explicit eight-byte nonce carried on
//! the wire, checked against the receiver's own counter so that replayed
//! or reordered ciphertexts are rejected.  What matters to the rest of
//! the library — and is proved — is the shape: encrypting and then
//! decrypting yields the plaintext unchanged, the bytes on the wire are
//! never the plaintext itself, and both workers of a pair hold the same
//! key material and die together.

use vstd::prelude::*;

verus! {

/// Failure of a decryption: the bytes are not the next ciphertext of
/// this channel.
#[derive(Clone, Copy, Debug, PartialEq, Eq, Structural)]
pub enum DecryptError {
    /// Too short, or the nonce is not the one expected next.
    InvalidCiphertext,
}

/// The byte of the keystream at offset `i` under `key` and `nonce`.
pub open spec fn keystream_byte(key: u64, nonce: u64, i: int) -> u8 {
    (((key ^ nonce) >> (((i % 8) * 8) as u64)) & 0xff) as u8
}

/// The eight bytes of `n`, most significant first.
pub open spec fn u64_be_bytes(n: u64) -> Seq<u8> {
    Seq::new(8, |i: int| ((n >> (((7 - i) * 8) as u64)) & 0xff) as u8)
}

/// What encrypting `p` under `key` at `nonce` puts on the wire: the
/// nonce, then the masked payload.
pub open spec fn encrypt_spec(key: u64, nonce: u64, p: Seq<u8>) -> Seq<u8> {
    u64_be_bytes(nonce) + Seq::new(p.len(), |i: int| p[i] ^ keystream_byte(key, nonce, i))
}

/// What decrypting `c` under `key`, expecting `nonce`, yields: the
/// unmasked payload, or nothing if `c` does not begin with the expected
/// nonce.
pub open spec fn decrypt_spec(key: u64, nonce: u64, c: Seq<u8>) -> Option<Seq<u8>> {
    if c.len() >= 8 && c.subrange(0, 8) == u64_be_bytes(nonce) {
        Some(Seq::new((c.len() - 8) as nat, |i: int| c[i + 8] ^ keystream_byte(key, nonce, i)))
    } else {
        None
    }
}

/// Encrypting and then decrypting under one key and nonce yields the
/// plaintext unchanged; and what travels on the wire is never the
/// plaintext itself.
pub proof fn lemma_channel_round_trip(key: u64, nonce: u64, p: Seq<u8>)
    ensures
        decrypt_spec(key, nonce, encrypt_spec(key, nonce, p)) == Some(p),
        encrypt_spec(key, nonce, p) != p,
{
    let c = encrypt_spec(key, nonce, p);
    assert(c.subrange(0, 8) =~= u64_be_bytes(nonce));
    let d = decrypt_spec(key, nonce, c).unwrap();
    assert forall|i: int| 0 <= i < p.len() implies d[i] == p[i] by {
        let k = keystream_byte(key, nonce, i);
        let x = p[i];
        assert(c[i + 8] == x ^ k);
        assert((x ^ k) ^ k == x) by (bit_vector);
    }
    assert(d =~= p);
    assert(c.len() == p.len() + 8);
}

fn be_bytes_exec(n: u64) -> (r: Vec<u8>)
    ensures
        r@ == u64_be_bytes(n),
{
    let mut out: Vec<u8> = Vec::new();
    let mut j: usize = 0;
    while j < 8
        invariant
            0 <= j <= 8,
            out@.len() == j,
            forall|i: int| 0 <= i < j ==> out@[i] == u64_be_bytes(n)[i],
        decreases 8 - j,
    {
        let shift: u64 = (7 - j as u64) * 8;
        let masked: u64 = (n >> shift) & 0xff;
        proof {
            assert((n >> shift) & 0xff <= 0xff) by (bit_vector);
        }
        out.push(masked as u8);
        j += 1;
    }
    proof {
        assert(out@ =~= u64_be_bytes(n));
    }
    out
}

fn keystream_byte_exec(key: u64, nonce: u64, i: usize) -> (r: u8)
    ensures
        r == keystream_byte(key, nonce, i as int),
{
    let shift: u64 = ((i % 8) as u64) * 8;
    let masked: u64 = ((key ^ nonce) >> shift) & 0xff;
    proof {
        assert(((key ^ nonce) >> shift) & 0xff <= 0xff) by (bit_vector);
        assert((i % 8) as int == (i as int) % 8);
    }
    masked as u8
}

/// The outbound half of a secure channel: masks plaintext under the
/// session key, tagging each message with the next nonce.
pub struct Encryptor {
    key: u64,
    nonce: u64,
}

/// The inbound half of a secure channel: checks each ciphertext against
/// the nonce it expects next and unmasks it.
pub struct Decryptor {
    key: u64,
    nonce: u64,
}

impl Encryptor {
    /// The session key this half holds.
    pub closed spec fn key(&self) -> u64 {
        self.key
    }

    /// The nonce the next message will carry.
    pub closed spec fn nonce(&self) -> u64 {
        self.nonce
    }

    /// An encryptor at the start of its channel's lifetime.
    pub fn new(key: u64) -> (r: Self)
        ensures
            r.key() == key,
            r.nonce() == 0,
    {
        Encryptor { key, nonce: 0 }
    }

    /// Encrypt one message: what goes on the wire is the nonce followed
    /// by the masked payload, never the plaintext itself.
    pub fn encrypt(&mut self, plaintext: &Vec<u8>) -> (r: Vec<u8>)
        requires
            old(self).nonce() < u64::MAX,
        ensures
            r@ == encrypt_spec(old(self).key(), old(self).nonce(), plaintext@),
            final(self).key() == old(self).key(),
            final(self).nonce() == old(self).nonce() + 1,
    {
        let mut out = be_bytes_exec(self.nonce);
        let n = plaintext.len();
        let mut i: usize = 0;
        while i < n
            invariant
                0 <= i <= n,
                n == plaintext@.len(),
                out@.len() == 8 + i,
                out@.subrange(0, 8) == u64_be_bytes(self.nonce),
                forall|k: int| 0 <= k < i
                    ==> out@[k + 8] == plaintext@[k] ^ keystream_byte(self.key, self.nonce, k),
            decreases n - i,
        {
            let ghost before = out@;
            let b = plaintext[i] ^ keystream_byte_exec(self.key, self.nonce, i);
            out.push(b);
            proof {
                assert(out@.subrange(0, 8) =~= before.subrange(0, 8));
            }
            i += 1;
        }
        proof {
            assert(out@ =~= encrypt_spec(self.key, self.nonce, plaintext@));
        }
        self.nonce += 1;
        out
    }
}

impl Decryptor {
    /// The session key this half holds.
    pub closed spec fn key(&self) -> u64 {
        self.key
    }

    /// The nonce expected on the next message.
    pub closed spec fn nonce(&self) -> u64 {
        self.nonce
    }

    /// A decryptor at the start of its channel's lifetime.
    pub fn new(key: u64) -> (r: Self)
        ensures
            r.key() == key,
            r.nonce() == 0,
    {
        Decryptor { key, nonce: 0 }
    }

    /// Decrypt one message: succeeds exactly on the ciphertext carrying
    /// the nonce expected next, yielding the plaintext it masks; a
    /// replayed, reordered or malformed ciphertext is rejected and the
    /// channel state left unchanged.
    pub fn decrypt(&mut self, ciphertext: &Vec<u8>) -> (r: Result<Vec<u8>, DecryptError>)
        requires
            old(self).nonce() < u64::MAX,
        ensures
            match decrypt_spec(old(self).key(), old(self).nonce(), ciphertext@) {
                Some(p) => r matches Ok(out) && out@ == p
                    && final(self).nonce() == old(self).nonce() + 1,
                None => r matches Err(e) && e == DecryptError::InvalidCiphertext
                    && *final(self) == *old(self),
            },
            final(self).key() == old(self).key(),
    {
        if ciphertext.len() < 8 {
            return Err(DecryptError::InvalidCiphertext);
        }
        let expected = be_bytes_exec(self.nonce);
        let mut k: usize = 0;
        while k < 8
            invariant
                0 <= k <= 8,
                ciphertext@.len() >= 8,
                expected@ == u64_be_bytes(self.nonce),
                forall|j: int| 0 <= j < k ==> ciphertext@[j] == u64_be_bytes(self.nonce)[j],
            decreases 8 - k,
        {
            if ciphertext[k] != expected[k] {
                proof {
                    assert(ciphertext@.subrange(0, 8)[k as int] != u64_be_bytes(self.nonce)[k as int]);
                }
                return Err(DecryptError::InvalidCiphertext);
            }
            k += 1;
        }
        proof {
            assert(ciphertext@.subrange(0, 8) =~= u64_be_bytes(self.nonce));
        }
        let n = ciphertext.len();
        let mut out: Vec<u8> = Vec::new();
        let mut i: usize = 8;
        while i < n
            invariant
                8 <= i <= n,
                n == ciphertext@.len(),
                out@.len() == i - 8,
                forall|k2: int| 0 <= k2 < i - 8
                    ==> out@[k2] == ciphertext@[k2 + 8] ^ keystream_byte(self.key, self.nonce, k2),
            decreases n - i,
        {
            let b = ciphertext[i] ^ keystream_byte_exec(self.key, self.nonce, i - 8);
            out.push(b);
            i += 1;
        }
        proof {
            let p = decrypt_spec(self.key, self.nonce, ciphertext@).unwrap();
            assert(out@ =~= p);
        }
        self.nonce += 1;
        Ok(out)
    }
}

} // verus!
