//! The boundary with the key encapsulation mechanism (KEM).
//!
//! The orchestration in `we` works with any KEM that can encapsulate a
//! statement into a key ciphertext and a keystream, and decapsulate a key
//! ciphertext with a witness into a keystream.
use vstd::prelude::*;

verus! {

/// Why the key encapsulation mechanism could not do its work.
#[derive(Debug, Clone)]
pub enum KEMError {
    /// Encapsulation rejected the statement (commitment, point, value).
    Encapsulation(String),
    /// Decapsulation rejected the witness or the key ciphertext.
    Decapsulation(String),
}

/// An effectively endless sequence of pseudorandom bytes derived from a
/// shared secret. Encapsulation and the matching decapsulation must yield
/// streams that produce the same bytes in the same order.
pub trait Keystream {
    /// The next byte of the sequence.
    fn next_byte(&mut self) -> u8;
}

/// An extractable witness KEM over some algebraic structure: a group for
/// commitments and witnesses, a field for points and values, and a second
/// group for key ciphertexts.
pub trait Kem {
    /// A commitment to a polynomial.
    type Commitment: Copy;
    /// An evaluation point of the statement.
    type Point: Copy;
    /// The claimed value of the committed polynomial at the point.
    type Value: Copy;
    /// An opening proof for a statement.
    type Witness;
    /// What encapsulation hands out beside the keystream.
    type KeyCiphertext;
    /// The keystream handed out by encapsulation and decapsulation.
    type Stream: Keystream;

    /// Produces a key ciphertext and a fresh keystream bound to the statement
    /// "the polynomial committed to by `com` takes `value` at `point`".
    fn encapsulate(&self, com: Self::Commitment, point: Self::Point, value: Self::Value) -> Result<
        (Self::KeyCiphertext, Self::Stream),
        KEMError,
    >;

    /// Recovers the keystream of `key_ct` from an opening proof.
    fn decapsulate(&self, proof: Self::Witness, key_ct: Self::KeyCiphertext) -> Result<
        Self::Stream,
        KEMError,
    >;
}

/// Takes the next `n` bytes from `stream`.
pub fn draw<S: Keystream>(stream: &mut S, n: usize) -> (r: Vec<u8>)
    ensures
        r@.len() == n,
{
    let mut out: Vec<u8> = Vec::with_capacity(n);
    let mut i: usize = 0;
    while i < n
        invariant
            i <= n,
            out@.len() == i,
        decreases n - i,
    {
        let b = stream.next_byte();
        out.push(b);
        i = i + 1;
    }
    out
}

} // verus!
