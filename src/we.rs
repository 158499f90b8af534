//! Extractable witness encryption from an extractable witness KEM.
//!
//! Encryption encapsulates the statement, draws as many keystream bytes as
//! the message has, and combines them with the message. Decryption
//! decapsulates the key ciphertext with a witness and combines the same
//! number of keystream bytes with the message ciphertext. A witness for a
//! different statement is no error: it yields bytes that are not the message.
use vstd::prelude::*;
use crate::cipher::{xor_bytes, xor_seq};
use crate::kem::{draw, Kem, KEMError};

verus! {

/// The one error of this layer: the KEM failed, and its error is carried as
/// it came.
#[derive(Debug, Clone)]
pub enum WEError {
    KEMError(KEMError),
}

impl From<KEMError> for WEError {
    fn from(error: KEMError) -> (r: Self)
        ensures
            r == WEError::KEMError(error),
    {
        WEError::KEMError(error)
    }
}

impl vstd::std_specs::convert::FromSpecImpl<KEMError> for WEError {
    open spec fn obeys_from_spec() -> bool {
        true
    }

    open spec fn from_spec(v: KEMError) -> Self {
        WEError::KEMError(v)
    }
}

/// `entry` is the encryption of `msg` under `encapsulated`: the key
/// ciphertext passed on, and the message combined with the keystream.
pub open spec fn sealed_entry<C>(
    encapsulated: Result<(C, Vec<u8>), KEMError>,
    entry: (C, Vec<u8>),
    msg: Seq<u8>,
) -> bool {
    encapsulated matches Ok((key_ct, ks)) && entry.0 == key_ct && entry.1@ == xor_seq(ks@, msg)
}

/// Every keystream among the successful encapsulations covers `n` bytes.
pub open spec fn keystreams_cover<C>(encapsulated: Seq<Result<(C, Vec<u8>), KEMError>>, n: nat) -> bool {
    forall|i: int|
        0 <= i < encapsulated.len() ==> (#[trigger] encapsulated[i] matches Ok((_, ks)) ==> ks@.len()
            >= n)
}

/// Finishes an encryption from what encapsulation gave: a key ciphertext and
/// the first `msg.len()` keystream bytes, or the KEM's error.
pub fn seal<C>(encapsulated: Result<(C, Vec<u8>), KEMError>, msg: &[u8]) -> (r: Result<
    (C, Vec<u8>),
    WEError,
>)
    requires
        encapsulated matches Ok((_, ks)) ==> ks@.len() >= msg@.len(),
    ensures
        match encapsulated {
            Ok(_) => r matches Ok(entry) && sealed_entry(encapsulated, entry, msg@),
            Err(e) => r == Err::<(C, Vec<u8>), WEError>(WEError::KEMError(e)),
        },
{
    match encapsulated {
        Ok((key_ct, ks)) => {
            let ct = xor_bytes(ks.as_slice(), msg);
            Ok((key_ct, ct))
        },
        Err(e) => Err(WEError::from(e)),
    }
}

/// Finishes a batch of encryptions of one message, one per encapsulation, in
/// order. All succeed, and entry `i` is `msg` sealed under encapsulation `i`;
/// or the batch fails with the error of the first failed encapsulation.
pub fn seal_batch<C>(encapsulated: Vec<Result<(C, Vec<u8>), KEMError>>, msg: &[u8]) -> (r: Result<
    Vec<(C, Vec<u8>)>,
    WEError,
>)
    requires
        keystreams_cover(encapsulated@, msg@.len()),
    ensures
        (forall|i: int| 0 <= i < encapsulated@.len() ==> #[trigger] encapsulated@[i] is Ok) ==> (
        r matches Ok(cts) && cts@.len() == encapsulated@.len() && forall|i: int|
            0 <= i < cts@.len() ==> sealed_entry(encapsulated@[i], #[trigger] cts@[i], msg@)),
        forall|j: int|
            0 <= j < encapsulated@.len() && #[trigger] encapsulated@[j] is Err && (forall|k: int|
                0 <= k < j ==> encapsulated@[k] is Ok) ==> r == Err::<Vec<(C, Vec<u8>)>, WEError>(
                WEError::KEMError(encapsulated@[j]->Err_0),
            ),
{
    let ghost all = encapsulated@;
    let mut rest = encapsulated;
    let mut cts: Vec<(C, Vec<u8>)> = Vec::new();
    while rest.len() > 0
        invariant
            all == encapsulated@,
            all.len() == cts@.len() + rest@.len(),
            rest@ == all.subrange(cts@.len() as int, all.len() as int),
            keystreams_cover(all, msg@.len()),
            forall|i: int| 0 <= i < cts@.len() ==> sealed_entry(all[i], #[trigger] cts@[i], msg@),
        decreases rest@.len(),
    {
        let ghost done = cts@.len() as int;
        let enc = rest.remove(0);
        assert(enc == all[done]);
        match enc {
            Ok((key_ct, ks)) => {
                let ct = xor_bytes(ks.as_slice(), msg);
                cts.push((key_ct, ct));
                assert(sealed_entry(all[done], cts@[done], msg@));
            },
            Err(e) => {
                assert forall|j: int|
                    0 <= j < all.len() && #[trigger] all[j] is Err && (forall|k: int|
                        0 <= k < j ==> all[k] is Ok) implies j == done by {
                    if j < done {
                        assert(sealed_entry(all[j], cts@[j], msg@));
                    }
                    if j > done {
                        assert(all[done] is Ok);
                    }
                }
                assert(all[done] is Err);
                return Err(WEError::from(e));
            },
        }
    }
    assert forall|j: int| 0 <= j < all.len() implies #[trigger] all[j] is Ok by {
        assert(sealed_entry(all[j], cts@[j], msg@));
    }
    Ok(cts)
}

/// Finishes a decryption from what decapsulation gave: the first
/// `msg_ct.len()` keystream bytes, or the KEM's error.
pub fn unseal(decapsulated: Result<Vec<u8>, KEMError>, msg_ct: &[u8]) -> (r: Result<
    Vec<u8>,
    WEError,
>)
    requires
        decapsulated matches Ok(ks) ==> ks@.len() >= msg_ct@.len(),
    ensures
        match decapsulated {
            Ok(ks) => r matches Ok(m) && m@ == xor_seq(ks@, msg_ct@),
            Err(e) => r == Err::<Vec<u8>, WEError>(WEError::KEMError(e)),
        },
{
    match decapsulated {
        Ok(ks) => Ok(xor_bytes(ks.as_slice(), msg_ct)),
        Err(e) => Err(WEError::from(e)),
    }
}

/// Extractable witness encryption over a KEM.
pub struct WE<K: Kem> {
    kem: K,
}

impl<K: Kem> WE<K> {
    /// The KEM this instance encrypts with.
    pub closed spec fn kem_spec(&self) -> K {
        self.kem
    }

    /// Creates an instance that encrypts with `kem`.
    pub fn new(kem: K) -> (r: Self)
        ensures
            r.kem_spec() == kem,
    {
        Self { kem }
    }

    /// The KEM this instance encrypts with.
    pub fn kem(&self) -> (r: &K)
        ensures
            *r == self.kem_spec(),
    {
        &self.kem
    }

    /// Encrypts `msg` once for each statement "the committed polynomial takes
    /// `values[i]` at `points[i]`". The results come in the order of the
    /// points; the first failure of the KEM fails the whole batch.
    pub fn encrypt(
        &self,
        com: K::Commitment,
        points: Vec<K::Point>,
        values: Vec<K::Value>,
        msg: &[u8],
    ) -> (r: Result<Vec<(K::KeyCiphertext, Vec<u8>)>, WEError>)
        requires
            points@.len() == values@.len(),
        ensures
            points@.len() == 0 ==> (r matches Ok(cts) && cts@.len() == 0),
            r matches Ok(cts) ==> {
                &&& cts@.len() == points@.len()
                &&& forall|i: int| 0 <= i < cts@.len() ==> (#[trigger] cts@[i]).1@.len() == msg@.len()
            },
    {
        let mut encapsulated: Vec<Result<(K::KeyCiphertext, Vec<u8>), KEMError>> = Vec::new();
        let mut failed = false;
        let mut i: usize = 0;
        while i < points.len() && !failed
            invariant
                i <= points@.len(),
                points@.len() == values@.len(),
                points@.len() == 0 ==> !failed && encapsulated@.len() == 0,
                keystreams_cover(encapsulated@, msg@.len()),
                !failed ==> encapsulated@.len() == i,
                !failed ==> forall|j: int|
                    0 <= j < encapsulated@.len() ==> #[trigger] encapsulated@[j] is Ok,
                failed ==> encapsulated@.len() >= 1 && encapsulated@.last() is Err,
                failed ==> forall|j: int|
                    0 <= j < encapsulated@.len() - 1 ==> #[trigger] encapsulated@[j] is Ok,
            decreases points@.len() - i,
        {
            let enc = self.encapsulate_for(com, points[i], values[i], msg.len());
            failed = enc.is_err();
            encapsulated.push(enc);
            i = i + 1;
        }
        let ghost encs = encapsulated@;
        let r = seal_batch(encapsulated, msg);
        proof {
            if failed {
                let last = encs.len() - 1;
                assert(encs[last] is Err);
                assert(r == Err::<Vec<(K::KeyCiphertext, Vec<u8>)>, WEError>(
                    WEError::KEMError(encs[last]->Err_0),
                ));
            }
            if r is Ok {
                let cts = r->Ok_0;
                assert forall|j: int| 0 <= j < cts@.len() implies (#[trigger] cts@[j]).1@.len()
                    == msg@.len() by {
                    assert(sealed_entry(encs[j], cts@[j], msg@));
                }
            }
        }
        r
    }

    /// Encapsulates the statement and draws `n` bytes of the keystream.
    fn encapsulate_for(&self, com: K::Commitment, point: K::Point, value: K::Value, n: usize) -> (r:
        Result<(K::KeyCiphertext, Vec<u8>), KEMError>)
        ensures
            r matches Ok((_, ks)) ==> ks@.len() == n,
    {
        match self.kem.encapsulate(com, point, value) {
            Ok((key_ct, stream)) => {
                let mut stream = stream;
                let ks = draw(&mut stream, n);
                Ok((key_ct, ks))
            },
            Err(e) => Err(e),
        }
    }

    /// Encrypts `msg` for the statement "the polynomial committed to by `com`
    /// takes `value` at `point`". Returns the key ciphertext, which the
    /// decryptor needs, and the message ciphertext, as long as `msg`.
    pub fn encrypt_single(
        &self,
        com: K::Commitment,
        point: K::Point,
        value: K::Value,
        msg: &[u8],
    ) -> (r: Result<(K::KeyCiphertext, Vec<u8>), WEError>)
        ensures
            r matches Ok((_, ct)) ==> ct@.len() == msg@.len(),
    {
        let encapsulated = self.encapsulate_for(com, point, value, msg.len());
        seal(encapsulated, msg)
    }

    /// Decrypts `msg_ct` with the key ciphertext it came with and an opening
    /// proof. The result is as long as `msg_ct`; it is the message when the
    /// proof opens the statement the key ciphertext was made for.
    pub fn decrypt_single(&self, proof: K::Witness, key_ct: K::KeyCiphertext, msg_ct: &[u8]) -> (r:
        Result<Vec<u8>, WEError>)
        ensures
            r matches Ok(m) ==> m@.len() == msg_ct@.len(),
    {
        let decapsulated = match self.kem.decapsulate(proof, key_ct) {
            Ok(stream) => {
                let mut stream = stream;
                Ok(draw(&mut stream, msg_ct.len()))
            },
            Err(e) => Err(e),
        };
        unseal(decapsulated, msg_ct)
    }
}

} // verus!
