//! The symmetric layer: a message is combined byte by byte with a keystream.
use vstd::prelude::*;

verus! {

/// The first `data.len()` bytes of `keystream`, each combined with the byte
/// of `data` at the same position by exclusive or.
pub open spec fn xor_seq(keystream: Seq<u8>, data: Seq<u8>) -> Seq<u8> {
    Seq::new(data.len(), |i: int| keystream[i] ^ data[i])
}

/// Combines `data` with the leading bytes of `keystream`.
/// Encryption and decryption are both this one operation.
pub fn xor_bytes(keystream: &[u8], data: &[u8]) -> (r: Vec<u8>)
    requires
        keystream@.len() >= data@.len(),
    ensures
        r@ == xor_seq(keystream@, data@),
{
    let mut out: Vec<u8> = Vec::with_capacity(data.len());
    let mut i: usize = 0;
    while i < data.len()
        invariant
            i <= data@.len(),
            keystream@.len() >= data@.len(),
            out@ == xor_seq(keystream@, data@.take(i as int)),
        decreases data@.len() - i,
    {
        out.push(keystream[i] ^ data[i]);
        i = i + 1;
        assert(out@ =~= xor_seq(keystream@, data@.take(i as int)));
    }
    assert(data@.take(i as int) =~= data@);
    out
}

/// The ciphertext is exactly as long as the plaintext, the empty one included.
pub proof fn lemma_xor_len(keystream: Seq<u8>, data: Seq<u8>)
    ensures
        xor_seq(keystream, data).len() == data.len(),
{
}

/// Combining twice with the same keystream gives the data back.
pub proof fn lemma_xor_round_trip(keystream: Seq<u8>, data: Seq<u8>)
    requires
        keystream.len() >= data.len(),
    ensures
        xor_seq(keystream, xor_seq(keystream, data)) == data,
{
    assert forall|i: int| 0 <= i < data.len() implies
        #[trigger] xor_seq(keystream, xor_seq(keystream, data))[i] == data[i] by {
        let k = keystream[i];
        let d = data[i];
        assert(k ^ (k ^ d) == d) by (bit_vector);
    }
    assert(xor_seq(keystream, xor_seq(keystream, data)) =~= data);
}

/// Data encrypted under one keystream and decrypted under another comes back
/// unchanged exactly when the two keystreams agree on the first `data.len()`
/// bytes.
pub proof fn lemma_xor_recovers_iff_same_keystream(enc: Seq<u8>, dec: Seq<u8>, data: Seq<u8>)
    requires
        enc.len() >= data.len(),
        dec.len() >= data.len(),
    ensures
        xor_seq(dec, xor_seq(enc, data)) == data <==> enc.take(data.len() as int)
            == dec.take(data.len() as int),
{
    let n = data.len() as int;
    let back = xor_seq(dec, xor_seq(enc, data));
    if enc.take(n) == dec.take(n) {
        assert forall|i: int| 0 <= i < n implies #[trigger] back[i] == data[i] by {
            let e = enc[i];
            let k = dec[i];
            let d = data[i];
            assert(enc.take(n)[i] == dec.take(n)[i]);
            assert(e == k ==> k ^ (e ^ d) == d) by (bit_vector);
        }
        assert(back =~= data);
    }
    if back == data {
        assert forall|i: int| 0 <= i < n implies #[trigger] enc.take(n)[i] == dec.take(n)[i] by {
            let e = enc[i];
            let k = dec[i];
            let d = data[i];
            assert(back[i] == data[i]);
            assert(k ^ (e ^ d) == d ==> e == k) by (bit_vector);
        }
        assert(enc.take(n) =~= dec.take(n));
    }
}

} // verus!
