//! Extractable witness encryption built from an extractable witness KEM.
//!
//! A message is encrypted relative to a statement (a polynomial commitment,
//! an evaluation point and a claimed value). Whoever holds an opening proof
//! for that statement can recover the message; anyone else gets bytes of the
//! right length that are not the message.
pub mod cipher;
pub mod kem;
pub mod we;
