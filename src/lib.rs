//! Encoding of RSA public keys into the CryptoAPI `PUBLICKEYBLOB` layout,
//! and the naming of the files that carry a key and its blob.

pub mod le;
pub mod error;
pub mod blob;
pub mod naming;
pub mod key;
pub mod text;
