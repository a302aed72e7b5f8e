//! Post-quantum key containers with a CBOR envelope, and a decoder for the
//! CTAP2 authenticator-data record.

pub mod auth_data;
pub mod cbor;
pub mod dil3key;
pub mod envelope;
pub mod error;
pub mod kyber768key;

pub use error::Error;
