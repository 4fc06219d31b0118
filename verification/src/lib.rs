//! Verified core of a remote-attestation signer: DER encoding of a
//! self-signed X.509 certificate, multi-limb integer arithmetic for ECDSA
//! P-256, byte-order conversions, ioctl request handling and the logic of
//! the userspace client.
pub mod der;
pub mod bytes;
pub mod convert;
pub mod cert;
pub mod vli;
pub mod vli_order;
pub mod ecdsa;
pub mod client;
pub mod client_der;
pub mod ioctl;
pub mod set_once;
pub mod vli_ops;
pub mod vli_inv;
