//! Encrypted local store of one-time-password seeds, with the TOTP code generator
//! that consumes them.
pub mod cipher;
pub mod input;
pub mod otp;
pub mod vault;
