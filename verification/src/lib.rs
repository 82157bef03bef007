//! Authentication helpers: password hashing with a self-describing storage
//! format, and the shared pieces of the one-time-password code.

mod key;
pub mod otp;
pub mod pass;
pub mod text;
