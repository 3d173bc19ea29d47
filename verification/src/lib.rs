//! An in-memory authentication backend.
//!
//! The library has three layers: an account store ([`users`]) that registers
//! identities and hashes their passwords, a session store ([`sessions`]) that
//! issues and revokes opaque bearer tokens, and a facade ([`auth`]) that maps
//! the three public operations (sign-up, sign-in, sign-out) onto the stores
//! and translates their outcomes into wire-level status codes.
//! All state is volatile and held for the process lifetime only.

pub mod auth;
pub mod hashing;
pub mod ids;
pub mod laws;
pub mod sessions;
pub mod users;
