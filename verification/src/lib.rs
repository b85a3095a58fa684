//! Marvin32: a 32-bit, seeded, non-cryptographic hash over byte sequences.
//!
//! The hash is offered in three equivalent forms: a one-shot hash over a
//! byte slice ([`hash`]), a streaming hash over a fallible byte source
//! ([`hash_streaming`]), and an incremental hasher that accepts input in
//! pushes of arbitrary length ([`Marvin32`]). Each is proved to return
//! [`model::hash_spec`] of the bytes it consumed, so the three agree
//! with one another no matter how the input is chunked or how a source
//! fragments its reads. No cryptographic strength is claimed.

pub mod hasher;
pub mod model;
pub mod oneshot;
pub mod sources;
pub mod state;
pub mod stream;
pub mod words;

pub use hasher::Marvin32;
pub use oneshot::hash;
pub use sources::FatalSource;
pub use sources::FlakySource;
pub use sources::SliceSource;
pub use stream::ByteSource;
pub use stream::IoError;
pub use stream::hash_streaming;
