//! Watches chat text for license-key candidates and prepares batched
//! redemption calls: extraction of candidate keys from noisy text, the
//! request bodies sent to the redemption API, the demultiplexing of its
//! batched responses into per-key outcomes, and the credential store that
//! keeps those calls authorized.

pub mod credential;
pub mod dispatch;
pub mod encode;
pub mod extract;
pub mod login;
pub mod outcome;
pub mod redeem;
pub mod text;
