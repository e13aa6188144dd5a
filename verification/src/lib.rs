//! Onboarding of IoT hotspots into a compressed, Merkle-anchored asset registry.
//!
//! A hotspot is onboarded in one atomic step: its metadata is hashed into the
//! leaf of a compressed asset, the leaf is proved to lie under a claimed
//! Merkle root, the onboarding fee is burned from the payer's data credits,
//! and the hotspot's record is created at an address derived from the
//! rewardable entity configuration and the hotspot's key.
//!
//! The digests and the program-derived addresses come from the Solana SDK;
//! everything else is proved against the contracts stated here.

pub mod address;
pub mod asset;
pub mod bytes;
pub mod digest;
pub mod error;
pub mod key;
pub mod leaf;
pub mod ledger;
pub mod merkle;
pub mod metadata;
pub mod onboard;
pub mod record;
