//! A single-offer atomic swap escrow ledger.
//!
//! One seller places a quantity of a "sell" asset under the custody of a
//! contract identity and publishes a fixed exchange rate against a "buy"
//! asset. Any buyer may then execute a trade that atomically exchanges
//! buy-asset for sell-asset at that rate, with the buy-asset proceeds
//! forwarded immediately to the seller. The seller may withdraw residual
//! custodial balances and may update the quoted rate at any time.
//!
//! The surrounding host environment is made explicit as plain values:
//! asset balances live in an [`asset::AssetBook`], authorization proofs in
//! an [`auth::AuthProof`], and the single persistent offer record in an
//! [`offer::OfferStore`] held by [`offer::SingleOffer`].

pub mod asset;
pub mod auth;
pub mod errors;
pub mod laws;
pub mod offer;
