//! A reverse Dutch auction escrow.
//!
//! A host deposits a ceiling payment in a counter asset; a bid price rises on
//! a fixed integer schedule; whoever holds the tracked asset may accept the
//! current price at any moment, handing the asset to the escrow in exchange
//! for the payment. The host later reclaims residual funds or the acquired
//! asset depending on the outcome.
//!
//! The crate holds the auction state machine, the bid pricing engine and the
//! fund-custody protocol, all verified. Host-environment concerns (identity
//! checks, durable storage, event emission) stay with the caller; the token
//! ledger the custody protocol acts on is modelled by [`ledger::TokenLedger`].

pub mod auction;
pub mod laws;
pub mod ledger;
pub mod pricing;
pub mod types;
