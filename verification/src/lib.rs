//! Orchestration core of a voucher-redemption gateway.
//!
//! A voucher code doubles as a wallet label.  Redeeming a voucher walks a
//! fixed pipeline of JSON-RPC calls against a wallet node: resolve the label
//! to its addresses, gather the unspent outputs those addresses control, and
//! build, sign and broadcast a transaction that sweeps every output (minus a
//! fee) to a destination address.  This crate holds the verified part of that
//! pipeline: the state machine that decides each step, the framing of every
//! request body, the decoding of every response, and the fixed-point
//! arithmetic on amounts.  The unverified shell around it performs the actual
//! HTTP traffic and hands each reply back as a [`json::Json`] value.

pub mod amount;
pub mod decode;
pub mod errors;
pub mod gateway;
pub mod json;
pub mod laws;
pub mod pipeline;
pub mod request;
pub mod text;
