//! Core of a vehicle-registry lookup gateway.
//!
//! Given a registration number, the gateway serves structured vehicle data
//! scraped from a public registry page, and memoizes every successful lookup
//! on durable storage so repeated queries never re-contact the upstream
//! source. This crate holds the verified core of that pipeline:
//!
//! - [`cache`]: the cache-or-compute orchestrator — when a stored value is
//!   trusted, when the fallback computation runs, what is persisted, and how
//!   failures are classified — proved over a map model of the store;
//! - [`section`]: the structured result of a lookup and its serialized form —
//!   header/data cell pairing, title defaulting, the JSON rendering and the
//!   fallback sentence for pages without vehicle data;
//! - [`html`]: the traversal of the fetched page, verified over named
//!   functions of the `select` crate's parsed document.
//!
//! The surrounding program owns the HTTP routing, the key-format validation,
//! the network fetch and the on-disk store; it drives the same decision
//! functions this crate proves, handing them plain values.

pub mod cache;
pub mod html;
pub mod section;
