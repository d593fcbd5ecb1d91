//! Core of a newsletter service: validated subscriber identities, the
//! confirmation protocol over the subscription store, and the dispatch of an
//! issue to the confirmed subscribers.

pub mod domain;
pub mod routes;
pub mod services;
pub mod startup;
pub mod store;
