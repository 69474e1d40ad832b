//! Turns the hosts named in an HTTP archive into per-domain reports: the
//! addresses of each domain, the round trip to the first of them, and where
//! the addresses lie.
//!
//! The library computes and decides; it neither reads files nor touches the
//! network. [`domains`] makes the list of domains from the bytes of an
//! archive. [`server`] and [`resolver`] read the name server that a user
//! asks for. [`record`] holds the report on one domain and says, answer by
//! answer, what is to be asked next; [`guarantees`] states what holds of
//! every report. [`geo`], [`address`] and [`table`] write what a report
//! shows.

pub mod address;
pub mod cli;
pub mod domains;
pub mod geo;
pub mod guarantees;
pub mod order;
pub mod record;
pub mod resolver;
pub mod server;
pub mod table;
pub mod text;
