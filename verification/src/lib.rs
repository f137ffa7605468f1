//! dxfeed: a verified library that turns the raw feeds of DX clusters and of
//! the Reverse Beacon Network into one stream of spot events.
//!
//! Sources hand in lines of text. A line is parsed ([`parser`]), the reported
//! callsign is normalized ([`callsign`]), the report is judged by the skimmer
//! quality engine ([`skimmer`]), merged into the table of spots
//! ([`aggregator`]), looked up in the resolvers ([`resolver`]) and held
//! against the filter ([`filter`]). What comes out are the events of
//! [`model`]: a spot is new, was updated, or is withdrawn.
//!
//! [`source`] holds the protocol of a cluster connection as a state machine,
//! [`feed`] the assembly of a feed, [`console`] what a terminal front end shows.
//! No module opens a socket, reads a clock or sleeps: lines, bytes and points
//! in time are arguments.

pub mod aggregator;
pub mod callsign;
pub mod console;
pub mod domain;
pub mod feed;
pub mod filter;
pub mod freq;
pub mod metrics;
pub mod model;
pub mod parser;
pub mod resolver;
pub mod sets;
pub mod skimmer;
pub mod source;
pub mod text;
pub mod time;
