//! Client-side logic for a federated identity portal's internal API.
//!
//! The library is transport-free: it builds descriptions of the HTTP
//! requests the portal expects (URL, headers, query and form parameters)
//! and decodes the JSON response bodies the portal sends back. A thin
//! unverified shell performs the actual network round trips and feeds the
//! bodies back in.
//!
//! `json` holds the verified JSON reader, `model` the wire data types and
//! their decoders, `client` the session client with its request builders
//! and operations, and `name` the parser that derives structured
//! identifiers from an instance's free-text name.

pub mod client;
pub mod json;
pub mod model;
pub mod name;
