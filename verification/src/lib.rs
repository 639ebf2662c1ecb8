//! Client core for a query-style cloud API that signs every request.
//!
//! The crate builds authenticated request URLs out of logical parameters:
//! values are percent-encoded into the provider's unreserved set, assembled
//! into a canonical sorted query string, signed with HMAC-SHA1 over the
//! caller's secret, and the raw JSON answer is classified into a typed
//! success value, a structured rejection, or a transport/internal failure.

pub mod client;
pub mod encode;
pub mod error;
pub mod order;
pub mod params;
pub mod response;
pub mod services;
pub mod signing;
