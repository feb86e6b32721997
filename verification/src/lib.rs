//! Core of a static-asset gateway that fronts a single upstream.
//!
//! The library holds the verified logic of the gateway: manifest-driven
//! logical-to-physical path resolution, conditional-request evaluation,
//! cache-control policy, CORS header computation, and the routing
//! decisions.  All filesystem and network I/O lives outside, in the
//! surrounding binary, which feeds this library plain values (paths,
//! header values, file metadata) and carries out the plans it returns.

pub mod assets;
pub mod conditional;
pub mod cors;
pub mod json;
pub mod manifest;
pub mod paths;
pub mod responder;
pub mod router;
pub mod strutil;
