//! Native capability bridge for a host that embeds a scripting engine.
//!
//! The library holds the verified core of the host: a handle-based memory
//! arena that exposes fixed-size native storage to untrusted scripts, the
//! decision logic of the networking bridge (response classification, header
//! state, reentrancy gate), the text styling transforms, the capability
//! module registry, and the file/REPL execution driver's control flow.
//! Engine wiring, process I/O and the actual HTTP transport live outside.

pub mod kvmap;
pub mod arena;
pub mod registry;
pub mod text;
pub mod styling;
pub mod http;
pub mod logging;
pub mod driver;
