//! Core of a Wayland compositor: the wire codec, per-client object tables,
//! the global registry, and the data-transfer machinery of selections and
//! drag-and-drop (action negotiation, data sources and their offers), with
//! shared-memory buffer validation.

pub mod actions;
pub mod wire;
pub mod client;
pub mod data_source;
pub mod wl_buffer;
pub mod state;
