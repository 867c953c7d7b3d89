//! Verified core of the Digital Wellbeing desktop client.
//!
//! The modules hold the data model and the decision logic of the GUI: the
//! day timeline and its hourly breakdown, the dashboard and policies view
//! models, the client-side cache, D-Bus signal coalescing and daemon bus
//! selection.  Rendering, D-Bus transport and the async runtime live in the
//! application crate around this library.

pub mod clock;
pub mod names;
pub mod seq_util;
pub mod timeline;
pub mod text;
pub mod dashboard;
pub mod cache;
pub mod signals;
pub mod bus;
pub mod policies;
pub mod appshell;
pub mod flows;
pub mod client;
pub mod timeline_laws;
pub mod timeline_bounds;
