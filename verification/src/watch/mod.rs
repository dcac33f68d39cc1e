//! The watching side: the browser and viewer, its connection, and the one-shot
//! listing.
pub mod app;
pub mod laws;
pub mod layout;
pub mod listing;
pub mod model;
pub mod promises;
pub mod session;
pub mod show;
