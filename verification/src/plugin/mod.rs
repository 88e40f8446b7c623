//! The bar as a plugin of the multiplexer: what it makes of events and messages.

pub mod broadcast;
pub mod event_laws;
pub mod events;
pub mod laws;
pub mod life;
pub mod life_laws;
pub mod message_laws;
pub mod messages;
pub mod model;
pub mod pending;
pub mod persistence;
pub mod saved;
pub mod storage_laws;
