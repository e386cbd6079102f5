//! The identity-linking and message-translation core of a multi-platform
//! chat bridge: a canonical cross-platform user identity store, a textual
//! mention codec, a reply correlator mapping bridge messages to native
//! message coordinates, and the pipeline that renders an inbound bridge
//! message as an ordered outbound plan for this platform.

pub mod text;
pub mod mention;
pub mod user;
pub mod user_manager;
pub mod correlator;
pub mod pipeline;
