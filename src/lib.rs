//! Synchronisation layer between a background render worker and the UI
//! thread of a desktop window: a buffer of serialized mutation batches, a
//! decoder for inbound input events, the decisions of the render loop, and a
//! registry of open windows with its close and delivery policy.
pub mod buffer;
pub mod codec;
pub mod controller;
pub mod driver;
pub mod ready;
