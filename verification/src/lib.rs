//! Core logic of a small uptime monitor: a heartbeat timestamp codec, the
//! reboot announcement message and webhook payload builders, and the
//! startup-notification state machine that decides, across ticks, whether a
//! reboot announcement still has to be delivered.

pub mod clock;
pub mod codec;
pub mod message;
pub mod state;
