//! Gesture recognition and action planning for the S10 Bluetooth ring remote.
//!
//! - [`gesture`]: the swipe / tap / double-tap recogniser.
//! - [`config`]: the configuration of a profile and its defaults.
//! - [`action`]: what a mapped action (`command:`, `text:`, `key:`, `combo:`, `mouse:`) runs.
//! - [`remap`]: the decisions of the event loop (raw events, reactions, profiles).
//! - [`device`]: the reconnect and retry policy of reading an input device.
//! - [`strmap`], [`text`]: the string map and string operations these rest on.

pub mod action;
pub mod config;
pub mod device;
pub mod gesture;
pub mod remap;
pub mod strmap;
pub mod text;
