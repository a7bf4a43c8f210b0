//! The verified core of a Vulkan paint engine for an X11 server.
//!
//! The crate decides what is painted, in which order, and who owns each
//! GPU object until its fence signals. It never talks to a device: every
//! operation turns plain values into command lists and state changes, and
//! takes the device's answers as plain values.

pub mod access;
pub mod batch;
pub mod caches;
pub mod choices;
pub mod close;
pub mod command;
pub mod composite;
pub mod compositing;
pub mod copy;
pub mod counts;
pub mod coverage;
pub mod cow;
pub mod damage;
pub mod deferred;
pub mod device;
pub mod dispatch;
pub mod engine;
pub mod error;
pub mod fills;
pub mod frame;
pub mod geometry;
pub mod glyphs;
pub mod hazards;
pub mod image;
pub mod layouts;
pub mod lettering;
pub mod memory;
pub mod order;
pub mod outcomes;
pub mod owed;
pub mod owner;
pub mod paint;
pub mod picture;
pub mod pixel;
pub mod pixels;
pub mod recorded;
pub mod refuse;
pub mod replay;
pub mod retire;
pub mod store;
pub mod submit;
pub mod switches;
pub mod text;
pub mod touch;
pub mod transfers;
pub mod traps;
pub mod undo;
pub mod wire;
