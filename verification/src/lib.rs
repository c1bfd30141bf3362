//! Device-attribute access layer for sysfs-style device trees.
//!
//! Devices appear as directories under `/sys/class/<class>/<device>/`, each
//! exposing small text files ("attributes"). This crate provides:
//!
//! * a [`driver::Driver`] that binds a `(class, device)` pair and memoizes
//!   per-attribute handles,
//! * discovery operations that pick a device out of a class directory by its
//!   advertised port address and/or driver identity, and
//! * the decision logic of a change-notified wait primitive.
//!
//! Filesystem enumeration, attribute file I/O and the blocking
//! change-notification call live outside this crate; the logic here works on
//! the plain values they produce.

pub mod attribute;
pub mod driver;
pub mod error;
pub mod strutil;
pub mod wait;
