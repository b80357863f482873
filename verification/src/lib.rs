#![verifier::loop_isolation(false)]
//! Hardware profile catalog engine.
//!
//! The library resolves a remote catalog of driver/software profiles for
//! three device domains (USB, Bluetooth, DMI/board), normalizes the loosely
//! typed catalog JSON into strict profile records ordered by priority,
//! matches detected devices against those records with a shared
//! wildcard/blacklist rule algebra, and plans idempotent install, remove and
//! status checks driven by each profile's shell fragments.

pub mod bt;
pub mod catalog;
pub mod dmi;
pub mod errors;
pub mod executor;
pub mod fetch;
pub mod json;
pub mod matching;
pub mod strutil;
pub mod usb;
