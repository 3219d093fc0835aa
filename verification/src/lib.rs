//! Session broker for a desktop screen-capture portal.
//!
//! The broker accepts capture requests over a standardized protocol, drives a
//! human-in-the-loop source-selection step through an external picker process,
//! instructs the compositor to begin capturing, waits (with a bounded timeout)
//! for the compositor to publish a transport handle, and keeps a registry of
//! in-flight sessions that are torn down when the owning application exits.
//!
//! Everything that decides or computes lives here, verified; the asynchronous
//! message-bus calls, the picker subprocess, and the icon-file lookups are
//! performed by the surrounding (unverified) binary, which feeds their
//! outcomes back into the functions of this crate.

pub mod error;
pub mod icon_lookup;
pub mod selector;
pub mod source;
mod strutil;
pub mod json;
pub mod running_app_watcher;
pub mod screencast;
pub mod screencast_stream;
pub mod screencast_session;
