//! Verified core of a clipboard-to-speech poller.
//!
//! The library models one component: a poller that repeatedly samples a text
//! source, trims the sample, detects changes against the last recorded value,
//! and decides whether a running announcement must be interrupted and whether
//! a new one must be started.  The surrounding program performs the actual
//! subprocess work and feeds each sample to [`poller::Poller::step`].

pub mod poller;
pub mod selection;
pub mod text;
