//! The lifecycle engine of a version manager for toolchains and their extensions.
//!
//! The engine resolves what the user asks for against a catalog, fetches archives
//! through a cache of verified downloads, installs each version into a directory
//! of its own, keeps one active pointer per kind, builds from source, and removes
//! what is installed. Every step that others can see on the disk is a single
//! rename or removal, so that a version is either installed or not, and an archive
//! either in the cache or not, whatever fails in between.
//!
//! The library does no outside work. [`engine::Engine`] decides; whoever drives it
//! carries out one [`protocol::Action`] at a time and reports the
//! [`protocol::Event`] that came of it. [`model`] states what every step does, and
//! [`laws`] what holds of every run.

pub mod cache;
pub mod catalog;
pub mod cli;
pub mod engine;
pub mod error;
pub mod kind;
pub mod laws;
pub mod layout;
pub mod model;
pub mod protocol;
pub mod store;
pub mod text;
pub mod version;
