//! Core of a voice transcription service.
//!
//! Audio arrives as a stream of samples and is cut into segments of speech
//! ([`audio`]). One capture session runs at a time; each of its segments is
//! recognised and, where asked for, translated, and what comes out of that
//! is stored and told to the observers ([`services`]). Conversations and
//! their entries live in the store ([`store`]), listed by rank ([`rank`]).
//! Which provider does what is decided from the settings ([`config`],
//! [`engines`]).
//!
//! The library decides and keeps state; it does not touch devices, files or
//! the network. The two things it reads from outside, the time and fresh
//! identifiers, are fenced in [`clock`].

pub mod app_state;
pub mod audio;
pub mod clock;
pub mod config;
pub mod conversation_store;
pub mod engines;
pub mod error;
pub mod python;
pub mod rank;
pub mod services;
pub mod state;
pub mod store;
pub mod text;
