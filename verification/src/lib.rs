//! Verified core of a stack-based live-coding synthesizer: the frame stack
//! and the ops that only move frames, the ring buffer, the pattern language,
//! the program rewriter and the reading of its words into ops, scale quantisation,
//! voice allocation, the spectral shuffle, MIDI messages, state migration on
//! reload, the text, undo history and layout of the collaborative editor
//! with the engine that shares them between sessions, and the index of the
//! help text.
pub mod stack;
pub mod buffer;
pub mod ops;
pub mod text;
pub mod program;
pub mod scale;
pub mod crdt;
pub mod midi;
pub mod pattern;
pub mod voices;
pub mod reverb;
pub mod migration;
pub mod spectral;
pub mod server;
pub mod constants;
pub mod linear;
pub mod words;
pub mod engine;
pub mod help;
pub mod vocabulary;
