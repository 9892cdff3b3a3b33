//! Verified core of a terminal client for a modular audio workstation:
//! timeline arithmetic, focus navigation, layer management, view reducers
//! and the project document model.

pub mod action;
pub mod common;
pub mod document;
pub mod engine;
pub mod events;
pub mod components;
pub mod routes;
pub mod sort;
pub mod text;
pub mod timeline;
pub mod focus;
pub mod idmap;
pub mod ipc;
pub mod layers;
pub mod modules;
pub mod timing;
pub mod views;
pub mod waveform;
pub mod xml;
