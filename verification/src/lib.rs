//! The logic of `fin`, a terminal client that browses a media server and plays
//! what it finds locally, on a Chromecast or on a UPnP renderer.
//!
//! Everything here computes on plain values. Sockets, files, audio devices and
//! the terminal belong to the program around this library.

pub mod cast;
pub mod cli;
pub mod columns;
pub mod config;
pub mod devices;
pub mod escape;
pub mod ids;
pub mod jellyfin;
pub mod json;
pub mod local;
pub mod media;
pub mod mediarenderer;
pub mod models;
pub mod mpris;
pub mod mpv;
pub mod num;
pub mod persist;
pub mod queue;
pub mod remote;
pub mod renderer;
pub mod rockbox;
pub mod sort;
pub mod stream;
pub mod subsonic;
pub mod symphonia;
pub mod tenths;
pub mod text;
pub mod tui;
pub mod upnp;
