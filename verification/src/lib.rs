//! A retro media player's logic: file and folder naming rules, playlist and
//! queue state machines, tool-output parsing and small media helpers.
use vstd::prelude::*;

pub mod text;
pub mod paths;
pub mod time;
pub mod util;
pub mod audio;
pub mod library;
pub mod types;
pub mod tools;
pub mod settings;
pub mod network;
pub mod ytdlp;
pub mod ffmpeg;
pub mod theme;
pub mod windows;
pub mod pipe;
pub mod video;
pub mod download;
pub mod playlist;
pub mod order;
pub mod bands;
pub mod controls;
pub mod scan;
pub mod batch;
pub mod art;
pub mod cover;
pub mod prefetch;
pub mod stored;
