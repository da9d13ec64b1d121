//! Decision logic of a keyboard media-key remapper and of the supervisor that
//! starts and stops it: the key table, the debounced backlight counter, pid-file
//! liveness and the start / stop / hotkey protocols, each stated over plain values.

pub mod text;
pub mod keymap;
pub mod backlight;
pub mod pidfile;
pub mod daemon;
pub mod supervisor;
pub mod hotkey;
pub mod models;
pub mod diagnostics;
pub mod keyvalue;
pub mod status;
pub mod events;
