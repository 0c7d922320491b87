//! The verified core of PadPlay, which turns a tablet on a USB cable into a
//! second monitor: a virtual output is created on the host, captured, encoded and
//! streamed to the tablet, with the host's audio beside it.
//!
//! Everything here decides and computes; talking to processes, sockets, devices
//! and media pipelines is left to the program around it. What such work is to do
//! is handed out as plain data, and what came of it is handed back in.
//!
//! - `text`, `numeral`, `reading`: the small text formats of other programs.
//! - `protocol`, `transport`, `link`: the wire to the tablet.
//! - `edid`, `evdi`: a device that a compositor takes for a monitor.
//! - `command`, `hyprland`, `output`, `creation`: virtual outputs.
//! - `pipeline`, `modifiers`, `encoder`, `audio`: what is encoded, and how.
//! - `session`, `setup`, `pacing`, `stats`: one streaming session.
//! - `adb`, `args`, `supervisor`: the daemon.
//! - `probe`: what the probes measure.

pub mod text;
pub mod numeral;
pub mod reading;

pub mod protocol;
pub mod transport;
pub mod link;

pub mod edid;
pub mod evdi;

pub mod command;
pub mod hyprland;
pub mod output;
pub mod creation;

pub mod pipeline;
pub mod modifiers;
pub mod encoder;
pub mod audio;

pub mod session;
pub mod setup;
pub mod pacing;
pub mod stats;

pub mod adb;
pub mod args;
pub mod supervisor;

pub mod probe;
