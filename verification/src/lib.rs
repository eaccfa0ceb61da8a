//! A layered overlay compositor core, and the logic of the small desktop
//! tools that go with it.
//!
//! Senders describe what to draw as commands addressed to numbered layers.
//! The canvas keeps one operation list per layer, drops layers whose
//! lifetime has run out, and turns what is left into an ordered list of
//! paint commands, lower layers first. A scheduler decides on every tick
//! whether a new frame is due, and the presenter lays the finished pixels
//! out in the byte order the display expects.
//!
//! The tools are senders and helpers: push to talk and the volume
//! indicator build commands for the overlay; cycling the audio output,
//! switching workspaces, telling binary files from text and watching a
//! connection each decide what is to be done next.

pub mod color;
pub mod draw;
pub mod network;
pub mod canvas;
pub mod wayland;
pub mod scheduler;

pub mod text;
pub mod pipewire;
pub mod cmd_cycle;
pub mod cmd_hyprland;
pub mod cmd_ptt;
pub mod cmd_volume;
pub mod aidump;
pub mod netstatus;
