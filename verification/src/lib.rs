//! Verified core of the kintaro audiovisualizer: mixing of rendered
//! waveforms, hex colour parsing and colour palettes, frame clocks, and the
//! decisions behind the control windows and the window's event loop.
pub mod audio;
pub mod color;
pub mod random;
pub mod config;
pub mod glyphy;
pub mod clock;
pub mod ui;
pub mod origami;
pub mod event_loop;
pub mod instance;
