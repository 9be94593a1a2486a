//! Audio devices: where device queries run, and what the name of the
//! default output device says about it.
pub mod host_thread;
pub mod playback_monitor;
pub mod system_audio;
