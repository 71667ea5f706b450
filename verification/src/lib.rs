//! Core of a volumetric data-cube viewer.
//!
//! The crate models the data pipeline of an interactive viewer for
//! 3-dimensional astronomical intensity cubes: robust percentile clipping of
//! sample values, ingestion of a cube from a container byte stream, the
//! GPU-side parameter buffers shared by the render passes, volume-upload
//! validation against device limits, per-frame pass orchestration, and the
//! pointer-driven interaction state machine.
//!
//! Sample values are 32-bit IEEE-754 floats.  Inside the verified core a
//! sample is carried as its bit pattern (`u32`), and camera angles and
//! intensity-window factors are carried in fixed-point millionths; the
//! unverified shell converts at the GPU and windowing boundary.

pub mod fbits;
pub mod clip;
pub mod ingest;
pub mod params;
pub mod volume;
pub mod interact;
pub mod frame;
pub mod facade;
pub mod viewer;
pub mod container;
pub mod guard;
