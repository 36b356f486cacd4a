//! Shutter pacing for the NVIDIA 3D Vision USB emitter.

pub mod demo;
pub mod display_laws;
pub mod edid;
pub mod gfx;
pub mod host;
pub mod medimg;
pub mod nvstusb;
pub mod nvtimings;
pub mod picture_laws;
pub mod pulsar;
pub mod scene;
pub mod screenshot;
pub mod shm;
pub mod text;
pub mod text_laws;
