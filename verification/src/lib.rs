//! Display-topology bookkeeping for the Kaiser display manager.
//!
//! The library keeps the last known display topology, the colour-state
//! signature and the cached SDR gamma ramps, and it makes every decision of
//! the backend: when the topology must be queried, whether a layout may be
//! applied, when inactive displays must be rediscovered, how the gamma cache
//! is merged, and which audio devices a profile's settings address.
//! The platform work itself (Win32 display configuration, gamma ramps, audio
//! endpoints, files) is done by the application around it.
pub mod display;
pub mod gamma;
pub mod topology;
pub mod backend;
pub mod apply;
pub mod text;
pub mod audio;
pub mod profile;
