//! The logic of `inm`, a desktop manager for Incus virtual machines with the
//! SPICE console drawn inside the application.

pub mod incus;
pub mod incus_remote;
pub mod input_source;
pub mod json;
pub mod manager;
pub mod scancode;
pub mod spice_session;
pub mod text;
pub mod theme;
