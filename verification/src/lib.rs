//! Decision logic shared by the physics backends of a character controller:
//! which entities are sensed, which colliders a proximity sensor reports,
//! how collision layers exclude colliders, and which motor effects are applied.
//!
//! The physics engines themselves (ray and shape casts, transforms, floating
//! point vector arithmetic) stay outside; they hand this library plain facts
//! and get plain decisions back.

pub mod contact;
pub mod layers;
pub mod motors;
pub mod sensing;
pub mod toggle;
