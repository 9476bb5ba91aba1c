//! An orbit-camera controller core: spherical camera pose, per-frame input
//! aggregation, and look-at transform derivation, all over decimal fixed-point
//! scalars (one unit is a millionth).
//!
//! The per-tick control flow is a three-phase pipeline: aggregate raw input
//! into intents, apply intents to the pose, then derive the world transform.

pub mod camera;
pub mod fix;
pub mod geom;
pub mod mouse;
pub mod touch;
