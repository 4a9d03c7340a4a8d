//! Conversion between the unified console-save container and the per-device
//! save files it aggregates.

pub mod byte_swap;
pub mod controller_pack;
pub mod convert;
pub mod copy;
pub mod create;
pub mod layout;
pub mod round_trip;
pub mod segment;
pub mod split;
pub mod srm_buf;
