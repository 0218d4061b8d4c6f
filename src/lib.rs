//! The notation document model: note lengths, the flat document that a
//! notation compiler produces, and its assembly into a realized timeline of
//! bars, per-track lanes and entries with resolved positions and tied lengths.
pub mod duration;
pub mod proto;
pub mod model_entry;
pub mod lane_entry;
pub mod tab;
pub mod context;
