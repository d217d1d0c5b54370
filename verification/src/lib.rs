//! Colour-evidence fixtures for a managed video pipeline.

pub mod chart;
pub mod containment;
pub mod cube;
pub mod declared;
pub mod delivery;
pub mod delivery_lane;
pub mod delivery_source;
pub mod effect;
pub mod evidence;
pub mod grade;
pub mod grade_buffer;
pub mod inventory;
pub mod log_inverse;
pub mod manifest;
pub mod matte;
pub mod naming;
pub mod numbers;
pub mod parity;
pub mod performance;
pub mod preconditions;
pub mod proposal;
pub mod qc_raster;
pub mod raster;
pub mod recipes;
pub mod scene;
pub mod secondary;
pub mod stacks;
pub mod starved;
pub mod subject;
pub mod sweep;
pub mod tally;
pub mod text;
pub mod thresholds;
pub mod tracking;
pub mod workflow_lane;
