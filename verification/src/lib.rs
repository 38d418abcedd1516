//! Verified core of the throwing-event officiating backend: byte decoders,
//! camera assignment, frame bookkeeping and the pairing/aggregation state
//! machines that sit between the cameras and the trajectory solver.

pub mod infraction;
pub mod h265;
pub mod names;
pub mod compression;
pub mod pipeline;
pub mod trajectory;
pub mod aggregation;
pub mod camera_assignment;
pub mod recorded;
pub mod ptp;
pub mod barrier;
pub mod capture;
pub mod files;
pub mod settings;
pub mod camera_config;
pub mod replay;
pub mod raw_frames;
pub mod frame_images;
pub mod sps_check;
