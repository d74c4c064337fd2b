//! Integer core of a block-structured volume raycaster: the messages that
//! renderer threads exchange, the binary headers of the supported volume
//! files, and the layout of a voxel grid cut into overlapping blocks.

pub mod messages;
pub mod volumetric;
