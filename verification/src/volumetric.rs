pub mod block_volume;
pub mod dims;
pub mod parse;
