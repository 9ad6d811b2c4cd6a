//! Long messages: splitting into segments with a user data header, and merging them again.

pub mod cache;
pub mod frame;
pub mod merge;
pub mod reference_id;
pub mod segment_bitmap;
pub mod split;
