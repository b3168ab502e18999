//! Value types that cross the boundary between two builds of the library.

pub mod boxed;
pub mod str;
pub mod time;
