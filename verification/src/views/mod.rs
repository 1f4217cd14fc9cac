//! Views that paint the model onto a device.

pub mod lpm3_matrix;
