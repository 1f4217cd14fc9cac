//! One module per supported device.

pub mod launch_control_xl_mk2;
pub mod launchpad_mini_mk3;
