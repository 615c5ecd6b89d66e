//! Platform detection: SoC model, hardware capabilities, acceleration engines.
pub mod accelerator;
pub mod ethtool;
pub mod hardware;
pub mod soc;
pub mod system;

pub use accelerator::AccelerationStatus;
pub use hardware::HardwareInfo;
pub use soc::SocModel;
