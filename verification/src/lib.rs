//! The decisions of a dashboard for graphics cards: which card is used, what the driver's files
//! mean, what may be set on a card, how its fan follows a curve, how settings outlive the program
//! and what clients are told.
pub mod amd;
pub mod amd_files;
pub mod amd_laws;
pub mod config;
pub mod double;
pub mod fan_curve;
pub mod file_laws;
pub mod formula;
pub mod gpu_control;
pub mod gpu_data;
pub mod intel;
pub mod mock_data;
pub mod mock_laws;
pub mod nvidia;
pub mod server;
pub mod sysfs;
pub mod text;
pub mod text_laws;
