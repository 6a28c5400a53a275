//! What `mox` decides and computes: settings, the commands for a Proxmox node and their answers,
//! the dashboard, the setup and the reports. Input and output are left to the program around it.
pub mod config;
pub mod dashboard;
pub mod dashboard_laws;
pub mod encode;
pub mod fetch;
pub mod init;
pub mod layout;
pub mod model;
pub mod node;
pub mod number;
pub mod report;
pub mod round_trip;
pub mod screen;
pub mod setup;
pub mod sshconfig;
pub mod text;
