//! The panels of the application, one module each.

pub mod connect_tab;
pub mod devices_tab;
pub mod file_manager_tab;
pub mod reverse_tcp_tab;

pub use connect_tab::ConnectTab;
pub use devices_tab::Device;
pub use devices_tab::DevicesTab;
pub use file_manager_tab::FileManagerTab;
pub use reverse_tcp_tab::ReverseTcpTab;
