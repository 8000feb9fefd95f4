//! Client-side logic of a GlobalProtect VPN tray application: portal
//! bookkeeping, the connection state machine of the VPN client, the reading
//! of the authentication helper's output and the decisions of the tray menu.

pub mod auth_manager;
pub mod auto_connect;
pub mod config;
pub mod portal_manager;
pub mod tray;
pub mod vpn_client;

pub use auth_manager::AuthManager;
pub use auto_connect::AutoConnectManager;
pub use config::Config;
pub use portal_manager::{Portal, PortalManager};
pub use tray::{handle_tray_event, TrayAction, TrayEvent};
pub use vpn_client::{VpnClient, VpnStatus};
