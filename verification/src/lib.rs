pub mod tailscale;
pub mod text;
pub mod peers;
pub mod ping_log;
pub mod app;
pub mod ui;
pub mod laws;
pub mod order;
