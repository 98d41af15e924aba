//! The browser that the model drives: commands and their outcomes, tabs, what the network did, and
//! the protocol underneath.
pub mod acting;
pub mod answer;
pub mod byte_laws;
pub mod bytes;
pub mod calls;
pub mod cdp;
pub mod cdp_laws;
pub mod command;
pub mod deed_laws;
pub mod engine;
pub mod inspect;
pub mod inspect_laws;
pub mod launch;
pub mod launch_laws;
pub mod lifecycle;
pub mod manager;
pub mod network;
pub mod network_laws;
pub mod page;
pub mod page_laws;
pub mod recon;
pub mod recon_laws;
pub mod remote;
pub mod replies;
pub mod reply_laws;
pub mod script_laws;
pub mod scripts;
pub mod steps;
pub mod tab_laws;
pub mod tabs;
pub mod target;
pub mod target_laws;
pub mod traffic;
pub mod traffic_laws;
