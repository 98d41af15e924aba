pub mod agent;
pub mod browser;
pub mod codes;
pub mod credential_laws;
pub mod credentials;
pub mod desktop;
pub mod desktop_laws;
pub mod error;
pub mod goal_laws;
pub mod history;
pub mod history_laws;
pub mod json;
pub mod json_laws;
pub mod map;
pub mod message;
pub mod path_laws;
pub mod paths;
pub mod preset;
pub mod session;
pub mod session_laws;
pub mod stream;
pub mod surface_laws;
pub mod text;
pub mod text_laws;
pub mod tool;
