//! Plans and checks for keeping an App Store Connect account in step with a
//! configuration file.

pub mod text;
pub mod text_laws;
pub mod markup;
pub mod ordered;
pub mod ranked;
pub mod scope;
pub mod json;
pub mod config;
pub mod cli;
pub mod config_edit;
pub mod init_cmd;
pub mod api;
pub mod asc;
pub mod transport;
pub mod values;
pub mod paths;
pub mod archive;
pub mod seal;
pub mod bundle;
pub mod build_settings;
pub mod signing;
pub mod auth;
pub mod device;
pub mod media_render;
pub mod state;
pub mod sync;
pub mod app_store;
