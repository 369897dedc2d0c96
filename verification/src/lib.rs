//! Usage-widget core: cookie-store parsing and decryption, request
//! building, command-line parsing and the widget's display rules.

pub mod api;
pub mod cli;
pub mod config;
pub mod cookies;
pub mod desktop;
pub mod oauth;
pub mod text;
pub mod widget;
