//! Sends books to a wristband reader: splits them into chapters and chunks,
//! speaks the transfer protocol and keeps the state of the plugin's window.
pub mod base64;
pub mod chapter_laws;
pub mod chapters;
pub mod click_laws;
pub mod display;
pub mod element;
pub mod heading_laws;
pub mod headings;
pub mod inbound;
pub mod json;
pub mod laws;
pub mod message_laws;
pub mod protocol;
pub mod queries;
pub mod query_laws;
pub mod report_laws;
pub mod session;
pub mod setting_laws;
pub mod settings;
pub mod state;
pub mod state_laws;
pub mod text;
pub mod text_laws;
pub mod transfer;
pub mod transfer_laws;
pub mod ui;
pub mod view;
pub mod window_laws;
