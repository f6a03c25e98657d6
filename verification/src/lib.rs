//! Verified core of a set of small web, chat, WebRTC and graphics programs.

pub mod bezier;
pub mod chat_server;
pub mod chat_session;
pub mod date_capture;
pub mod request_counter;
pub mod webrtc_model;
