//! A small library behind a one-shot TCP/HTTP request tool: it parses a
//! target address, normalizes escape sequences in request content, frames an
//! HTTP request, and decides how a response is rendered or saved.

pub mod address;
pub mod content;
pub mod http;
pub mod response;
pub mod text;
