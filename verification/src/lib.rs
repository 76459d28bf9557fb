//! A conversational session client for a browser-session-authenticated chat
//! endpoint.
//!
//! The library models the protocol core: cookie-based session bootstrap and
//! token acquisition, the request-building and conversation-state threading
//! for multi-turn exchanges, the positionally-addressed response decoder, and
//! cookie-rotation recovery. Network transport, file I/O, and the interactive
//! loop are left to a thin unverified shell around the library.

pub mod client;
pub mod decoder;
pub mod enums;
pub mod error;
pub mod json;
pub mod laws;
pub mod persist;
pub mod text;
pub mod token;
pub mod utils;

pub use client::GenerateRequest;
pub use client::Session;
pub use decoder::ChatResponse;
pub use decoder::Choice;
pub use enums::Endpoint;
pub use enums::Model;
pub use error::Error;
pub use persist::SavedConversation;
pub use utils::load_cookies;
