//! Core of a small file-sharing chat server: the wire codec that frames
//! protocol messages, the command grammar, the registry of connected users
//! and their pending share requests, and the per-connection session state
//! machine that ties them together.
pub mod codec;
pub mod grammar;
pub mod registry;
pub mod session;
pub mod text;
pub mod username;

pub use codec::Decoded;
pub use codec::ProtocolError;
pub use codec::Transmission;
pub use codec::decode;
pub use codec::encode;
pub use grammar::Command;
pub use grammar::parse;
pub use registry::ClientRecord;
pub use registry::Registry;
pub use registry::RegistryError;
pub use registry::ShareRequest;
pub use session::Reply;
pub use session::SessionState;
pub use session::handle_command;
pub use session::session_step;
pub use text::u64_to_dec;
pub use username::valid_username;
pub use username::validate_username;
