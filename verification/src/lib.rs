//! Eternal Terminal
//!
//! A remote shell whose session survives the loss of its connection: cryptography, packets,
//! connections that recover, port forwarding and terminal sessions. The library does no I/O: its
//! parts say what is to be read, written, opened and closed, and are told what came of it.
use vstd::prelude::*;

pub mod backed_reader;
pub mod backed_writer;
pub mod client_connection;
pub mod connection;
pub mod console;
pub mod crypto;
pub mod decimal;
pub mod error;
pub mod history;
pub mod logging;
pub mod nonce;
pub mod packet;
pub mod port_forward;
pub mod proto;
pub mod pty;
pub mod relay;
pub mod server_connection;
pub mod session;
pub mod socket;
pub mod ssh_setup;
pub mod table;
pub mod tcp;
pub mod terminal_client;
pub mod terminal_info;
pub mod terminal_server;
pub mod text;
pub mod user_terminal_handler;
pub mod wire;

pub use backed_reader::BackedReader;
pub use backed_writer::BackedWriter;
pub use client_connection::ClientConnection;
pub use connection::Connection;
pub use console::PseudoTerminalConsole;
pub use crypto::CryptoHandler;
pub use error::Error;
pub use packet::Packet;
pub use port_forward::PortForwardHandler;
pub use pty::PseudoUserTerminal;
pub use server_connection::ServerConnection;
pub use terminal_client::TerminalClient;
pub use terminal_info::TerminalInfo;
pub use terminal_server::TerminalServer;
pub use user_terminal_handler::UserTerminalHandler;

verus! {

/// Protocol version for compatibility checking
pub const PROTOCOL_VERSION: i32 = 6;

/// Default port for ET server
pub const DEFAULT_PORT: u16 = 2022;

/// Stands for a file descriptor where there is no socket
pub const NO_SOCKET: i32 = -1;

} // verus!
