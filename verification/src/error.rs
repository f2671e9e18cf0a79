//! Error types for the ET library
use vstd::prelude::*;

use crate::decimal::{decimal, push_signed, push_unsigned, signed_decimal};

verus! {

/// What kind of failure an I/O operation met
#[derive(Debug, Clone, Copy, PartialEq, Eq, Structural)]
pub enum IoKind {
    /// The operation would have to wait
    WouldBlock,
    /// The operation was interrupted by a signal
    Interrupted,
    /// The peer reset the connection
    ConnectionReset,
    /// The operating system gave up waiting
    TimedOut,
    /// The peer has closed its reading side
    BrokenPipe,
    /// The socket is not connected
    NotConnected,
    /// The connection was aborted
    ConnectionAborted,
    /// Any other kind
    Other,
}

/// An I/O failure: its kind and the text the operating system gives for it
#[derive(Debug)]
pub struct IoError {
    /// Kind of the failure
    pub kind: IoKind,
    /// Text of the failure
    pub message: String,
}

/// The system error numbers that matter to a connection
#[derive(Debug, Clone, Copy, PartialEq, Eq, Structural)]
pub enum Errno {
    /// EAGAIN
    Again,
    /// ECONNRESET
    ConnReset,
    /// ETIMEDOUT
    TimedOut,
    /// EHOSTUNREACH
    HostUnreach,
    /// EPIPE
    Pipe,
    /// ENOTCONN
    NotConn,
    /// ECONNABORTED
    ConnAborted,
    /// EBADF
    BadF,
    /// Any other number
    Other,
}

/// A failed system call: its error number and the text for it
#[derive(Debug)]
pub struct SystemError {
    /// Error number of the call
    pub errno: Errno,
    /// Text of the failure
    pub message: String,
}

/// Main error type for the ET library
#[derive(Debug)]
pub enum Error {
    /// I/O error
    Io(IoError),
    /// Cryptography error
    Crypto(String),
    /// Protocol error
    Protocol(String),
    /// Connection error
    Connection(String),
    /// Socket error
    Socket(String),
    /// Invalid key length
    InvalidKeyLength { expected: usize, got: usize },
    /// Decryption failed
    DecryptionFailed,
    /// Invalid packet
    InvalidPacket(String),
    /// Invalid message size
    InvalidMessageSize(i64),
    /// Protobuf error
    Protobuf(String),
    /// Connection closed
    ConnectionClosed,
    /// Timeout
    Timeout,
    /// Client too far behind
    ClientTooFarBehind,
    /// Recovery error
    Recovery(String),
    /// Address resolution error
    AddressResolution(String),
    /// System error
    Nix(SystemError),
}

/// What an [`Error`] says, with every text as a sequence of characters.
pub enum ErrorView {
    Io(IoKind, Seq<char>),
    Crypto(Seq<char>),
    Protocol(Seq<char>),
    Connection(Seq<char>),
    Socket(Seq<char>),
    InvalidKeyLength { expected: usize, got: usize },
    DecryptionFailed,
    InvalidPacket(Seq<char>),
    InvalidMessageSize(i64),
    Protobuf(Seq<char>),
    ConnectionClosed,
    Timeout,
    ClientTooFarBehind,
    Recovery(Seq<char>),
    AddressResolution(Seq<char>),
    Nix(Errno, Seq<char>),
}

impl View for Error {
    type V = ErrorView;

    open spec fn view(&self) -> ErrorView {
        match *self {
            Error::Io(e) => ErrorView::Io(e.kind, e.message@),
            Error::Crypto(s) => ErrorView::Crypto(s@),
            Error::Protocol(s) => ErrorView::Protocol(s@),
            Error::Connection(s) => ErrorView::Connection(s@),
            Error::Socket(s) => ErrorView::Socket(s@),
            Error::InvalidKeyLength { expected, got } => ErrorView::InvalidKeyLength {
                expected,
                got,
            },
            Error::DecryptionFailed => ErrorView::DecryptionFailed,
            Error::InvalidPacket(s) => ErrorView::InvalidPacket(s@),
            Error::InvalidMessageSize(n) => ErrorView::InvalidMessageSize(n),
            Error::Protobuf(s) => ErrorView::Protobuf(s@),
            Error::ConnectionClosed => ErrorView::ConnectionClosed,
            Error::Timeout => ErrorView::Timeout,
            Error::ClientTooFarBehind => ErrorView::ClientTooFarBehind,
            Error::Recovery(s) => ErrorView::Recovery(s@),
            Error::AddressResolution(s) => ErrorView::AddressResolution(s@),
            Error::Nix(e) => ErrorView::Nix(e.errno, e.message@),
        }
    }
}

/// The text that describes an error to a reader.
pub open spec fn error_text(e: ErrorView) -> Seq<char> {
    match e {
        ErrorView::Io(_, s) => "I/O error: "@ + s,
        ErrorView::Crypto(s) => "Cryptography error: "@ + s,
        ErrorView::Protocol(s) => "Protocol error: "@ + s,
        ErrorView::Connection(s) => "Connection error: "@ + s,
        ErrorView::Socket(s) => "Socket error: "@ + s,
        ErrorView::InvalidKeyLength { expected, got } => "Invalid key length: expected "@ + decimal(
            expected as nat,
        ) + ", got "@ + decimal(got as nat),
        ErrorView::DecryptionFailed => "Decryption failed - possible key mismatch"@,
        ErrorView::InvalidPacket(s) => "Invalid packet: "@ + s,
        ErrorView::InvalidMessageSize(n) => "Invalid message size: "@ + signed_decimal(n as int),
        ErrorView::Protobuf(s) => "Protobuf error: "@ + s,
        ErrorView::ConnectionClosed => "Connection closed"@,
        ErrorView::Timeout => "Operation timed out"@,
        ErrorView::ClientTooFarBehind => "Client is too far behind server during recovery"@,
        ErrorView::Recovery(s) => "Recovery error: "@ + s,
        ErrorView::AddressResolution(s) => "Address resolution error: "@ + s,
        ErrorView::Nix(_, s) => "System error: "@ + s,
    }
}

fn labelled(label: &str, detail: &str) -> (r: String)
    ensures
        r@ == label@ + detail@,
{
    let mut text = label.to_owned();
    text.append(detail);
    text
}

impl Error {
    /// Describes the error in one line
    pub fn to_string(&self) -> (r: String)
        ensures
            r@ == error_text(self@),
    {
        match self {
            Error::Io(e) => labelled("I/O error: ", e.message.as_str()),
            Error::Crypto(s) => labelled("Cryptography error: ", s.as_str()),
            Error::Protocol(s) => labelled("Protocol error: ", s.as_str()),
            Error::Connection(s) => labelled("Connection error: ", s.as_str()),
            Error::Socket(s) => labelled("Socket error: ", s.as_str()),
            Error::InvalidKeyLength { expected, got } => {
                let mut text = "Invalid key length: expected ".to_owned();
                push_unsigned(&mut text, *expected as u64);
                text.append(", got ");
                push_unsigned(&mut text, *got as u64);
                text
            },
            Error::DecryptionFailed => "Decryption failed - possible key mismatch".to_owned(),
            Error::InvalidPacket(s) => labelled("Invalid packet: ", s.as_str()),
            Error::InvalidMessageSize(n) => {
                let mut text = "Invalid message size: ".to_owned();
                push_signed(&mut text, *n);
                text
            },
            Error::Protobuf(s) => labelled("Protobuf error: ", s.as_str()),
            Error::ConnectionClosed => "Connection closed".to_owned(),
            Error::Timeout => "Operation timed out".to_owned(),
            Error::ClientTooFarBehind =>
                "Client is too far behind server during recovery".to_owned(),
            Error::Recovery(s) => labelled("Recovery error: ", s.as_str()),
            Error::AddressResolution(s) => labelled("Address resolution error: ", s.as_str()),
            Error::Nix(e) => labelled("System error: ", e.message.as_str()),
        }
    }

    /// Tells whether the error says that an operation would have had to wait
    pub fn is_would_block(&self) -> (r: bool)
        ensures
            r == would_block(self@),
    {
        match self {
            Error::Io(e) => e.kind == IoKind::WouldBlock,
            _ => false,
        }
    }
}

/// Whether an error says that an operation would have had to wait.
pub open spec fn would_block(e: ErrorView) -> bool {
    e matches ErrorView::Io(kind, _) && kind == IoKind::WouldBlock
}

/// The view of a result: that of the value, or that of the error.
pub open spec fn result_view<T: View>(r: Result<T, Error>) -> Result<T::V, ErrorView> {
    match r {
        Ok(t) => Ok(t@),
        Err(e) => Err(e@),
    }
}

/// A result with the view of its error.
pub open spec fn outcome_view<T>(r: Result<T, Error>) -> Result<T, ErrorView> {
    match r {
        Ok(t) => Ok(t),
        Err(e) => Err(e@),
    }
}

/// Only an I/O error of the kind for it says that an operation would have had to wait.
pub proof fn law_only_one_kind_would_block(kind: IoKind, text: Seq<char>, other: ErrorView)
    ensures
        would_block(ErrorView::Io(kind, text)) <==> kind is WouldBlock,
        !(other is Io) ==> !would_block(other),
{
}

} // verus!
