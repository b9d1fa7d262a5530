//! Error types of the messenger and the text each one prints.
use vstd::prelude::*;
use crate::numfmt::{dec_repr, push_dec};
use crate::text::push_str;

verus! {

#[verifier::external_type_specification]
#[verifier::external_body]
pub struct ExIoError(std::io::Error);

/// `<std::io::Error as ToString>::to_string`. What it prints depends on the
/// operating system's message for the error, so nothing is stated of it.
#[verifier::external_body]
fn io_error_text(e: &std::io::Error) -> String {
    e.to_string()
}

/// Errors of the network layer.
#[derive(Debug, PartialEq, Eq, Clone)]
pub enum NetworkError {
    BindFailed(String),
    SendTimeout,
    ConnectionRefused(String),
    Other(String),
}

/// Errors in reading an IPMsg packet.
#[derive(Debug, PartialEq, Eq, Clone)]
pub enum ProtocolError {
    TooFewFields(usize),
    InvalidPacketNo(String),
    InvalidCommand(String),
    DecodeError(String),
}

/// Any error of the messenger.
#[derive(Debug)]
pub enum AppError {
    Network(NetworkError),
    Protocol(ProtocolError),
    Io(std::io::Error),
    Other(String),
}

/// The abstract value of a protocol error.
pub enum ProtocolErrorModel {
    TooFewFields(nat),
    InvalidPacketNo(Seq<char>),
    InvalidCommand(Seq<char>),
    DecodeError(Seq<char>),
}

impl View for ProtocolError {
    type V = ProtocolErrorModel;

    open spec fn view(&self) -> ProtocolErrorModel {
        match self {
            ProtocolError::TooFewFields(n) => ProtocolErrorModel::TooFewFields(*n as nat),
            ProtocolError::InvalidPacketNo(s) => ProtocolErrorModel::InvalidPacketNo(s@),
            ProtocolError::InvalidCommand(s) => ProtocolErrorModel::InvalidCommand(s@),
            ProtocolError::DecodeError(s) => ProtocolErrorModel::DecodeError(s@),
        }
    }
}

pub open spec fn network_error_text(e: NetworkError) -> Seq<char> {
    match e {
        NetworkError::BindFailed(s) => "bind failed: "@ + s@,
        NetworkError::SendTimeout => "send timeout"@,
        NetworkError::ConnectionRefused(s) => "connection refused: "@ + s@,
        NetworkError::Other(s) => s@,
    }
}

pub open spec fn protocol_error_text(e: ProtocolErrorModel) -> Seq<char> {
    match e {
        ProtocolErrorModel::TooFewFields(n) => "packet has too few fields (expected at least 5, got "@
            + dec_repr(n) + ")"@,
        ProtocolErrorModel::InvalidPacketNo(s) => "failed to parse packet number: "@ + s,
        ProtocolErrorModel::InvalidCommand(s) => "failed to parse command: "@ + s,
        ProtocolErrorModel::DecodeError(s) => "failed to decode text content: "@ + s,
    }
}

impl NetworkError {
    /// The text that the error prints.
    pub fn message(&self) -> (res: String)
        ensures
            res@ == network_error_text(*self),
    {
        let mut out = String::new();
        match self {
            NetworkError::BindFailed(s) => {
                push_str(&mut out, "bind failed: ");
                push_str(&mut out, s.as_str());
            },
            NetworkError::SendTimeout => {
                push_str(&mut out, "send timeout");
            },
            NetworkError::ConnectionRefused(s) => {
                push_str(&mut out, "connection refused: ");
                push_str(&mut out, s.as_str());
            },
            NetworkError::Other(s) => {
                push_str(&mut out, s.as_str());
            },
        }
        proof {
            reveal_strlit("bind failed: ");
            reveal_strlit("send timeout");
            reveal_strlit("connection refused: ");
        }
        assert(out@ =~= network_error_text(*self));
        out
    }
}

impl ProtocolError {
    /// The text that the error prints.
    pub fn message(&self) -> (res: String)
        ensures
            res@ == protocol_error_text(self@),
    {
        let mut out = String::new();
        match self {
            ProtocolError::TooFewFields(n) => {
                push_str(&mut out, "packet has too few fields (expected at least 5, got ");
                push_dec(&mut out, *n as u64);
                push_str(&mut out, ")");
            },
            ProtocolError::InvalidPacketNo(s) => {
                push_str(&mut out, "failed to parse packet number: ");
                push_str(&mut out, s.as_str());
            },
            ProtocolError::InvalidCommand(s) => {
                push_str(&mut out, "failed to parse command: ");
                push_str(&mut out, s.as_str());
            },
            ProtocolError::DecodeError(s) => {
                push_str(&mut out, "failed to decode text content: ");
                push_str(&mut out, s.as_str());
            },
        }
        assert(out@ =~= protocol_error_text(self@));
        out
    }
}

impl AppError {
    /// The text that the error prints. For `Io` it is the text of the
    /// underlying I/O error, which the operating system supplies.
    pub fn message(&self) -> (res: String)
        ensures
            self matches AppError::Network(e) ==> res@ == "network error: "@ + network_error_text(
                *e,
            ),
            self matches AppError::Protocol(e) ==> res@ == "protocol error: "@
                + protocol_error_text((*e)@),
            self matches AppError::Other(s) ==> res@ == s@,
            self matches AppError::Io(_) ==> res@.len() >= "io error: "@.len()
                && res@.take("io error: "@.len() as int) == "io error: "@,
    {
        let mut out = String::new();
        match self {
            AppError::Network(e) => {
                push_str(&mut out, "network error: ");
                let m = e.message();
                push_str(&mut out, m.as_str());
            },
            AppError::Protocol(e) => {
                push_str(&mut out, "protocol error: ");
                let m = e.message();
                push_str(&mut out, m.as_str());
            },
            AppError::Io(e) => {
                push_str(&mut out, "io error: ");
                let m = io_error_text(e);
                push_str(&mut out, m.as_str());
            },
            AppError::Other(s) => {
                push_str(&mut out, s.as_str());
            },
        }
        assert(out@ =~= out@);
        proof {
            if self is Io {
                assert(out@.take("io error: "@.len() as int) =~= "io error: "@);
            }
        }
        out
    }
}

impl From<NetworkError> for AppError {
    fn from(e: NetworkError) -> (res: AppError)
        ensures
            res == AppError::Network(e),
    {
        AppError::Network(e)
    }
}

impl vstd::std_specs::convert::FromSpecImpl<NetworkError> for AppError {
    open spec fn obeys_from_spec() -> bool {
        true
    }

    open spec fn from_spec(e: NetworkError) -> AppError {
        AppError::Network(e)
    }
}

impl From<ProtocolError> for AppError {
    fn from(e: ProtocolError) -> (res: AppError)
        ensures
            res == AppError::Protocol(e),
    {
        AppError::Protocol(e)
    }
}

impl vstd::std_specs::convert::FromSpecImpl<ProtocolError> for AppError {
    open spec fn obeys_from_spec() -> bool {
        true
    }

    open spec fn from_spec(e: ProtocolError) -> AppError {
        AppError::Protocol(e)
    }
}

impl From<std::io::Error> for AppError {
    fn from(e: std::io::Error) -> (res: AppError)
        ensures
            res == AppError::Io(e),
    {
        AppError::Io(e)
    }
}

impl vstd::std_specs::convert::FromSpecImpl<std::io::Error> for AppError {
    open spec fn obeys_from_spec() -> bool {
        true
    }

    open spec fn from_spec(e: std::io::Error) -> AppError {
        AppError::Io(e)
    }
}

impl From<String> for AppError {
    fn from(s: String) -> (res: AppError)
        ensures
            res == AppError::Other(s),
    {
        AppError::Other(s)
    }
}

impl vstd::std_specs::convert::FromSpecImpl<String> for AppError {
    open spec fn obeys_from_spec() -> bool {
        true
    }

    open spec fn from_spec(s: String) -> AppError {
        AppError::Other(s)
    }
}

impl From<String> for NetworkError {
    fn from(s: String) -> (res: NetworkError)
        ensures
            res == NetworkError::Other(s),
    {
        NetworkError::Other(s)
    }
}

impl vstd::std_specs::convert::FromSpecImpl<String> for NetworkError {
    open spec fn obeys_from_spec() -> bool {
        true
    }

    open spec fn from_spec(s: String) -> NetworkError {
        NetworkError::Other(s)
    }
}

impl<'a> vstd::std_specs::convert::FromSpecImpl<&'a str> for AppError {
    open spec fn obeys_from_spec() -> bool {
        false
    }

    open spec fn from_spec(s: &'a str) -> AppError {
        AppError::Other(arbitrary())
    }
}

impl<'a> From<&'a str> for AppError {
    fn from(s: &'a str) -> (res: AppError)
        ensures
            res matches AppError::Other(t) && t@ == s@,
    {
        AppError::Other(String::from_str(s))
    }
}

impl<'a> vstd::std_specs::convert::FromSpecImpl<&'a str> for NetworkError {
    open spec fn obeys_from_spec() -> bool {
        false
    }

    open spec fn from_spec(s: &'a str) -> NetworkError {
        NetworkError::Other(arbitrary())
    }
}

impl<'a> From<&'a str> for NetworkError {
    fn from(s: &'a str) -> (res: NetworkError)
        ensures
            res matches NetworkError::Other(t) && t@ == s@,
    {
        NetworkError::Other(String::from_str(s))
    }
}

} // verus!
