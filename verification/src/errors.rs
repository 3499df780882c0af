//! Errors of RPC handling.
use vstd::prelude::*;
use vstd::string::*;

verus! {

/// Errors that can occur during RPC handling.
#[derive(Debug)]
pub enum RpcError {
    /// The input could not be decoded.
    Deserialization(String),
    /// The output could not be encoded.
    Serialization(String),
    /// The handler returned an error.
    Application(String),
    /// Anything else.
    Other(String),
}

/// The text of an error: a phrase naming its kind, then its message.
pub open spec fn rpc_error_text(e: RpcError) -> Seq<char> {
    match e {
        RpcError::Deserialization(m) => "Deserialization error: "@ + m@,
        RpcError::Serialization(m) => "Serialization error: "@ + m@,
        RpcError::Application(m) => "Application error: "@ + m@,
        RpcError::Other(m) => "Other error: "@ + m@,
    }
}

impl RpcError {
    /// The text of the error, as it is shown to a peer or a log.
    pub fn to_string(&self) -> (s: String)
        ensures
            s@ == rpc_error_text(*self),
    {
        match self {
            RpcError::Deserialization(m) => String::from_str("Deserialization error: ").concat(m.as_str()),
            RpcError::Serialization(m) => String::from_str("Serialization error: ").concat(m.as_str()),
            RpcError::Application(m) => String::from_str("Application error: ").concat(m.as_str()),
            RpcError::Other(m) => String::from_str("Other error: ").concat(m.as_str()),
        }
    }
}

} // verus!
