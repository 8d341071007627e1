//! The error kinds the subsystem raises, and the exact text each surfaces.
//! Startup errors are contained per server; per-call errors go to the host.

use vstd::prelude::*;

use crate::text::{dec_of, dec_of_int, i64_to_dec, push_dec_u64};
use vstd::string::StringExecFns;

verus! {

/// What went wrong, by kind.
#[derive(Debug)]
pub enum McpError {
    /// The configuration refuses the server: a missing field or an unknown
    /// transport. Carries the full message.
    Config(String),
    /// The transport could not be brought up: a spawn or client build
    /// failure, described by the text.
    TransportInit(String),
    /// The initialize handshake failed, described by the text.
    Handshake(String),
    /// The per-request deadline, in seconds, elapsed.
    Timeout(u64),
    /// The server closed its end of the connection.
    ConnectionClosed,
    /// An HTTP reply came with a non-success status; the body is kept as
    /// text.
    HttpStatus { status: u16, body: String },
    /// The server answered with a JSON-RPC error object.
    Rpc { code: i64, message: String },
    /// The tool ran and reported failure; the text is its output.
    Tool(String),
    /// A reply was missing what the protocol requires.
    Protocol(String),
}

/// The model of an error.
pub enum ErrorModel {
    Config(Seq<char>),
    TransportInit(Seq<char>),
    Handshake(Seq<char>),
    Timeout(u64),
    ConnectionClosed,
    HttpStatus { status: u16, body: Seq<char> },
    Rpc { code: i64, message: Seq<char> },
    Tool(Seq<char>),
    Protocol(Seq<char>),
}

impl View for McpError {
    type V = ErrorModel;

    open spec fn view(&self) -> ErrorModel {
        match self {
            McpError::Config(s) => ErrorModel::Config(s@),
            McpError::TransportInit(s) => ErrorModel::TransportInit(s@),
            McpError::Handshake(s) => ErrorModel::Handshake(s@),
            McpError::Timeout(n) => ErrorModel::Timeout(*n),
            McpError::ConnectionClosed => ErrorModel::ConnectionClosed,
            McpError::HttpStatus { status, body } => ErrorModel::HttpStatus {
                status: *status,
                body: body@,
            },
            McpError::Rpc { code, message } => ErrorModel::Rpc { code: *code, message: message@ },
            McpError::Tool(s) => ErrorModel::Tool(s@),
            McpError::Protocol(s) => ErrorModel::Protocol(s@),
        }
    }
}

/// The text an error surfaces to the host.
pub open spec fn message_of(e: ErrorModel) -> Seq<char> {
    match e {
        ErrorModel::Config(s) => s,
        ErrorModel::TransportInit(s) => s,
        ErrorModel::Handshake(s) => s,
        ErrorModel::Timeout(n) => "MCP server response timeout ("@ + dec_of(n as nat) + "s)"@,
        ErrorModel::ConnectionClosed => "MCP server closed connection"@,
        ErrorModel::HttpStatus { status, body } => "HTTP MCP request failed with "@ + dec_of(
            status as nat,
        ) + ": "@ + body,
        ErrorModel::Rpc { code, message } => "MCP error ("@ + dec_of_int(code as int) + "): "@
            + message,
        ErrorModel::Tool(s) => s,
        ErrorModel::Protocol(s) => s,
    }
}

impl McpError {
    /// The text this error surfaces to the host.
    pub fn message(&self) -> (r: String)
        ensures
            r@ == message_of(self@),
    {
        match self {
            McpError::Config(s) => s.clone(),
            McpError::TransportInit(s) => s.clone(),
            McpError::Handshake(s) => s.clone(),
            McpError::Timeout(n) => {
                let mut out = String::from_str("MCP server response timeout (");
                push_dec_u64(&mut out, *n);
                out.append("s)");
                proof {
                    assert(out@ =~= message_of(self@));
                }
                out
            },
            McpError::ConnectionClosed => String::from_str("MCP server closed connection"),
            McpError::HttpStatus { status, body } => {
                let mut out = String::from_str("HTTP MCP request failed with ");
                push_dec_u64(&mut out, *status as u64);
                out.append(": ");
                out.append(body.as_str());
                proof {
                    assert(out@ =~= message_of(self@));
                }
                out
            },
            McpError::Rpc { code, message } => {
                let mut out = String::from_str("MCP error (");
                let c = i64_to_dec(*code);
                out.append(c.as_str());
                out.append("): ");
                out.append(message.as_str());
                proof {
                    assert(out@ =~= message_of(self@));
                }
                out
            },
            McpError::Tool(s) => s.clone(),
            McpError::Protocol(s) => s.clone(),
        }
    }
}


/// The message of an HTTP status failure carries the decimal status code
/// and ends with the whole body text.
pub proof fn lemma_http_status_message(status: u16, body: Seq<char>)
    ensures
        ({
            let msg = message_of(ErrorModel::HttpStatus { status, body });
            let prefix = "HTTP MCP request failed with "@;
            &&& msg.len() == prefix.len() + dec_of(status as nat).len() + 2 + body.len()
            &&& msg.subrange(
                prefix.len() as int,
                (prefix.len() + dec_of(status as nat).len()) as int,
            ) == dec_of(status as nat)
            &&& msg.subrange(msg.len() as int - body.len() as int, msg.len() as int) == body
        }),
{
    let msg = message_of(ErrorModel::HttpStatus { status, body });
    let prefix = "HTTP MCP request failed with "@;
    assert(": "@.len() == 2) by {
        reveal_strlit(": ");
    }
    assert(msg.subrange(
        prefix.len() as int,
        (prefix.len() + dec_of(status as nat).len()) as int,
    ) =~= dec_of(status as nat));
    assert(msg.subrange(msg.len() as int - body.len() as int, msg.len() as int) =~= body);
}

} // verus!
