//! The JSON-RPC transport layer: frame headers, encoding and decoding of
//! framed messages, and the accumulation of incoming bytes into frames.

pub mod buffer;
pub mod coding;
pub mod error;
pub mod frame;
pub mod json;
pub mod transport;
pub mod types;

pub use buffer::decode_from_buffer_rpc;
pub use coding::{frame_message, jsonrpc_decode, jsonrpc_encode, split_frame};
pub use error::{CodingError, DecodeError, EncodeError};
pub use frame::{RPC_HEADER_LEN, RPC_HEADER_PREFIX};
pub use transport::RPCMessageStream;
pub use types::{Decimal, Integer, LSPAny, LSPArray, LSPObject, UInteger};
