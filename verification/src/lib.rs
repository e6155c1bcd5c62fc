//! A schema-driven request/response protocol for driving a plugin process
//! over a byte stream.
//!
//! One declarative operation schema determines, positionally and
//! deterministically, the client proxy's method signatures, the service
//! interface a plugin must implement, and the dispatch table that routes
//! incoming frames to service methods. Every value that crosses the stream
//! travels as one self-delimiting frame; the codec, the generation
//! discipline, the dispatch step and the client-side reply handling are all
//! verified here. Process spawning and the pipe I/O itself live outside the
//! library: callers hand frames in and take frames out as plain byte
//! vectors.

pub mod codec;
pub mod dispatch;
pub mod error;
pub mod proxy;
pub mod schema;
pub mod value;

use vstd::prelude::*;

verus! {

} // verus!
