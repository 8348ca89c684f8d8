//! Values and errors exchanged with a resilience store (a key-value backend
//! such as Redis that holds counters and flags and runs Lua scripts).

use vstd::prelude::*;
use vstd::string::*;
use vstd::utf8::*;

verus! {

/// Error type returned by resilience store implementations.
#[derive(Debug, Clone)]
pub struct ResilienceError {
    message: String,
}

impl ResilienceError {
    /// The text carried by the error.
    pub closed spec fn spec_message(&self) -> Seq<char> {
        self.message@
    }

    /// Create a new `ResilienceError` with a message.
    pub fn new(message: String) -> (r: Self)
        ensures
            r.spec_message() == message@,
    {
        ResilienceError { message }
    }

    /// The error's text, as its `Display` form prints it.
    pub fn to_display_string(&self) -> (r: String)
        ensures
            r@ == self.spec_message(),
    {
        self.message.clone()
    }
}

/// Lua script return values supported by resilience stores.
#[derive(Debug)]
pub enum LuaValue {
    Nil,
    Integer(i64),
    Bytes(Vec<u8>),
    Array(Vec<LuaValue>),
    Status(String),
    /// The plain `OK` status reply.
    Okay,
}

/// Decodes `bytes` as UTF-8 text.
///
/// Calls `std::str::from_utf8`; the contract states what its documentation
/// says: it succeeds exactly on valid UTF-8, and then yields the decoded text.
#[verifier::external_body]
fn utf8_text(bytes: &[u8]) -> (r: Option<&str>)
    ensures
        r is Some <==> valid_utf8(bytes@),
        r matches Some(s) ==> s@ == decode_utf8(bytes@),
{
    std::str::from_utf8(bytes).ok()
}

impl LuaValue {
    /// Return an `i64` if the value is an integer.
    pub fn as_i64(&self) -> (r: Option<i64>)
        ensures
            r == (match *self {
                LuaValue::Integer(v) => Some(v),
                _ => None::<i64>,
            }),
    {
        match self {
            LuaValue::Integer(value) => Some(*value),
            _ => None,
        }
    }

    /// Return the bytes when the variant holds raw bytes.
    pub fn as_bytes(&self) -> (r: Option<&[u8]>)
        ensures
            r is Some <==> self is Bytes,
            r matches Some(b) ==> b@ == self->Bytes_0@,
    {
        match self {
            LuaValue::Bytes(value) => Some(value.as_slice()),
            _ => None,
        }
    }

    /// Return the text when the value holds UTF-8 bytes.
    pub fn as_str(&self) -> (r: Option<&str>)
        ensures
            r is Some <==> (self is Bytes && valid_utf8(self->Bytes_0@)),
            r matches Some(s) ==> s@ == decode_utf8(self->Bytes_0@),
    {
        match self.as_bytes() {
            Some(bytes) => utf8_text(bytes),
            None => None,
        }
    }
}

} // verus!
