//! What can go wrong in the daemon.

use vstd::prelude::*;

use crate::text::{concat2, concat4, decimal, to_decimal};

verus! {

/// An error of the daemon. A failure of input or output, or of reading JSON, is kept as what
/// it says of itself.
#[derive(Debug)]
pub enum Error {
    Io(String),
    Json(String),
    Rpc { code: i32, message: String },
    ChannelNotFound(String),
    InvalidMessage(String),
}

/// The decimal form of a signed number.
pub open spec fn signed_decimal(n: int) -> Seq<char> {
    if n < 0 {
        "-"@ + decimal((-n) as nat)
    } else {
        decimal(n as nat)
    }
}

fn signed_text(n: i32) -> (r: String)
    ensures
        r@ == signed_decimal(n as int),
{
    if n < 0 {
        concat2("-", to_decimal((-(n as i64)) as u64).as_str())
    } else {
        to_decimal(n as u64)
    }
}

impl Error {
    /// What the error says.
    pub open spec fn says(self) -> Seq<char> {
        match self {
            Error::Io(e) => "I/O error: "@ + e@,
            Error::Json(e) => "JSON error: "@ + e@,
            Error::Rpc { code, message } => "RPC error: "@ + message@ + " (code: "@
                + signed_decimal(code as int) + ")"@,
            Error::ChannelNotFound(name) => "Channel not found: "@ + name@,
            Error::InvalidMessage(what) => "Invalid message format: "@ + what@,
        }
    }

    pub fn to_text(&self) -> (r: String)
        ensures
            r@ == self.says(),
    {
        match self {
            Error::Io(e) => concat2("I/O error: ", e.as_str()),
            Error::Json(e) => concat2("JSON error: ", e.as_str()),
            Error::Rpc { code, message } => concat2(
                concat4(
                    "RPC error: ",
                    message.as_str(),
                    " (code: ",
                    signed_text(*code).as_str(),
                ).as_str(),
                ")",
            ),
            Error::ChannelNotFound(name) => concat2("Channel not found: ", name.as_str()),
            Error::InvalidMessage(what) => concat2("Invalid message format: ", what.as_str()),
        }
    }
}

/// A signed number has a sign exactly where it is negative.
pub proof fn negative_numbers_have_a_sign(n: nat)
    ensures
        signed_decimal(n as int) == decimal(n),
        n > 0 ==> signed_decimal(-n) == "-"@ + decimal(n),
{
}

/// Each error says what went wrong and where.
pub proof fn errors_say_what_went_wrong(what: String, code: i32)
    ensures
        Error::Io(what).says() == "I/O error: "@ + what@,
        Error::Json(what).says() == "JSON error: "@ + what@,
        (Error::Rpc { code, message: what }).says() == "RPC error: "@ + what@ + " (code: "@ + (
        if code < 0 {
            "-"@ + decimal((-(code as int)) as nat)
        } else {
            decimal(code as nat)
        }) + ")"@,
        Error::ChannelNotFound(what).says() == "Channel not found: "@ + what@,
        Error::InvalidMessage(what).says() == "Invalid message format: "@ + what@,
{
}

} // verus!
