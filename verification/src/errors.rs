//! The error taxonomy of the gateway, and its mapping onto HTTP status
//! codes and response bodies.

use vstd::prelude::*;

verus! {

use vstd::string::StringExecFns;

/// Everything that terminates a request early.
#[derive(Debug)]
pub enum ServerError {
    /// Malformed envelope, bad tool arguments, or no way to pick an agent.
    BadRequest { why: String },
    /// An invariant violation: unknown agent, unknown tool.
    LogicError(String),
    /// Inbound JSON did not have the expected shape.
    Deserialization(String),
    /// An outbound value could not be serialized.
    Serialization(String),
    /// An upstream replied with a non-2xx status.
    Upstream { host: String, path: String, status: String, body: String },
    /// The transport could not start the outbound call.
    HttpDispatch(String),
    /// The request held no usable messages.
    NoMessagesFound { why: String },
    /// An outbound call exceeded its deadline.
    Timeout,
}

/// The HTTP status each error maps to when no caller overrides it.
pub open spec fn spec_status_of(e: ServerError) -> u16 {
    match e {
        ServerError::BadRequest { .. } => 400,
        ServerError::LogicError(_) => 500,
        ServerError::Deserialization(_) => 400,
        ServerError::Serialization(_) => 500,
        ServerError::Upstream { .. } => 502,
        ServerError::HttpDispatch(_) => 500,
        ServerError::NoMessagesFound { .. } => 400,
        ServerError::Timeout => 504,
    }
}

impl ServerError {
    /// The HTTP status this error maps to when no caller overrides it.
    pub fn status(&self) -> (r: u16)
        ensures
            r == spec_status_of(*self),
    {
        match self {
            ServerError::BadRequest { .. } => 400,
            ServerError::LogicError(_) => 500,
            ServerError::Deserialization(_) => 400,
            ServerError::Serialization(_) => 500,
            ServerError::Upstream { .. } => 502,
            ServerError::HttpDispatch(_) => 500,
            ServerError::NoMessagesFound { .. } => 400,
            ServerError::Timeout => 504,
        }
    }

    /// The response body for this error.
    pub fn message(&self) -> (r: String)
        ensures
            r@ == spec_message_of(*self),
    {
        match self {
            ServerError::BadRequest { why } => {
                let mut m = String::from_str("bad request: ");
                m.append(why.as_str());
                proof {
                    assert(m@ =~= "bad request: "@ + why@);
                }
                m
            },
            ServerError::LogicError(why) => {
                let mut m = String::from_str("logic error: ");
                m.append(why.as_str());
                proof {
                    assert(m@ =~= "logic error: "@ + why@);
                }
                m
            },
            ServerError::Deserialization(why) => {
                let mut m = String::from_str("deserialization error: ");
                m.append(why.as_str());
                proof {
                    assert(m@ =~= "deserialization error: "@ + why@);
                }
                m
            },
            ServerError::Serialization(why) => {
                let mut m = String::from_str("serialization error: ");
                m.append(why.as_str());
                proof {
                    assert(m@ =~= "serialization error: "@ + why@);
                }
                m
            },
            ServerError::Upstream { host, path, status, body } => {
                let mut m = String::from_str("upstream application error host=");
                m.append(host.as_str());
                m.append(" path=");
                m.append(path.as_str());
                m.append(" status=");
                m.append(status.as_str());
                m.append(" body=");
                m.append(body.as_str());
                proof {
                    assert(m@ =~= "upstream application error host="@ + host@ + " path="@ + path@
                        + " status="@ + status@ + " body="@ + body@);
                }
                m
            },
            ServerError::HttpDispatch(why) => {
                let mut m = String::from_str("http dispatch error: ");
                m.append(why.as_str());
                proof {
                    assert(m@ =~= "http dispatch error: "@ + why@);
                }
                m
            },
            ServerError::NoMessagesFound { why } => {
                let mut m = String::from_str("no messages found: ");
                m.append(why.as_str());
                proof {
                    assert(m@ =~= "no messages found: "@ + why@);
                }
                m
            },
            ServerError::Timeout => String::from_str("upstream call timed out"),
        }
    }
}

/// The response body text of each error.
pub open spec fn spec_message_of(e: ServerError) -> Seq<char> {
    match e {
        ServerError::BadRequest { why } => "bad request: "@ + why@,
        ServerError::LogicError(why) => "logic error: "@ + why@,
        ServerError::Deserialization(why) => "deserialization error: "@ + why@,
        ServerError::Serialization(why) => "serialization error: "@ + why@,
        ServerError::Upstream { host, path, status, body } => "upstream application error host="@
            + host@ + " path="@ + path@ + " status="@ + status@ + " body="@ + body@,
        ServerError::HttpDispatch(why) => "http dispatch error: "@ + why@,
        ServerError::NoMessagesFound { why } => "no messages found: "@ + why@,
        ServerError::Timeout => "upstream call timed out"@,
    }
}

} // verus!
