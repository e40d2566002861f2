//! What a call gives back: the response in a uniform envelope, or the
//! transport's failure.

use vstd::prelude::*;

verus! {

/// What a transport reports of one call.
#[derive(Clone, Debug, PartialEq, Eq)]
pub enum TransportOutcome {
    /// A response came: its status code and, where it could be read as
    /// text, its body.
    Response { status: u16, text: Option<String> },
    /// No response came.
    Failure { reason: String },
}

/// The call did not get a response.
#[derive(Clone, Debug, PartialEq, Eq)]
pub struct TransportFailure {
    pub reason: String,
}

/// The uniform result of a call that got a response: the status code and
/// the raw body text.
#[derive(Clone, Debug, PartialEq, Eq)]
pub struct ResponseEnvelope {
    pub code: u16,
    pub body: String,
}

impl ResponseEnvelope {
    /// The status is in the 2xx class.
    pub open spec fn success(self) -> bool {
        200 <= self.code < 300
    }

    /// Turns what the transport reports into the result of the call. A
    /// response of any status becomes an envelope with that status and the
    /// body text as it came, empty where it could not be read; a transport
    /// failure becomes an error with its reason.
    pub fn from(outcome: TransportOutcome) -> (result: Result<ResponseEnvelope, TransportFailure>)
        ensures
            match outcome {
                TransportOutcome::Response { status, text } => result matches Ok(envelope)
                    && envelope.code == status && envelope.body@ == (match text {
                    Some(t) => t@,
                    None => Seq::<char>::empty(),
                }),
                TransportOutcome::Failure { reason } => result matches Err(failure)
                    && failure.reason@ == reason@,
            },
    {
        match outcome {
            TransportOutcome::Response { status, text } => {
                let body = match text {
                    Some(t) => t,
                    None => String::new(),
                };
                Ok(ResponseEnvelope { code: status, body })
            },
            TransportOutcome::Failure { reason } => Err(TransportFailure { reason }),
        }
    }

    /// Tests whether the status is in the 2xx class.
    pub fn is_success(&self) -> (yes: bool)
        ensures
            yes == self.success(),
    {
        200 <= self.code && self.code < 300
    }
}

} // verus!
