//! Classification of reply codes.

use vstd::prelude::*;

verus! {

/// What a three-digit reply code means to the client.
#[derive(Debug, Clone, Copy, PartialEq, Eq, Structural)]
pub enum ResponseCode {
    /// 220: the service is ready.
    ServiceReady,
    /// 250: the requested action was completed.
    Okay,
    /// 251: the user is not local, the message will be forwarded.
    UserNotLocalWillForward,
    /// 354: start of mail input.
    StartMailInput,
    /// Any code from 400 to 599: a transient or permanent failure.
    Negative,
}

/// The meaning of a code, or `None` for a code the client does not act on.
pub open spec fn classify(code: u16) -> Option<ResponseCode> {
    if code == 220 {
        Some(ResponseCode::ServiceReady)
    } else if code == 250 {
        Some(ResponseCode::Okay)
    } else if code == 251 {
        Some(ResponseCode::UserNotLocalWillForward)
    } else if code == 354 {
        Some(ResponseCode::StartMailInput)
    } else if 400 <= code <= 599 {
        Some(ResponseCode::Negative)
    } else {
        None
    }
}

impl ResponseCode {
    /// Classifies a code.  Codes that are neither named nor in the range
    /// of failures yield nothing.
    pub fn from_code(code: u16) -> (r: Option<ResponseCode>)
        ensures
            r == classify(code),
    {
        if code == 220 {
            Some(ResponseCode::ServiceReady)
        } else if code == 250 {
            Some(ResponseCode::Okay)
        } else if code == 251 {
            Some(ResponseCode::UserNotLocalWillForward)
        } else if code == 354 {
            Some(ResponseCode::StartMailInput)
        } else if 400 <= code && code <= 599 {
            Some(ResponseCode::Negative)
        } else {
            None
        }
    }

    /// Whether the reply reports a failure.
    pub fn is_negative(&self) -> (r: bool)
        ensures
            r == (*self == ResponseCode::Negative),
    {
        match self {
            ResponseCode::Negative => true,
            _ => false,
        }
    }

    /// Whether the reply accepts a recipient.
    pub fn accepts_recipient(&self) -> (r: bool)
        ensures
            r == (*self == ResponseCode::Okay || *self == ResponseCode::UserNotLocalWillForward),
    {
        match self {
            ResponseCode::Okay => true,
            ResponseCode::UserNotLocalWillForward => true,
            _ => false,
        }
    }
}

/// A classified code reports a failure exactly when its leading digit is
/// 4 or 5, and every such code is classified.
pub proof fn lemma_negative_codes(code: u16)
    ensures
        (classify(code) == Some(ResponseCode::Negative)) <==> (400 <= code <= 599),
{
}

} // verus!
