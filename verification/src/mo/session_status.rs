use crate::errors::Error;
use vstd::prelude::*;

verus! {

/// The outcome of a mobile-originated session, a closed enumeration:
/// a status byte outside this set is rejected when a header is decoded.
#[derive(Clone, Copy, Debug, PartialEq, Eq)]
pub enum SessionStatus {
    /// The session completed successfully.
    Success,
    /// The session completed, but the queued mobile-terminated message was
    /// too large to deliver.
    OkMobileTerminatedTooLarge,
    /// The session completed, but the reported location was of unacceptable
    /// quality.
    OkLocationUnacceptableQuality,
    /// The session timed out before completion.
    Timeout,
    /// The mobile-originated payload was too large.
    MobileOriginatedTooLarge,
    /// The radio frequency link was lost during the session.
    RfLinkLoss,
    /// The device violated the link protocol.
    ImeiProtocolAnomaly,
    /// The device is prohibited from accessing the gateway.
    Prohibited,
}

/// The wire code of each session status.
pub open spec fn session_status_code(s: SessionStatus) -> u8 {
    match s {
        SessionStatus::Success => 0,
        SessionStatus::OkMobileTerminatedTooLarge => 1,
        SessionStatus::OkLocationUnacceptableQuality => 2,
        SessionStatus::Timeout => 10,
        SessionStatus::MobileOriginatedTooLarge => 12,
        SessionStatus::RfLinkLoss => 13,
        SessionStatus::ImeiProtocolAnomaly => 14,
        SessionStatus::Prohibited => 15,
    }
}

/// The session status a wire code stands for, if any.
pub open spec fn session_status_of_code(n: u8) -> Option<SessionStatus> {
    if n == 0 {
        Some(SessionStatus::Success)
    } else if n == 1 {
        Some(SessionStatus::OkMobileTerminatedTooLarge)
    } else if n == 2 {
        Some(SessionStatus::OkLocationUnacceptableQuality)
    } else if n == 10 {
        Some(SessionStatus::Timeout)
    } else if n == 12 {
        Some(SessionStatus::MobileOriginatedTooLarge)
    } else if n == 13 {
        Some(SessionStatus::RfLinkLoss)
    } else if n == 14 {
        Some(SessionStatus::ImeiProtocolAnomaly)
    } else if n == 15 {
        Some(SessionStatus::Prohibited)
    } else {
        None
    }
}

/// Decoding a status's own wire code gives the status back.
pub proof fn lemma_session_status_roundtrip(s: SessionStatus)
    ensures
        session_status_of_code(session_status_code(s)) == Some(s),
{
}

impl SessionStatus {
    /// Validates a status byte against the closed enumeration.
    pub fn new(n: u8) -> (r: Result<SessionStatus, Error>)
        ensures
            match session_status_of_code(n) {
                Some(s) => r == Ok::<SessionStatus, Error>(s),
                None => r == Err::<SessionStatus, Error>(Error::UnknownSessionStatus(n)),
            },
    {
        if n == 0 {
            Ok(SessionStatus::Success)
        } else if n == 1 {
            Ok(SessionStatus::OkMobileTerminatedTooLarge)
        } else if n == 2 {
            Ok(SessionStatus::OkLocationUnacceptableQuality)
        } else if n == 10 {
            Ok(SessionStatus::Timeout)
        } else if n == 12 {
            Ok(SessionStatus::MobileOriginatedTooLarge)
        } else if n == 13 {
            Ok(SessionStatus::RfLinkLoss)
        } else if n == 14 {
            Ok(SessionStatus::ImeiProtocolAnomaly)
        } else if n == 15 {
            Ok(SessionStatus::Prohibited)
        } else {
            Err(Error::UnknownSessionStatus(n))
        }
    }

    /// The status's wire code.
    pub fn as_u8(&self) -> (r: u8)
        ensures
            r == session_status_code(*self),
    {
        match self {
            SessionStatus::Success => 0,
            SessionStatus::OkMobileTerminatedTooLarge => 1,
            SessionStatus::OkLocationUnacceptableQuality => 2,
            SessionStatus::Timeout => 10,
            SessionStatus::MobileOriginatedTooLarge => 12,
            SessionStatus::RfLinkLoss => 13,
            SessionStatus::ImeiProtocolAnomaly => 14,
            SessionStatus::Prohibited => 15,
        }
    }
}

} // verus!
