use vstd::prelude::*;

verus! {

/// Failures of the control plane, by category. Each carries a human readable
/// detail.
#[derive(Debug, PartialEq, Eq)]
pub enum HardwareError {
    /// An unknown servo, controller, file, session or directory.
    NotFound(String),
    /// Bus or device setup failed.
    InitializationError(String),
    /// A write to a board failed.
    CommunicationError(String),
    /// An angle out of range, an invalid channel or a malformed bus address.
    InvalidParameter(String),
    /// Reserved for a device that is busy.
    Busy(String),
    /// Reserved for a device in a state that does not allow the operation.
    InvalidState(String),
    /// Reserved for an operation that took too long.
    Timeout(String),
    /// A filesystem failure.
    IoError(String),
    /// Any other failure, such as a playback process that could not start.
    Other(String),
}

impl Clone for HardwareError {
    fn clone(&self) -> (r: Self)
        ensures
            r == *self,
    {
        match self {
            HardwareError::NotFound(s) => HardwareError::NotFound(s.clone()),
            HardwareError::InitializationError(s) => HardwareError::InitializationError(s.clone()),
            HardwareError::CommunicationError(s) => HardwareError::CommunicationError(s.clone()),
            HardwareError::InvalidParameter(s) => HardwareError::InvalidParameter(s.clone()),
            HardwareError::Busy(s) => HardwareError::Busy(s.clone()),
            HardwareError::InvalidState(s) => HardwareError::InvalidState(s.clone()),
            HardwareError::Timeout(s) => HardwareError::Timeout(s.clone()),
            HardwareError::IoError(s) => HardwareError::IoError(s.clone()),
            HardwareError::Other(s) => HardwareError::Other(s.clone()),
        }
    }
}

impl HardwareError {
    /// The category's prefix of the text of this error.
    pub open spec fn spec_prefix(&self) -> Seq<char> {
        match self {
            HardwareError::NotFound(_) => "Hardware not found: "@,
            HardwareError::InitializationError(_) => "Hardware initialization failed: "@,
            HardwareError::CommunicationError(_) => "Hardware communication error: "@,
            HardwareError::InvalidParameter(_) => "Invalid parameter: "@,
            HardwareError::Busy(_) => "Hardware is busy: "@,
            HardwareError::InvalidState(_) => "Hardware is in invalid state: "@,
            HardwareError::Timeout(_) => "Operation timed out: "@,
            HardwareError::IoError(_) => "I/O error: "@,
            HardwareError::Other(_) => "Other error: "@,
        }
    }

    /// The detail that this error carries.
    pub open spec fn spec_detail(&self) -> Seq<char> {
        match self {
            HardwareError::NotFound(s) => s@,
            HardwareError::InitializationError(s) => s@,
            HardwareError::CommunicationError(s) => s@,
            HardwareError::InvalidParameter(s) => s@,
            HardwareError::Busy(s) => s@,
            HardwareError::InvalidState(s) => s@,
            HardwareError::Timeout(s) => s@,
            HardwareError::IoError(s) => s@,
            HardwareError::Other(s) => s@,
        }
    }

    /// The detail that this error carries.
    pub fn detail(&self) -> (r: &str)
        ensures
            r@ == self.spec_detail(),
    {
        match self {
            HardwareError::NotFound(s) => s.as_str(),
            HardwareError::InitializationError(s) => s.as_str(),
            HardwareError::CommunicationError(s) => s.as_str(),
            HardwareError::InvalidParameter(s) => s.as_str(),
            HardwareError::Busy(s) => s.as_str(),
            HardwareError::InvalidState(s) => s.as_str(),
            HardwareError::Timeout(s) => s.as_str(),
            HardwareError::IoError(s) => s.as_str(),
            HardwareError::Other(s) => s.as_str(),
        }
    }

    /// The full text of this error: the category's prefix and then the detail.
    pub fn message(&self) -> (r: String)
        ensures
            r@ == self.spec_prefix() + self.spec_detail(),
    {
        let prefix = match self {
            HardwareError::NotFound(_) => "Hardware not found: ",
            HardwareError::InitializationError(_) => "Hardware initialization failed: ",
            HardwareError::CommunicationError(_) => "Hardware communication error: ",
            HardwareError::InvalidParameter(_) => "Invalid parameter: ",
            HardwareError::Busy(_) => "Hardware is busy: ",
            HardwareError::InvalidState(_) => "Hardware is in invalid state: ",
            HardwareError::Timeout(_) => "Operation timed out: ",
            HardwareError::IoError(_) => "I/O error: ",
            HardwareError::Other(_) => "Other error: ",
        };
        String::from_str(prefix).concat(self.detail())
    }
}

} // verus!
