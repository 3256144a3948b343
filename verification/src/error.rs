//! The two closed sets of failures: enumerating formats, and creating a voice.

use vstd::prelude::*;

verus! {

/// Error that can happen when enumerating the list of supported formats.
#[derive(Debug, Clone, Copy, PartialEq, Eq, Structural)]
pub enum FormatsEnumerationError {
    /// The device no longer exists. This can happen if the device is
    /// disconnected while the program is running.
    DeviceNotAvailable,
}

/// Error that can happen when creating a `Voice`.
#[derive(Debug, Clone, Copy, PartialEq, Eq, Structural)]
pub enum CreationError {
    /// The device no longer exists. This can happen if the device is
    /// disconnected while the program is running.
    DeviceNotAvailable,
    /// The required format is not supported.
    FormatNotSupported,
}

impl FormatsEnumerationError {
    /// The sentence that `description` returns for this error.
    pub open spec fn text(self) -> Seq<char> {
        match self {
            FormatsEnumerationError::DeviceNotAvailable =>
                "The requested device is no longer available (for example, it has been unplugged)."@,
        }
    }

    /// A sentence for the person in front of the program.
    pub fn description(&self) -> (text: &'static str)
        ensures
            text@ == self.text(),
    {
        match self {
            FormatsEnumerationError::DeviceNotAvailable => {
                "The requested device is no longer available (for example, it has been unplugged)."
            },
        }
    }
}

impl CreationError {
    /// The sentence that `description` returns for this error.
    pub open spec fn text(self) -> Seq<char> {
        match self {
            CreationError::DeviceNotAvailable =>
                "The requested device is no longer available (for example, it has been unplugged)."@,
            CreationError::FormatNotSupported =>
                "The requested samples format is not supported by the device."@,
        }
    }

    /// A sentence for the person in front of the program.
    pub fn description(&self) -> (text: &'static str)
        ensures
            text@ == self.text(),
    {
        match self {
            CreationError::DeviceNotAvailable => {
                "The requested device is no longer available (for example, it has been unplugged)."
            },
            CreationError::FormatNotSupported => {
                "The requested samples format is not supported by the device."
            },
        }
    }
}

} // verus!
