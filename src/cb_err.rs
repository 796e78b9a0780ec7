//! Common error codes; negative values are errors, grouped by hundreds.

use vstd::prelude::*;

verus! {

#[derive(Debug, Clone, Copy, PartialEq, Eq, Structural)]
pub enum CbErr {
    /// Call completed successfully
    Success,
    /// Generic error code
    GenericErr,
    /// Invalid argument
    ErrArg,
    /// Function not implemented
    ErrNotImplemented,
    /// Option table disabled
    CMOSOtableDisabled,
    /// Layout file not found
    CMOSLayoutNotFound,
    /// Option string not found
    CMOSOptionNotFound,
    /// CMOS access error
    CMOSAccessError,
    /// CMOS checksum is invalid
    CMOSChecksumInvalid,
    KbdControllerFailure,
    KbdInterfaceFailure,
    /// Device is not responding
    I2CNoDevice,
    /// Device tells it is busy
    I2CBusy,
    /// Data lost or spurious slave device response
    I2CProtocolError,
    /// Transmission timed out
    I2CTimeout,
    /// Underlying I/O error
    CBFSIO,
    /// File not found in directory
    CBFSNotFound,
    /// Master hash validation failed
    CBFSHashMismatch,
    /// Metadata cache overflowed
    CBFSCacheFull,
}

impl CbErr {
    pub open spec fn spec_code(&self) -> i32 {
        match self {
            CbErr::Success => 0i32,
            CbErr::GenericErr => -1i32,
            CbErr::ErrArg => -2i32,
            CbErr::ErrNotImplemented => -3i32,
            CbErr::CMOSOtableDisabled => -100i32,
            CbErr::CMOSLayoutNotFound => -101i32,
            CbErr::CMOSOptionNotFound => -102i32,
            CbErr::CMOSAccessError => -103i32,
            CbErr::CMOSChecksumInvalid => -104i32,
            CbErr::KbdControllerFailure => -200i32,
            CbErr::KbdInterfaceFailure => -201i32,
            CbErr::I2CNoDevice => -300i32,
            CbErr::I2CBusy => -301i32,
            CbErr::I2CProtocolError => -302i32,
            CbErr::I2CTimeout => -303i32,
            CbErr::CBFSIO => -400i32,
            CbErr::CBFSNotFound => -401i32,
            CbErr::CBFSHashMismatch => -402i32,
            CbErr::CBFSCacheFull => -403i32,
        }
    }

    /// The numeric error code.
    #[verifier::when_used_as_spec(spec_code)]
    pub fn code(&self) -> (r: i32)
        ensures
            r == self.spec_code(),
    {
        match self {
            CbErr::Success => 0,
            CbErr::GenericErr => -1,
            CbErr::ErrArg => -2,
            CbErr::ErrNotImplemented => -3,
            CbErr::CMOSOtableDisabled => -100,
            CbErr::CMOSLayoutNotFound => -101,
            CbErr::CMOSOptionNotFound => -102,
            CbErr::CMOSAccessError => -103,
            CbErr::CMOSChecksumInvalid => -104,
            CbErr::KbdControllerFailure => -200,
            CbErr::KbdInterfaceFailure => -201,
            CbErr::I2CNoDevice => -300,
            CbErr::I2CBusy => -301,
            CbErr::I2CProtocolError => -302,
            CbErr::I2CTimeout => -303,
            CbErr::CBFSIO => -400,
            CbErr::CBFSNotFound => -401,
            CbErr::CBFSHashMismatch => -402,
            CbErr::CBFSCacheFull => -403,
        }
    }
}

} // verus!
