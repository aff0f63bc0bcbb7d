use vstd::prelude::*;

verus! {

/// Everything that can go wrong while validating options, building a
/// connection profile, or reconciling it against the backend.
///
/// The variants are deliberately plain so that contracts can speak about
/// exact error values; [`NmError::describe`] renders the human-readable
/// message of each.
#[derive(Clone, Copy, Debug, PartialEq, Eq, Structural)]
pub enum NmError {
    /// The bond interface name is required but was not given.
    MissingBondInterface,
    /// The wireless interface name is required but was not given.
    MissingWirelessInterface,
    /// The SSID is required but was not given.
    MissingSsid,
    /// Creating a bond needs at least one slave interface.
    NoSlaveInterfaces,
    /// The empty string is not a valid slave interface name.
    EmptySlaveName,
    /// The requested bond mode is recognised but not implemented.
    UnsupportedBondMode,
    /// The bond mode name was not recognised at all.
    UnknownBondMode,
    /// The IPv4 address was not a valid `a.b.c.d/len` value.
    InvalidIp4Address,
    /// A non-empty password shorter than eight characters.
    PasswordTooShort,
    /// The backend's own pre-shared-key check rejected the password.
    InvalidPsk,
    /// A matching connection already exists; creation refuses to overwrite.
    AlreadyExists,
    /// A slave interface is already enslaved to some other master.
    InterfaceConflict,
    /// The required connection does not exist in the backend.
    NotFound,
    /// The named device does not exist in the backend.
    DeviceNotFound,
    /// The stored connection settings carried no IPv4 configuration.
    NoIp4Settings,
    /// The connection was expected to be active but is not.
    NotActive,
    /// The backend refused an add / activate / deactivate / delete request.
    BackendOperationFailed,
    /// The connection reached a terminal state other than activated.
    ActivationFailed,
}

impl NmError {
    /// The fixed human-readable message for this error.
    pub fn describe(&self) -> (r: &'static str)
        ensures
            r@ == spec_describe(*self),
    {
        match self {
            NmError::MissingBondInterface => "Required bond interface not specified",
            NmError::MissingWirelessInterface => "Required wireless interface not specified",
            NmError::MissingSsid => "Required SSID not specified",
            NmError::NoSlaveInterfaces => {
                "One or more slave interfaces required to create a bond connection"
            },
            NmError::EmptySlaveName => "Empty string is not a valid slave interface name",
            NmError::UnsupportedBondMode => "Bond mode is not implemented",
            NmError::UnknownBondMode => "Unrecognised bond mode",
            NmError::InvalidIp4Address => "Invalid IPv4 address/prefix",
            NmError::PasswordTooShort => "Password must be 8 chars or longer",
            NmError::InvalidPsk => "The backend rejected the pre-shared key",
            NmError::AlreadyExists => "Connection already exists",
            NmError::InterfaceConflict => "Interface is already enslaved elsewhere",
            NmError::NotFound => "Required connection does not exist",
            NmError::DeviceNotFound => "Device does not exist",
            NmError::NoIp4Settings => "Unable to get connection ip4 settings",
            NmError::NotActive => "Connection is not active",
            NmError::BackendOperationFailed => "Backend operation failed",
            NmError::ActivationFailed => "Unexpected connection state",
        }
    }
}

/// The message text that [`NmError::describe`] returns for each variant.
pub open spec fn spec_describe(e: NmError) -> Seq<char> {
    match e {
        NmError::MissingBondInterface => "Required bond interface not specified"@,
        NmError::MissingWirelessInterface => "Required wireless interface not specified"@,
        NmError::MissingSsid => "Required SSID not specified"@,
        NmError::NoSlaveInterfaces => {
            "One or more slave interfaces required to create a bond connection"@
        },
        NmError::EmptySlaveName => "Empty string is not a valid slave interface name"@,
        NmError::UnsupportedBondMode => "Bond mode is not implemented"@,
        NmError::UnknownBondMode => "Unrecognised bond mode"@,
        NmError::InvalidIp4Address => "Invalid IPv4 address/prefix"@,
        NmError::PasswordTooShort => "Password must be 8 chars or longer"@,
        NmError::InvalidPsk => "The backend rejected the pre-shared key"@,
        NmError::AlreadyExists => "Connection already exists"@,
        NmError::InterfaceConflict => "Interface is already enslaved elsewhere"@,
        NmError::NotFound => "Required connection does not exist"@,
        NmError::DeviceNotFound => "Device does not exist"@,
        NmError::NoIp4Settings => "Unable to get connection ip4 settings"@,
        NmError::NotActive => "Connection is not active"@,
        NmError::BackendOperationFailed => "Backend operation failed"@,
        NmError::ActivationFailed => "Unexpected connection state"@,
    }
}

} // verus!
