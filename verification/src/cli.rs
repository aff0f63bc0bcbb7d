use vstd::prelude::*;

verus! {

/// The verb a command-line invocation asks for.
#[derive(Clone, Copy, Debug, PartialEq, Eq, Structural)]
pub enum Action {
    /// Create and activate the described connection. Any connections which
    /// share interfaces with the desired connection are deactivated but not
    /// deleted; an interface already enslaved elsewhere aborts the creation.
    Create,
    /// Delete the described connection. Slave interfaces named alongside a
    /// bond are also deleted when they really belong to that bond.
    Delete,
    /// Report the current state of the described connection.
    Status,
}

/// Raw fields of a station invocation, before validation.
///
/// A configuration file, when one is given, replaces these fields entirely;
/// the caller resolves that file before handing fields to
/// [`crate::station::StationOpts`].
pub struct StationArgs {
    /// SSID used for station association.
    pub ssid: Option<String>,
    /// Wireless radio used to create the station.
    pub wireless_ifname: Option<String>,
    /// Password for the SSID (WPA-PSK); unset means an open network.
    pub password: Option<String>,
    /// Static IPv4 address in `a.b.c.d/len` form; unset means DHCP.
    pub ip4_addr: Option<String>,
}

/// Raw fields of an access-point invocation, before validation.
pub struct AccessPointArgs {
    /// SSID served by the access point.
    pub ssid: Option<String>,
    /// Wireless radio used to create the access point.
    pub wireless_ifname: Option<String>,
    /// Static IPv4 address in `a.b.c.d/len` form; unset picks the fixed
    /// private-use default address.
    pub ip4_addr: Option<String>,
    /// Password for the SSID (WPA-PSK); unset means an open network.
    pub password: Option<String>,
}

/// Raw fields of a bond invocation, before validation.
pub struct BondArgs {
    /// Bond connection and backing device name (must match).
    pub ifname: Option<String>,
    /// Bond mode of operation; unset defaults to active-backup.
    pub bond_mode: Option<crate::bond::BondMode>,
    /// Static IPv4 address in `a.b.c.d/len` form; unset means DHCP.
    pub ip4_addr: Option<String>,
    /// Bond backing wired device interface names.
    pub slave_ifnames: Vec<String>,
}

} // verus!
