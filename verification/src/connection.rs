use vstd::prelude::*;
use vstd::string::*;

use crate::bond::BondMode;
use crate::error::NmError;
use crate::ip4::Ipv4Cidr;

verus! {

/// The connection types this crate manages.
#[derive(Clone, Copy, Debug, PartialEq, Eq, Structural)]
pub enum ConnectionKind {
    Bond,
    Wired,
    Wifi,
}

/// The role a wireless connection plays on its radio.
#[derive(Clone, Copy, Debug, PartialEq, Eq, Structural)]
pub enum WifiMode {
    /// The radio serves an access point.
    AccessPoint,
    /// The radio associates to an access point as a station.
    Infrastructure,
}

/// The lifecycle state of an active connection, as the backend reports it.
#[derive(Clone, Copy, Debug, PartialEq, Eq, Structural)]
pub enum ActivationState {
    Unknown,
    Activating,
    Activated,
    Deactivating,
    Deactivated,
}

/// How a connection obtains its IPv4 configuration.
#[derive(Clone, Copy, Debug, PartialEq, Eq, Structural)]
pub enum Ip4Method {
    /// DHCP or another automatic source.
    Auto,
    /// A single statically configured address.
    Manual,
}

/// The IPv4 configuration of a profile. Manual configuration always pairs
/// with exactly one address; automatic configuration carries none.
#[derive(Clone, Copy, Debug, PartialEq, Eq)]
pub struct Ip4Settings {
    pub method: Ip4Method,
    pub address: Option<Ipv4Cidr>,
}

impl Ip4Settings {
    pub open spec fn wf(self) -> bool {
        match self.method {
            Ip4Method::Manual => self.address is Some,
            Ip4Method::Auto => self.address is None,
        }
    }
}

/// The master linkage a desired wired profile asks for.
///
/// A profile stored by the backend only ever carries `Unset` or `Named`;
/// `Any` exists purely as a search wildcard meaning "enslaved to some
/// master, no matter which".
#[derive(Debug, PartialEq, Eq)]
pub enum MasterFilter {
    /// A standalone connection without a master.
    Unset,
    /// Search wildcard: matches any connection that has some master.
    Any,
    /// Enslaved to the master with exactly this interface name.
    Named(String),
}

/// Mathematical value of a [`MasterFilter`].
pub enum MasterFilterView {
    Unset,
    Any,
    Named(Seq<char>),
}

impl View for MasterFilter {
    type V = MasterFilterView;

    open spec fn view(&self) -> MasterFilterView {
        match self {
            MasterFilter::Unset => MasterFilterView::Unset,
            MasterFilter::Any => MasterFilterView::Any,
            MasterFilter::Named(m) => MasterFilterView::Named(m@),
        }
    }
}

impl Clone for MasterFilter {
    fn clone(&self) -> (r: Self)
        ensures
            r@ == self@,
    {
        match self {
            MasterFilter::Unset => MasterFilter::Unset,
            MasterFilter::Any => MasterFilter::Any,
            MasterFilter::Named(m) => MasterFilter::Named(m.clone()),
        }
    }
}

/// Bond-specific settings of a profile.
#[derive(Clone, Copy, Debug, PartialEq, Eq, Structural)]
pub struct BondSettings {
    pub mode: BondMode,
    /// Link-monitoring interval in milliseconds; fixed at 100.
    pub miimon_ms: u32,
}

/// Wireless settings of a profile. Fields left unset act as wildcards when
/// the profile is used as a search template.
#[derive(Debug, PartialEq, Eq)]
pub struct WifiSettings {
    pub mode: Option<WifiMode>,
    /// The network name, kept as text; the backend stores its bytes.
    pub ssid: Option<String>,
    /// WPA pre-shared key; never part of a connection's identity.
    pub psk: Option<String>,
}

/// Mathematical value of [`WifiSettings`].
pub struct WifiSettingsView {
    pub mode: Option<WifiMode>,
    pub ssid: Option<Seq<char>>,
    pub psk: Option<Seq<char>>,
}

pub open spec fn opt_str_view(o: Option<String>) -> Option<Seq<char>> {
    match o {
        Some(s) => Some(s@),
        None => None,
    }
}

impl View for WifiSettings {
    type V = WifiSettingsView;

    open spec fn view(&self) -> WifiSettingsView {
        WifiSettingsView {
            mode: self.mode,
            ssid: opt_str_view(self.ssid),
            psk: opt_str_view(self.psk),
        }
    }
}

impl Clone for WifiSettings {
    fn clone(&self) -> (r: Self)
        ensures
            r@ == self@,
    {
        WifiSettings {
            mode: self.mode,
            ssid: clone_opt_string(&self.ssid),
            psk: clone_opt_string(&self.psk),
        }
    }
}

/// A declarative, backend-independent description of a network connection.
///
/// One and the same structure serves two purposes: fully populated, it is
/// what gets submitted to the backend; partially populated, it is a search
/// template whose unset optional fields match any candidate value.
#[derive(Debug, PartialEq, Eq)]
pub struct ConnectionProfile {
    /// The connection type; a profile without one matches nothing.
    pub kind: Option<ConnectionKind>,
    /// Display name.
    pub id: Option<String>,
    /// Backing device name; unset matches any interface.
    pub interface_name: Option<String>,
    /// Whether the backend may activate the connection on its own.
    pub autoconnect: bool,
    /// Master linkage, for wired profiles.
    pub master: MasterFilter,
    /// The kind of the master this connection is enslaved to.
    pub slave_type: Option<ConnectionKind>,
    pub bond: Option<BondSettings>,
    pub wifi: Option<WifiSettings>,
    pub ip4: Option<Ip4Settings>,
}

/// Mathematical value of a [`ConnectionProfile`].
pub struct ProfileView {
    pub kind: Option<ConnectionKind>,
    pub id: Option<Seq<char>>,
    pub interface_name: Option<Seq<char>>,
    pub autoconnect: bool,
    pub master: MasterFilterView,
    pub slave_type: Option<ConnectionKind>,
    pub bond: Option<BondSettings>,
    pub wifi: Option<WifiSettingsView>,
    pub ip4: Option<Ip4Settings>,
}

pub open spec fn opt_wifi_view(o: &Option<WifiSettings>) -> Option<WifiSettingsView> {
    match o {
        Some(w) => Some(w@),
        None => None,
    }
}

impl View for ConnectionProfile {
    type V = ProfileView;

    open spec fn view(&self) -> ProfileView {
        ProfileView {
            kind: self.kind,
            id: opt_str_view(self.id),
            interface_name: opt_str_view(self.interface_name),
            autoconnect: self.autoconnect,
            master: self.master@,
            slave_type: self.slave_type,
            bond: self.bond,
            wifi: opt_wifi_view(&self.wifi),
            ip4: self.ip4,
        }
    }
}

impl Clone for ConnectionProfile {
    fn clone(&self) -> (r: Self)
        ensures
            r@ == self@,
    {
        ConnectionProfile {
            kind: self.kind,
            id: clone_opt_string(&self.id),
            interface_name: clone_opt_string(&self.interface_name),
            autoconnect: self.autoconnect,
            master: self.master.clone(),
            slave_type: self.slave_type,
            bond: self.bond,
            wifi: match &self.wifi {
                Some(w) => Some(w.clone()),
                None => None,
            },
            ip4: self.ip4,
        }
    }
}

/// A connection record the backend has stored, identified by a handle the
/// backend chose.
#[derive(Debug)]
pub struct StoredConnection {
    pub handle: u64,
    pub profile: ConnectionProfile,
}

/// Mathematical value of a [`StoredConnection`].
pub struct StoredConnectionView {
    pub handle: u64,
    pub profile: ProfileView,
}

impl View for StoredConnection {
    type V = StoredConnectionView;

    open spec fn view(&self) -> StoredConnectionView {
        StoredConnectionView { handle: self.handle, profile: self.profile@ }
    }
}

impl Clone for StoredConnection {
    fn clone(&self) -> (r: Self)
        ensures
            r@ == self@,
    {
        StoredConnection { handle: self.handle, profile: self.profile.clone() }
    }
}

/// A live activation of a stored connection on some device.
#[derive(Debug)]
pub struct ActiveConnection {
    pub handle: u64,
    /// The stored connection this activation realizes.
    pub connection: StoredConnection,
    pub state: ActivationState,
    /// Addresses currently assigned on the wire, already rendered as text.
    pub ip4_addresses: Vec<String>,
}

/// Mathematical value of an [`ActiveConnection`].
pub struct ActiveConnectionView {
    pub handle: u64,
    pub connection: StoredConnectionView,
    pub state: ActivationState,
    pub ip4_addresses: Seq<Seq<char>>,
}

impl View for ActiveConnection {
    type V = ActiveConnectionView;

    open spec fn view(&self) -> ActiveConnectionView {
        ActiveConnectionView {
            handle: self.handle,
            connection: self.connection@,
            state: self.state,
            ip4_addresses: Seq::new(
                self.ip4_addresses@.len(),
                |i: int| self.ip4_addresses@[i]@,
            ),
        }
    }
}

impl Clone for ActiveConnection {
    fn clone(&self) -> (r: Self)
        ensures
            r@ == self@,
    {
        let r = ActiveConnection {
            handle: self.handle,
            connection: self.connection.clone(),
            state: self.state,
            ip4_addresses: clone_string_list(&self.ip4_addresses),
        };
        proof {
            assert(r@.ip4_addresses =~= self@.ip4_addresses);
        }
        r
    }
}

pub fn clone_opt_string(o: &Option<String>) -> (r: Option<String>)
    ensures
        opt_str_view(r) == opt_str_view(*o),
{
    match o {
        Some(s) => Some(s.clone()),
        None => None,
    }
}

pub fn clone_string_list(v: &Vec<String>) -> (r: Vec<String>)
    ensures
        r@.len() == v@.len(),
        forall|i: int| 0 <= i < v@.len() ==> r@[i]@ == v@[i]@,
{
    let mut out: Vec<String> = Vec::new();
    let mut i: usize = 0;
    while i < v.len()
        invariant
            i <= v@.len(),
            out@.len() == i,
            forall|j: int| 0 <= j < i ==> out@[j]@ == v@[j]@,
        decreases v@.len() - i,
    {
        out.push(v[i].clone());
        i += 1;
    }
    out
}

// Creates a wired connection profile for activating, deactivating and
// searching. `master` gives the slave linkage: `Unset` describes a
// standalone wired connection, `Named` a slave of that bond, and `Any` a
// search template that matches a slave of any bond.
pub fn create_wired_connection(wired_ifname: &str, master: MasterFilter) -> (r: ConnectionProfile)
    ensures
        r@ == spec_wired_profile(wired_ifname@, master@),
{
    let slave_type = match &master {
        MasterFilter::Unset => None,
        _ => Some(ConnectionKind::Bond),
    };
    ConnectionProfile {
        kind: Some(ConnectionKind::Wired),
        id: Some(String::from_str(wired_ifname)),
        interface_name: Some(String::from_str(wired_ifname)),
        autoconnect: true,
        master,
        slave_type,
        bond: None,
        wifi: None,
        ip4: None,
    }
}

/// The profile [`create_wired_connection`] builds.
pub open spec fn spec_wired_profile(ifname: Seq<char>, master: MasterFilterView) -> ProfileView {
    ProfileView {
        kind: Some(ConnectionKind::Wired),
        id: Some(ifname),
        interface_name: Some(ifname),
        autoconnect: true,
        master: master,
        slave_type: match master {
            MasterFilterView::Unset => None,
            _ => Some(ConnectionKind::Bond),
        },
        bond: None,
        wifi: None,
        ip4: None,
    }
}

/// Bond equivalence: both profiles must be bond connections with an id, and
/// when the desired profile names an interface the candidate's must equal it.
/// Granular settings such as bond mode or miimon are not part of a bond's
/// identity.
pub open spec fn spec_matching_bond(d: ProfileView, c: ProfileView) -> bool {
    &&& d.id is Some
    &&& c.id is Some
    &&& d.kind == Some(ConnectionKind::Bond)
    &&& c.kind == Some(ConnectionKind::Bond)
    &&& (d.interface_name matches Some(n) ==> c.interface_name == Some(n))
}

/// The slave-type step of wired equivalence: absent on both sides passes,
/// absent on exactly one side fails, present on both compares equal.
pub open spec fn spec_slave_type_match(d: ProfileView, c: ProfileView) -> bool {
    match (d.slave_type, c.slave_type) {
        (None, None) => true,
        (Some(a), Some(b)) => a == b,
        _ => false,
    }
}

/// The master step of wired equivalence. Absence must agree on both sides.
/// The `Any` wildcard accepts any candidate master and short-circuits the
/// whole wired match, skipping the slave-type comparison; a named master
/// must be equal on the candidate and is followed by the slave-type step.
pub open spec fn spec_master_slave_match(d: ProfileView, c: ProfileView) -> bool {
    match (d.master, c.master) {
        (MasterFilterView::Unset, MasterFilterView::Unset) => spec_slave_type_match(d, c),
        (MasterFilterView::Unset, _) => false,
        (_, MasterFilterView::Unset) => false,
        (MasterFilterView::Any, _) => true,
        (MasterFilterView::Named(m), MasterFilterView::Named(cm)) => m == cm
            && spec_slave_type_match(d, c),
        (MasterFilterView::Named(_), MasterFilterView::Any) => false,
    }
}

/// Wired equivalence: both profiles must be wired connections with an id,
/// the interface name compares with the usual wildcard rule, and the master
/// and slave-type linkage follows [`spec_master_slave_match`].
pub open spec fn spec_matching_wired(d: ProfileView, c: ProfileView) -> bool {
    &&& d.id is Some
    &&& c.id is Some
    &&& d.kind == Some(ConnectionKind::Wired)
    &&& c.kind == Some(ConnectionKind::Wired)
    &&& (d.interface_name matches Some(n) ==> c.interface_name == Some(n))
    &&& spec_master_slave_match(d, c)
}

/// Wireless equivalence: both profiles must be wireless connections with an
/// id and wireless settings; interface name, wireless mode and SSID compare
/// with the wildcard rule. The pre-shared key is deliberately not compared:
/// a network's credential is not part of its identity.
pub open spec fn spec_matching_wifi(d: ProfileView, c: ProfileView) -> bool {
    match (d.wifi, c.wifi) {
        (Some(dw), Some(cw)) => {
            &&& d.id is Some
            &&& c.id is Some
            &&& d.kind == Some(ConnectionKind::Wifi)
            &&& c.kind == Some(ConnectionKind::Wifi)
            &&& (d.interface_name matches Some(n) ==> c.interface_name == Some(n))
            &&& (dw.mode matches Some(m) ==> cw.mode == Some(m))
            &&& (dw.ssid matches Some(s) ==> cw.ssid == Some(s))
        },
        _ => false,
    }
}

fn opt_string_matches(d: &Option<String>, c: &Option<String>) -> (r: bool)
    ensures
        r == (opt_str_view(*d) matches Some(n) ==> opt_str_view(*c) == Some(n)),
{
    match d {
        Some(n) => match c {
            Some(cn) => *n == *cn,
            None => false,
        },
        None => true,
    }
}

// Determines whether the candidate `cmp_conn` is a bond connection matching
// the desired profile `conn`.
pub fn matching_bond_connection(conn: &ConnectionProfile, cmp_conn: &ConnectionProfile) -> (r:
    bool)
    ensures
        r == spec_matching_bond(conn@, cmp_conn@),
{
    if conn.id.is_none() || cmp_conn.id.is_none() {
        return false;
    }
    let kinds_ok = match (conn.kind, cmp_conn.kind) {
        (Some(ConnectionKind::Bond), Some(ConnectionKind::Bond)) => true,
        _ => false,
    };
    if !kinds_ok {
        return false;
    }
    opt_string_matches(&conn.interface_name, &cmp_conn.interface_name)
}

fn slave_type_matches(conn: &ConnectionProfile, cmp_conn: &ConnectionProfile) -> (r: bool)
    ensures
        r == spec_slave_type_match(conn@, cmp_conn@),
{
    match (conn.slave_type, cmp_conn.slave_type) {
        (None, None) => true,
        (Some(a), Some(b)) => a == b,
        _ => false,
    }
}

// Determines whether the candidate `cmp_conn` is a wired connection matching
// the desired profile `conn`, comparing interface name and, for slaves, the
// master linkage and slave type.
pub fn matching_wired_connection(conn: &ConnectionProfile, cmp_conn: &ConnectionProfile) -> (r:
    bool)
    ensures
        r == spec_matching_wired(conn@, cmp_conn@),
{
    if conn.id.is_none() || cmp_conn.id.is_none() {
        return false;
    }
    let kinds_ok = match (conn.kind, cmp_conn.kind) {
        (Some(ConnectionKind::Wired), Some(ConnectionKind::Wired)) => true,
        _ => false,
    };
    if !kinds_ok {
        return false;
    }
    if !opt_string_matches(&conn.interface_name, &cmp_conn.interface_name) {
        return false;
    }
    match (&conn.master, &cmp_conn.master) {
        (MasterFilter::Unset, MasterFilter::Unset) => slave_type_matches(conn, cmp_conn),
        (MasterFilter::Unset, _) => false,
        (_, MasterFilter::Unset) => false,
        (MasterFilter::Any, _) => true,
        (MasterFilter::Named(m), MasterFilter::Named(cm)) => {
            if *m == *cm {
                slave_type_matches(conn, cmp_conn)
            } else {
                false
            }
        },
        (MasterFilter::Named(_), MasterFilter::Any) => false,
    }
}

// Determines whether the candidate `cmp_conn` is a wireless connection
// matching the desired profile `conn`, comparing interface name, wireless
// mode and SSID; the pre-shared key is not compared.
pub fn matching_wifi_connection(conn: &ConnectionProfile, cmp_conn: &ConnectionProfile) -> (r:
    bool)
    ensures
        r == spec_matching_wifi(conn@, cmp_conn@),
{
    let (dw, cw) = match (&conn.wifi, &cmp_conn.wifi) {
        (Some(dw), Some(cw)) => (dw, cw),
        _ => {
            return false;
        },
    };
    if conn.id.is_none() || cmp_conn.id.is_none() {
        return false;
    }
    let kinds_ok = match (conn.kind, cmp_conn.kind) {
        (Some(ConnectionKind::Wifi), Some(ConnectionKind::Wifi)) => true,
        _ => false,
    };
    if !kinds_ok {
        return false;
    }
    if !opt_string_matches(&conn.interface_name, &cmp_conn.interface_name) {
        return false;
    }
    let mode_ok = match (dw.mode, cw.mode) {
        (Some(m), Some(cm)) => m == cm,
        (Some(_), None) => false,
        (None, _) => true,
    };
    if !mode_ok {
        return false;
    }
    match (&dw.ssid, &cw.ssid) {
        (Some(s), Some(cs)) => *s == *cs,
        (Some(_), None) => false,
        (None, _) => true,
    }
}

/// Wildcard law: a bond template without an interface name matches
/// independently of the candidate's interface name.
pub proof fn lemma_bond_ifname_wildcard(d: ProfileView, c: ProfileView, other: Option<Seq<char>>)
    requires
        d.interface_name is None,
    ensures
        spec_matching_bond(d, c) == spec_matching_bond(
            d,
            ProfileView { interface_name: other, ..c },
        ),
{
}

/// Wildcard law: a wired template without an interface name matches
/// independently of the candidate's interface name.
pub proof fn lemma_wired_ifname_wildcard(d: ProfileView, c: ProfileView, other: Option<Seq<char>>)
    requires
        d.interface_name is None,
    ensures
        spec_matching_wired(d, c) == spec_matching_wired(
            d,
            ProfileView { interface_name: other, ..c },
        ),
{
}

/// Wildcard law: a wireless template without an interface name matches
/// independently of the candidate's interface name.
pub proof fn lemma_wifi_ifname_wildcard(d: ProfileView, c: ProfileView, other: Option<Seq<char>>)
    requires
        d.interface_name is None,
    ensures
        spec_matching_wifi(d, c) == spec_matching_wifi(
            d,
            ProfileView { interface_name: other, ..c },
        ),
{
}

/// Wildcard law: a wireless template without a mode matches independently of
/// the candidate's wireless mode.
pub proof fn lemma_wifi_mode_wildcard(
    d: ProfileView,
    c: ProfileView,
    cw: WifiSettingsView,
    other: Option<WifiMode>,
)
    requires
        d.wifi matches Some(dw) && dw.mode is None,
        c.wifi == Some(cw),
    ensures
        spec_matching_wifi(d, c) == spec_matching_wifi(
            d,
            ProfileView { wifi: Some(WifiSettingsView { mode: other, ..cw }), ..c },
        ),
{
}

/// Wildcard law: a wireless template without an SSID matches independently
/// of the candidate's SSID.
pub proof fn lemma_wifi_ssid_wildcard(
    d: ProfileView,
    c: ProfileView,
    cw: WifiSettingsView,
    other: Option<Seq<char>>,
)
    requires
        d.wifi matches Some(dw) && dw.ssid is None,
        c.wifi == Some(cw),
    ensures
        spec_matching_wifi(d, c) == spec_matching_wifi(
            d,
            ProfileView { wifi: Some(WifiSettingsView { ssid: other, ..cw }), ..c },
        ),
{
}

/// Equality law: when the bond template names an interface, matching a
/// candidate with an id is exactly agreement on kind and interface name.
pub proof fn lemma_bond_match_is_equality(d: ProfileView, c: ProfileView)
    requires
        d.id is Some,
        c.id is Some,
        d.kind == Some(ConnectionKind::Bond),
        d.interface_name is Some,
    ensures
        spec_matching_bond(d, c) == (c.kind == Some(ConnectionKind::Bond) && c.interface_name
            == d.interface_name),
{
}

/// Equality law: when every compared field of a wired template is present on
/// both sides and the master is a named one, matching is exactly field-wise
/// equality of kind, interface name, master and slave type.
pub proof fn lemma_wired_match_is_equality(d: ProfileView, c: ProfileView)
    requires
        d.id is Some,
        c.id is Some,
        d.kind == Some(ConnectionKind::Wired),
        d.interface_name is Some,
        d.master matches MasterFilterView::Named(_),
        c.master matches MasterFilterView::Named(_),
        d.slave_type is Some,
        c.slave_type is Some,
    ensures
        spec_matching_wired(d, c) == (c.kind == Some(ConnectionKind::Wired) && c.interface_name
            == d.interface_name && c.master == d.master && c.slave_type == d.slave_type),
{
}

/// Equality law: when every compared field of a wireless template is present
/// on both sides, matching is exactly field-wise equality of kind, interface
/// name, wireless mode and SSID. The pre-shared key never takes part.
pub proof fn lemma_wifi_match_is_equality(d: ProfileView, c: ProfileView)
    requires
        d.id is Some,
        c.id is Some,
        d.kind == Some(ConnectionKind::Wifi),
        d.interface_name is Some,
        d.wifi matches Some(dw) && dw.mode is Some && dw.ssid is Some,
        c.wifi is Some,
    ensures
        spec_matching_wifi(d, c) == (c.kind == Some(ConnectionKind::Wifi) && c.interface_name
            == d.interface_name && c.wifi.unwrap().mode == d.wifi.unwrap().mode
            && c.wifi.unwrap().ssid == d.wifi.unwrap().ssid),
{
}

/// The sole exception to the wildcard and equality laws: a template whose
/// master is the `Any` wildcard accepts a candidate exactly when the
/// candidate has some master, whichever it is, and the slave type is then
/// not consulted at all.
pub proof fn lemma_wired_master_any(d: ProfileView, c: ProfileView)
    requires
        d.id is Some,
        c.id is Some,
        d.kind == Some(ConnectionKind::Wired),
        c.kind == Some(ConnectionKind::Wired),
        d.interface_name matches Some(n) ==> c.interface_name == Some(n),
        d.master == MasterFilterView::Any,
    ensures
        spec_matching_wired(d, c) == (c.master != MasterFilterView::Unset),
{
}

/// The same wireless profile with the SSID left unset: a search template
/// that matches the radio's occupant whatever network name it serves.
pub open spec fn spec_any_ssid(p: ProfileView) -> ProfileView {
    ProfileView {
        wifi: match p.wifi {
            Some(w) => Some(WifiSettingsView { ssid: None, ..w }),
            None => None,
        },
        ..p
    }
}

/// Clears the SSID of a wireless search template so that it matches the
/// radio's occupant whatever network name it serves.
pub fn clear_ssid(p: &mut ConnectionProfile)
    ensures
        final(p)@ == spec_any_ssid(old(p)@),
{
    match &mut p.wifi {
        Some(w) => {
            w.ssid = None;
        },
        None => {},
    }
}

/// The kind-specific equivalence predicate selected by a device type.
pub open spec fn spec_kind_match(
    device_type: ConnectionKind,
    d: ProfileView,
    c: ProfileView,
) -> bool {
    match device_type {
        ConnectionKind::Bond => spec_matching_bond(d, c),
        ConnectionKind::Wired => spec_matching_wired(d, c),
        ConnectionKind::Wifi => spec_matching_wifi(d, c),
    }
}

fn kind_match(device_type: ConnectionKind, d: &ConnectionProfile, c: &ConnectionProfile) -> (r:
    bool)
    ensures
        r == spec_kind_match(device_type, d@, c@),
{
    match device_type {
        ConnectionKind::Bond => matching_bond_connection(d, c),
        ConnectionKind::Wired => matching_wired_connection(d, c),
        ConnectionKind::Wifi => matching_wifi_connection(d, c),
    }
}

/// Index of the first stored connection from `i` on that matches, if any.
pub open spec fn spec_first_match(
    device_type: ConnectionKind,
    d: ProfileView,
    conns: Seq<StoredConnection>,
    i: int,
) -> Option<int>
    decreases conns.len() - i,
{
    if i < 0 || i >= conns.len() {
        None
    } else if spec_kind_match(device_type, d, conns[i]@.profile) {
        Some(i)
    } else {
        spec_first_match(device_type, d, conns, i + 1)
    }
}

/// What [`get_connection`] finds: the first matching stored connection. A
/// template without an interface name simply matches on its remaining
/// fields, the absent name acting as a wildcard.
pub open spec fn spec_get_connection(
    device_type: ConnectionKind,
    d: ProfileView,
    conns: Seq<StoredConnection>,
) -> Option<int> {
    spec_first_match(device_type, d, conns, 0)
}

/// The first match, when it exists, is a match and nothing before it is;
/// when there is none, nothing matches at all.
pub proof fn lemma_first_match_props(
    device_type: ConnectionKind,
    d: ProfileView,
    conns: Seq<StoredConnection>,
    i: int,
)
    requires
        0 <= i <= conns.len(),
    ensures
        match spec_first_match(device_type, d, conns, i) {
            Some(k) => i <= k < conns.len() && spec_kind_match(device_type, d, conns[k]@.profile)
                && (forall|j: int|
                i <= j < k ==> !spec_kind_match(device_type, d, conns[j]@.profile)),
            None => forall|j: int|
                i <= j < conns.len() ==> !spec_kind_match(device_type, d, conns[j]@.profile),
        },
    decreases conns.len() - i,
{
    if i < conns.len() {
        if !spec_kind_match(device_type, d, conns[i]@.profile) {
            lemma_first_match_props(device_type, d, conns, i + 1);
        }
    }
}

// Searches the stored connections for one matching the desired profile
// under the device type's equivalence rule, returning the index of the
// first match. An absent interface name on the template acts as a wildcard.
// Matches beyond the first are a non-fatal condition and are ignored.
pub fn get_connection(
    device_type: ConnectionKind,
    conn: &ConnectionProfile,
    connections: &Vec<StoredConnection>,
) -> (r: Option<usize>)
    ensures
        match r {
            Some(i) => i < connections@.len() && spec_get_connection(
                device_type,
                conn@,
                connections@,
            ) == Some(i as int),
            None => spec_get_connection(device_type, conn@, connections@) is None,
        },
{
    let mut i: usize = 0;
    while i < connections.len()
        invariant
            i <= connections@.len(),
            spec_first_match(device_type, conn@, connections@, 0) == spec_first_match(
                device_type,
                conn@,
                connections@,
                i as int,
            ),
        decreases connections@.len() - i,
    {
        if kind_match(device_type, conn, &connections[i].profile) {
            return Some(i);
        }
        i += 1;
    }
    None
}

/// Index of the first active connection from `i` on whose underlying stored
/// connection matches, if any.
pub open spec fn spec_first_active_match(
    device_type: ConnectionKind,
    d: ProfileView,
    actives: Seq<ActiveConnection>,
    i: int,
) -> Option<int>
    decreases actives.len() - i,
{
    if i < 0 || i >= actives.len() {
        None
    } else if spec_kind_match(device_type, d, actives[i]@.connection.profile) {
        Some(i)
    } else {
        spec_first_active_match(device_type, d, actives, i + 1)
    }
}

/// What [`get_active_connection`] finds: the first active connection whose
/// underlying stored connection matches; an absent interface name on the
/// template acts as a wildcard, as in [`spec_get_connection`].
pub open spec fn spec_get_active_connection(
    device_type: ConnectionKind,
    d: ProfileView,
    actives: Seq<ActiveConnection>,
) -> Option<int> {
    spec_first_active_match(device_type, d, actives, 0)
}

/// Companion of [`lemma_first_match_props`] for active connections.
pub proof fn lemma_first_active_match_props(
    device_type: ConnectionKind,
    d: ProfileView,
    actives: Seq<ActiveConnection>,
    i: int,
)
    requires
        0 <= i <= actives.len(),
    ensures
        match spec_first_active_match(device_type, d, actives, i) {
            Some(k) => i <= k < actives.len() && spec_kind_match(
                device_type,
                d,
                actives[k]@.connection.profile,
            ) && (forall|j: int|
                i <= j < k ==> !spec_kind_match(device_type, d, actives[j]@.connection.profile)),
            None => forall|j: int|
                i <= j < actives.len() ==> !spec_kind_match(
                    device_type,
                    d,
                    actives[j]@.connection.profile,
                ),
        },
    decreases actives.len() - i,
{
    if i < actives.len() {
        if !spec_kind_match(device_type, d, actives[i]@.connection.profile) {
            lemma_first_active_match_props(device_type, d, actives, i + 1);
        }
    }
}

// Searches the active connections for one whose underlying stored
// connection matches the desired profile, returning the index of the first
// match. An absent interface name on the template acts as a wildcard.
pub fn get_active_connection(
    device_type: ConnectionKind,
    conn: &ConnectionProfile,
    active_connections: &Vec<ActiveConnection>,
) -> (r: Option<usize>)
    ensures
        match r {
            Some(i) => i < active_connections@.len() && spec_get_active_connection(
                device_type,
                conn@,
                active_connections@,
            ) == Some(i as int),
            None => spec_get_active_connection(device_type, conn@, active_connections@) is None,
        },
{
    let mut i: usize = 0;
    while i < active_connections.len()
        invariant
            i <= active_connections@.len(),
            spec_first_active_match(device_type, conn@, active_connections@, 0)
                == spec_first_active_match(device_type, conn@, active_connections@, i as int),
        decreases active_connections@.len() - i,
    {
        if kind_match(device_type, conn, &active_connections[i].connection.profile) {
            return Some(i);
        }
        i += 1;
    }
    None
}

/// A stored wired connection enslaved to exactly this master.
pub open spec fn spec_is_slave_of(master: Seq<char>, c: ProfileView) -> bool {
    c.kind == Some(ConnectionKind::Wired) && c.master == MasterFilterView::Named(master)
}

/// What the slave scan counts as a hit: a wired connection enslaved to the
/// master that also carries an id. A candidate without an id is skipped, a
/// non-fatal condition that never aborts the scan.
pub open spec fn spec_slave_hit(master: Seq<char>, c: ProfileView) -> bool {
    c.id is Some && spec_is_slave_of(master, c)
}

/// The indices below `n` of stored wired connections enslaved to `master`,
/// in ascending order.
pub open spec fn spec_slave_indices(
    master: Seq<char>,
    conns: Seq<StoredConnection>,
    n: int,
) -> Seq<usize>
    decreases n,
{
    if n <= 0 {
        Seq::empty()
    } else {
        let rest = spec_slave_indices(master, conns, n - 1);
        if spec_slave_hit(master, conns[n - 1]@.profile) {
            rest.push((n - 1) as usize)
        } else {
            rest
        }
    }
}

// Collects the stored wired connections whose configured master interface
// equals `master_ifname` exactly; no wildcard applies here. Returns their
// indices in ascending order. A candidate without an id is skipped and the
// scan continues over the remaining candidates.
pub fn get_slave_connections(master_ifname: &str, connections: &Vec<StoredConnection>) -> (r: Vec<
    usize,
>)
    ensures
        r@ == spec_slave_indices(master_ifname@, connections@, connections@.len() as int),
{
    let mut out: Vec<usize> = Vec::new();
    let mut i: usize = 0;
    while i < connections.len()
        invariant
            i <= connections@.len(),
            out@ == spec_slave_indices(master_ifname@, connections@, i as int),
        decreases connections@.len() - i,
    {
        let c = &connections[i];
        let is_hit = if c.profile.id.is_none() {
            false
        } else {
            match (c.profile.kind, &c.profile.master) {
                (Some(ConnectionKind::Wired), MasterFilter::Named(m)) => {
                    let master = String::from_str(master_ifname);
                    *m == master
                },
                _ => false,
            }
        };
        if is_hit {
            out.push(i);
        }
        i += 1;
    }
    out
}

/// Every index the slave scan returns is a slave of the master, every slave
/// index is returned, and the list ascends.
pub proof fn lemma_slave_indices_props(master: Seq<char>, conns: Seq<StoredConnection>, n: int)
    requires
        0 <= n <= conns.len(),
        conns.len() <= usize::MAX,
    ensures
        ({
            let v = spec_slave_indices(master, conns, n);
            &&& forall|k: int|
                0 <= k < v.len() ==> v[k] < n && spec_slave_hit(master, conns[v[k] as int]@.profile)
            &&& forall|i: int|
                0 <= i < n && spec_slave_hit(master, conns[i]@.profile) ==> v.contains(
                    i as usize,
                )
            &&& forall|k1: int, k2: int| 0 <= k1 < k2 < v.len() ==> v[k1] < v[k2]
        }),
    decreases n,
{
    if n > 0 {
        lemma_slave_indices_props(master, conns, n - 1);
        let prev = spec_slave_indices(master, conns, n - 1);
        let v = spec_slave_indices(master, conns, n);
        if spec_slave_hit(master, conns[n - 1]@.profile) {
            assert(v == prev.push((n - 1) as usize));
            assert(forall|k: int| 0 <= k < prev.len() ==> v[k] == prev[k]);
            assert(v[v.len() - 1] == (n - 1) as usize);
        } else {
            assert(v == prev);
        }
        assert forall|i: int|
            0 <= i < n && spec_slave_hit(master, conns[i]@.profile) implies v.contains(
            i as usize,
        ) by {
            if i < n - 1 {
                assert(prev.contains(i as usize));
                let k = choose|k: int| 0 <= k < prev.len() && prev[k] == i as usize;
                assert(v[k] == i as usize);
            } else {
                assert(v[v.len() - 1] == i as usize);
            }
        }
    }
}

/// Whether a reported address is currently assigned on the wire or merely
/// statically configured.
#[derive(Clone, Copy, Debug, PartialEq, Eq, Structural)]
pub enum AddrSource {
    Active,
    Static,
}

/// One address line of a status report.
#[derive(Debug)]
pub struct StatusAddress {
    pub text: String,
    pub source: AddrSource,
}

/// Mathematical value of a [`StatusAddress`].
pub struct StatusAddressView {
    pub text: Seq<char>,
    pub source: AddrSource,
}

impl View for StatusAddress {
    type V = StatusAddressView;

    open spec fn view(&self) -> StatusAddressView {
        StatusAddressView { text: self.text@, source: self.source }
    }
}

/// The values of a list of status addresses.
pub open spec fn status_addr_list_view(v: Seq<StatusAddress>) -> Seq<StatusAddressView> {
    Seq::new(v.len(), |i: int| v[i]@)
}

/// The address lines reporting what is currently assigned on the wire.
pub open spec fn spec_active_addr_views(a: Seq<Seq<char>>) -> Seq<StatusAddressView> {
    Seq::new(a.len(), |k: int| StatusAddressView { text: a[k], source: AddrSource::Active })
}

/// Annotates the currently assigned addresses of an active connection.
pub fn annotate_active_addresses(addrs: &Vec<String>) -> (r: Vec<StatusAddress>)
    ensures
        status_addr_list_view(r@) == spec_active_addr_views(
            Seq::new(addrs@.len(), |i: int| addrs@[i]@),
        ),
{
    let mut out: Vec<StatusAddress> = Vec::new();
    let mut i: usize = 0;
    while i < addrs.len()
        invariant
            i <= addrs@.len(),
            out@.len() == i,
            forall|j: int|
                0 <= j < i ==> out@[j]@ == (StatusAddressView {
                    text: addrs@[j]@,
                    source: AddrSource::Active,
                }),
        decreases addrs@.len() - i,
    {
        out.push(StatusAddress { text: addrs[i].clone(), source: AddrSource::Active });
        i += 1;
    }
    proof {
        assert(status_addr_list_view(out@) =~= spec_active_addr_views(
            Seq::new(addrs@.len(), |i: int| addrs@[i]@),
        ));
    }
    out
}

/// The backend's display word for an activation state.
pub open spec fn spec_connection_state_chars(state: ActivationState) -> Seq<char> {
    match state {
        ActivationState::Activated => "activated"@,
        ActivationState::Activating => "activating"@,
        ActivationState::Deactivated => "deactivated"@,
        ActivationState::Deactivating => "deactivating"@,
        ActivationState::Unknown => "unknown"@,
    }
}

pub fn get_connection_state_str(state: ActivationState) -> (r: &'static str)
    ensures
        r@ == spec_connection_state_chars(state),
{
    match state {
        ActivationState::Activated => "activated",
        ActivationState::Activating => "activating",
        ActivationState::Deactivated => "deactivated",
        ActivationState::Deactivating => "deactivating",
        ActivationState::Unknown => "unknown",
    }
}

/// Decision taken on one observed activation state: keep waiting while the
/// connection is still activating, succeed on activated, fail on any other
/// state.
pub open spec fn spec_activation_step(state: ActivationState) -> Option<Result<(), NmError>> {
    match state {
        ActivationState::Activating => None,
        ActivationState::Activated => Some(Ok(())),
        _ => Some(Err(NmError::ActivationFailed)),
    }
}

pub fn activation_step(state: ActivationState) -> (r: Option<Result<(), NmError>>)
    ensures
        r == spec_activation_step(state),
{
    match state {
        ActivationState::Activating => None,
        ActivationState::Activated => Some(Ok(())),
        _ => Some(Err(NmError::ActivationFailed)),
    }
}

/// The first decision among the observed states, if any decides.
pub open spec fn spec_first_decision(events: Seq<ActivationState>, i: int) -> Result<(), NmError>
    decreases events.len() - i,
{
    if i < 0 || i >= events.len() {
        Err(NmError::ActivationFailed)
    } else {
        match spec_activation_step(events[i]) {
            Some(r) => r,
            None => spec_first_decision(events, i + 1),
        }
    }
}

/// What waiting on an activation resolves to: immediate success when the
/// connection is already activated, otherwise the first decision among the
/// subsequently observed states.
pub open spec fn spec_wait_outcome(
    initial: ActivationState,
    events: Seq<ActivationState>,
) -> Result<(), NmError> {
    if initial == ActivationState::Activated {
        Ok(())
    } else {
        spec_first_decision(events, 0)
    }
}

// Reduces the stream of state-change notifications observed for one active
// connection to a single success or failure. When the connection is already
// activated no event is consulted; otherwise the first event that is not
// `Activating` decides, and later events are ignored. The caller must have
// observed at least one deciding event.
pub fn wait_for_connection_to_activate(
    conn: &ActiveConnection,
    events: &Vec<ActivationState>,
) -> (r: Result<(), NmError>)
    requires
        conn@.state == ActivationState::Activated || exists|i: int|
            0 <= i < events@.len() && spec_activation_step(events@[i]) is Some,
    ensures
        r == spec_wait_outcome(conn@.state, events@),
{
    if conn.state == ActivationState::Activated {
        return Ok(());
    }
    let mut i: usize = 0;
    while i < events.len()
        invariant
            i <= events@.len(),
            conn@.state != ActivationState::Activated,
            spec_first_decision(events@, 0) == spec_first_decision(events@, i as int),
            exists|j: int| 0 <= j < events@.len() && spec_activation_step(events@[j]) is Some,
            forall|j: int| 0 <= j < i ==> spec_activation_step(events@[j]) is None,
        decreases events@.len() - i,
    {
        match activation_step(events[i]) {
            Some(decision) => {
                proof {
                    assert(spec_first_decision(events@, i as int) == decision);
                }
                return decision;
            },
            None => {
                i += 1;
            },
        }
    }
    proof {
        let j = choose|j: int|
            0 <= j < events@.len() && spec_activation_step(events@[j]) is Some;
        assert(spec_activation_step(events@[j]) is None);
    }
    Err(NmError::ActivationFailed)
}

} // verus!
