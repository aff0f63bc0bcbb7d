use nutil::access_point::{access_point_status, create_access_point, delete_access_point, AccessPointOpts};
use nutil::bond::{
    bond_mode_from_name, bond_mode_label, bond_status, create_bond, delete_bond, BondMode,
    BondOpts,
};
use nutil::cli::{AccessPointArgs, BondArgs, StationArgs};
use nutil::connection::{
    ActivationState, ActiveConnection, AddrSource, ConnectionKind, Ip4Method, MasterFilter,
    StoredConnection, WifiMode,
};
use nutil::error::NmError;
use nutil::model::{BackendEvent, BackendModel, BackendOp};
use nutil::station::{create_station, StationOpts};

fn fresh_backend(devices: &[&str]) -> BackendModel {
    BackendModel::new(
        devices.iter().map(|d| d.to_string()).collect(),
        ActivationState::Activated,
        ActivationState::Activated,
    )
}

fn bond_opts(ifname: Option<&str>, slaves: &[&str], ip4: Option<&str>) -> BondOpts {
    BondOpts::from_args(BondArgs {
        ifname: ifname.map(|s| s.to_string()),
        bond_mode: None,
        ip4_addr: ip4.map(|s| s.to_string()),
        slave_ifnames: slaves.iter().map(|s| s.to_string()).collect(),
    })
}

fn ap_opts(ssid: Option<&str>, ifname: Option<&str>, ip4: Option<&str>, pw: Option<&str>) -> Result<AccessPointOpts, NmError> {
    AccessPointOpts::from_args(
        AccessPointArgs {
            ssid: ssid.map(|s| s.to_string()),
            wireless_ifname: ifname.map(|s| s.to_string()),
            ip4_addr: ip4.map(|s| s.to_string()),
            password: pw.map(|s| s.to_string()),
        },
        true,
    )
}

fn sta_opts(ssid: Option<&str>, ifname: Option<&str>, pw: Option<&str>, ip4: Option<&str>) -> Result<StationOpts, NmError> {
    StationOpts::from_args(
        StationArgs {
            ssid: ssid.map(|s| s.to_string()),
            wireless_ifname: ifname.map(|s| s.to_string()),
            password: pw.map(|s| s.to_string()),
            ip4_addr: ip4.map(|s| s.to_string()),
        },
        true,
    )
}

/// End-to-end bond creation: one bond connection and two wired slave
/// connections are added, both slaves are activated against their devices,
/// and the final reported state is activated.
#[test]
fn bond_create_end_to_end() {
    let mut backend = fresh_backend(&["eth0", "eth1"]);
    let opts = bond_opts(Some("bond0"), &["eth0", "eth1"], None);
    assert_eq!(create_bond(&mut backend, &opts), Ok(()));

    assert_eq!(backend.connections.len(), 3);
    let bond = &backend.connections[0];
    assert_eq!(bond.profile.kind, Some(ConnectionKind::Bond));
    assert_eq!(bond.profile.interface_name.as_deref(), Some("bond0"));
    for slave in &backend.connections[1..] {
        assert_eq!(slave.profile.kind, Some(ConnectionKind::Wired));
        assert_eq!(slave.profile.master, MasterFilter::Named("bond0".to_string()));
    }
    let slave_names: Vec<_> = backend.connections[1..]
        .iter()
        .map(|c| c.profile.interface_name.clone().unwrap())
        .collect();
    assert_eq!(slave_names, vec!["eth0".to_string(), "eth1".to_string()]);

    // the bond's own activation reached the activated state, and both
    // slaves are active
    let bond_active = backend
        .active
        .iter()
        .find(|a| a.connection.profile.kind == Some(ConnectionKind::Bond))
        .unwrap();
    assert_eq!(bond_active.state, ActivationState::Activated);
    let active_slaves = backend
        .active
        .iter()
        .filter(|a| a.connection.profile.kind == Some(ConnectionKind::Wired))
        .count();
    assert_eq!(active_slaves, 2);

    // the status report agrees
    let status = bond_status(&opts, &backend.connections, &backend.active).unwrap();
    assert_eq!(status.name, "bond0");
    assert_eq!(status.state, ActivationState::Activated);
    assert_eq!(status.slave_ifnames, vec!["eth0".to_string(), "eth1".to_string()]);
    assert_eq!(status.ip4_method, Ip4Method::Auto);
    assert!(status.addresses.is_empty());
}

/// An empty slave list is an immediate validation error and nothing is asked
/// of the backend.
#[test]
fn bond_create_empty_slaves() {
    let mut backend = fresh_backend(&["eth0"]);
    let opts = bond_opts(Some("bond0"), &[], None);
    assert_eq!(create_bond(&mut backend, &opts), Err(NmError::NoSlaveInterfaces));
    assert!(backend.connections.is_empty());
    assert!(backend.active.is_empty());
}

/// A short password is a validation error before any backend call.
#[test]
fn access_point_short_password() {
    let opts = ap_opts(Some("home"), Some("wlan0"), None, Some("short"));
    assert_eq!(opts.unwrap_err(), NmError::PasswordTooShort);
}

/// Creating a station while an access point is active on the same radio
/// deactivates the access point before the station is activated.
#[test]
fn station_preempts_access_point() {
    let mut backend = fresh_backend(&["wlan0"]);
    let ap = ap_opts(Some("home"), Some("wlan0"), None, Some("a_password")).unwrap();
    assert_eq!(create_access_point(&mut backend, &ap), Ok(()));
    assert!(backend.active.iter().any(|a| {
        a.connection.profile.wifi.as_ref().map(|w| w.mode) == Some(Some(WifiMode::AccessPoint))
    }));

    let sta = sta_opts(Some("upstream"), Some("wlan0"), None, None).unwrap();
    assert_eq!(create_station(&mut backend, &sta), Ok(()));

    // the access point's activation is gone; the station's is there
    assert!(!backend.active.iter().any(|a| {
        a.connection.profile.wifi.as_ref().map(|w| w.mode) == Some(Some(WifiMode::AccessPoint))
    }));
    assert!(backend.active.iter().any(|a| {
        a.connection.profile.wifi.as_ref().map(|w| w.mode) == Some(Some(WifiMode::Infrastructure))
    }));
}

/// Creating the same bond twice fails the second time with a conflict and
/// leaves the backend unchanged.
#[test]
fn bond_create_twice_conflicts() {
    let mut backend = fresh_backend(&["eth0", "eth1"]);
    let opts = bond_opts(Some("bond0"), &["eth0", "eth1"], None);
    assert_eq!(create_bond(&mut backend, &opts), Ok(()));
    let stored_before = backend.connections.len();
    let active_before = backend.active.len();

    assert_eq!(create_bond(&mut backend, &opts), Err(NmError::AlreadyExists));
    assert_eq!(backend.connections.len(), stored_before);
    assert_eq!(backend.active.len(), active_before);
}

/// Creating the same access point twice fails the second time with a
/// conflict.
#[test]
fn access_point_create_twice_conflicts() {
    let mut backend = fresh_backend(&["wlan0"]);
    let ap = ap_opts(Some("home"), Some("wlan0"), None, None).unwrap();
    assert_eq!(create_access_point(&mut backend, &ap), Ok(()));
    assert_eq!(create_access_point(&mut backend, &ap), Err(NmError::AlreadyExists));
}

/// After a successful delete, a status query for the same interface reports
/// that the connection does not exist.
#[test]
fn bond_delete_then_status_not_found() {
    let mut backend = fresh_backend(&["eth0", "eth1"]);
    let opts = bond_opts(Some("bond0"), &["eth0", "eth1"], None);
    assert_eq!(create_bond(&mut backend, &opts), Ok(()));
    assert_eq!(delete_bond(&mut backend, &opts), Ok(()));

    assert_eq!(
        bond_status(&opts, &backend.connections, &backend.active).unwrap_err(),
        NmError::NotFound
    );
    // the named slaves were deleted with the bond
    assert!(backend.connections.is_empty());
}

/// Deleting a bond that does not exist fails immediately.
#[test]
fn bond_delete_missing() {
    let mut backend = fresh_backend(&["eth0"]);
    let opts = bond_opts(Some("bond0"), &["eth0"], None);
    assert_eq!(delete_bond(&mut backend, &opts), Err(NmError::NotFound));
}

/// Access-point delete-then-status mirrors the bond behavior.
#[test]
fn access_point_delete_then_status_not_found() {
    let mut backend = fresh_backend(&["wlan0"]);
    let ap = ap_opts(Some("home"), Some("wlan0"), None, None).unwrap();
    assert_eq!(create_access_point(&mut backend, &ap), Ok(()));
    assert_eq!(delete_access_point(&mut backend, &ap), Ok(()));
    assert_eq!(
        access_point_status(&ap, &backend.connections, &backend.active).unwrap_err(),
        NmError::NotFound
    );
    assert_eq!(delete_access_point(&mut backend, &ap), Err(NmError::NotFound));
}

/// A slave interface already enslaved to another bond aborts the creation.
#[test]
fn bond_create_refuses_enslaved_interface() {
    let mut backend = fresh_backend(&["eth0", "eth1"]);
    let first = bond_opts(Some("bond0"), &["eth0"], None);
    assert_eq!(create_bond(&mut backend, &first), Ok(()));

    let second = bond_opts(Some("bond1"), &["eth0", "eth1"], None);
    assert_eq!(create_bond(&mut backend, &second), Err(NmError::InterfaceConflict));
}

/// An active standalone wired connection on a slave interface is deactivated
/// so that the new bond can take the device over.
#[test]
fn bond_create_deactivates_standalone_wired() {
    let mut backend = fresh_backend(&["eth0"]);
    let standalone = StoredConnection {
        handle: 100,
        profile: nutil::connection::create_wired_connection("eth0", MasterFilter::Unset),
    };
    backend.active.push(ActiveConnection {
        handle: 101,
        connection: standalone.clone(),
        state: ActivationState::Activated,
        ip4_addresses: Vec::new(),
    });
    backend.connections.push(standalone);
    backend.next_handle = 102;

    let opts = bond_opts(Some("bond0"), &["eth0"], None);
    assert_eq!(create_bond(&mut backend, &opts), Ok(()));
    assert!(!backend.active.iter().any(|a| a.handle == 101));
}

/// A slave whose backing device does not exist fails the creation before any
/// connection is added.
#[test]
fn bond_create_missing_device() {
    let mut backend = fresh_backend(&["eth0"]);
    let opts = bond_opts(Some("bond0"), &["eth0", "eth9"], None);
    assert_eq!(create_bond(&mut backend, &opts), Err(NmError::DeviceNotFound));
    assert!(backend.connections.is_empty());
}

/// Validation errors for each missing required field.
#[test]
fn validation_error_variants() {
    let mut backend = fresh_backend(&[]);
    assert_eq!(
        create_bond(&mut backend, &bond_opts(None, &["eth0"], None)),
        Err(NmError::MissingBondInterface)
    );
    assert_eq!(
        create_bond(&mut backend, &bond_opts(Some("bond0"), &[""], None)),
        Err(NmError::EmptySlaveName)
    );
    assert_eq!(
        create_bond(&mut backend, &bond_opts(Some("bond0"), &["eth0"], Some("10.0.0.1"))),
        Err(NmError::InvalidIp4Address)
    );
    let mut xor = bond_opts(Some("bond0"), &["eth0"], None);
    xor.bond_mode = BondMode::XOR;
    assert_eq!(create_bond(&mut backend, &xor), Err(NmError::UnsupportedBondMode));

    let ap = ap_opts(None, Some("wlan0"), None, None).unwrap();
    assert_eq!(create_access_point(&mut backend, &ap), Err(NmError::MissingSsid));
    let ap = ap_opts(Some("home"), None, None, None).unwrap();
    assert_eq!(
        create_access_point(&mut backend, &ap),
        Err(NmError::MissingWirelessInterface)
    );
    let sta = sta_opts(Some("home"), None, None, None).unwrap();
    assert_eq!(create_station(&mut backend, &sta), Err(NmError::MissingWirelessInterface));
    assert!(backend.connections.is_empty());
}

/// A bond created with a static address reports the manual method and the
/// address annotated as static.
#[test]
fn bond_status_static_address() {
    let mut backend = fresh_backend(&["eth0"]);
    let opts = bond_opts(Some("bond0"), &["eth0"], Some("10.0.0.1/24"));
    assert_eq!(create_bond(&mut backend, &opts), Ok(()));

    let status = bond_status(&opts, &backend.connections, &backend.active).unwrap();
    assert_eq!(status.ip4_method, Ip4Method::Manual);
    assert_eq!(status.addresses.len(), 1);
    assert_eq!(status.addresses[0].text, "10.0.0.1/24");
    assert_eq!(status.addresses[0].source, AddrSource::Static);
}

/// The access point defaults to the fixed private-use static address when no
/// address is given; the station defaults to DHCP.
#[test]
fn wireless_ip4_defaults() {
    let mut backend = fresh_backend(&["wlan0"]);
    let ap = ap_opts(Some("home"), Some("wlan0"), None, None).unwrap();
    assert_eq!(create_access_point(&mut backend, &ap), Ok(()));
    let status = access_point_status(&ap, &backend.connections, &backend.active).unwrap();
    assert_eq!(status.name, "home");
    assert_eq!(status.ip4_method, Ip4Method::Manual);
    assert_eq!(status.addresses[0].text, "192.0.2.1/24");

    let sta = sta_opts(Some("upstream"), Some("wlan0"), None, None).unwrap();
    assert_eq!(create_station(&mut backend, &sta), Ok(()));
    let sta_conn = backend
        .connections
        .iter()
        .find(|c| c.profile.id.as_deref() == Some("upstream"))
        .unwrap();
    assert_eq!(sta_conn.profile.ip4.unwrap().method, Ip4Method::Auto);
}

/// A connection that settles in a state other than activated fails the
/// creation with an activation error.
#[test]
fn bond_create_activation_failure() {
    let mut backend = BackendModel::new(
        vec!["eth0".to_string()],
        ActivationState::Activating,
        ActivationState::Deactivated,
    );
    let opts = bond_opts(Some("bond0"), &["eth0"], None);
    assert_eq!(create_bond(&mut backend, &opts), Err(NmError::ActivationFailed));
}

/// Driving the creation machine by hand against handcrafted answers reaches
/// the outcomes the model backend cannot produce: an added bond that never
/// shows up active, and a refused addition.
#[test]
fn bond_machine_handles_backend_refusals() {
    let opts = bond_opts(Some("bond0"), &["eth0"], None);

    // backend refuses the addition
    let (m, op) = nutil::bond::CreateBond::new(&opts).unwrap();
    assert!(matches!(op, BackendOp::ListConnections));
    let (m, op) = m.step(BackendEvent::Connections(Vec::new()));
    assert!(matches!(op, BackendOp::ListActiveConnections));
    let (m, op) = m.step(BackendEvent::ActiveConnections(Vec::new()));
    assert!(matches!(op, BackendOp::ListActiveConnections));
    let (m, op) = m.step(BackendEvent::ActiveConnections(Vec::new()));
    assert!(matches!(op, BackendOp::GetDevice(_)));
    let (m, op) = m.step(BackendEvent::Device(true));
    assert!(matches!(op, BackendOp::AddConnection(_)));
    let (_, op) = m.step(BackendEvent::Added(None));
    assert!(matches!(op, BackendOp::Finish(Err(NmError::BackendOperationFailed))));

    // the bond is added and its slave activated, but it never shows up as
    // active itself
    let (m, _) = nutil::bond::CreateBond::new(&opts).unwrap();
    let (m, _) = m.step(BackendEvent::Connections(Vec::new()));
    let (m, _) = m.step(BackendEvent::ActiveConnections(Vec::new()));
    let (m, _) = m.step(BackendEvent::ActiveConnections(Vec::new()));
    let (m, _) = m.step(BackendEvent::Device(true));
    let bond_stored = StoredConnection {
        handle: 1,
        profile: nutil::bond::create_bond_connection(&opts).unwrap(),
    };
    let (m, op) = m.step(BackendEvent::Added(Some(bond_stored)));
    let slave_stored = match &op {
        BackendOp::AddConnection(p) => StoredConnection { handle: 2, profile: p.clone() },
        other => panic!("unexpected request {:?}", other),
    };
    let (m, _) = m.step(BackendEvent::Added(Some(slave_stored.clone())));
    let slave_active = ActiveConnection {
        handle: 3,
        connection: slave_stored,
        state: ActivationState::Activated,
        ip4_addresses: Vec::new(),
    };
    let (m, op) = m.step(BackendEvent::Activated(Some(slave_active.clone())));
    assert!(matches!(op, BackendOp::ListActiveConnections));
    let (_, op) = m.step(BackendEvent::ActiveConnections(vec![slave_active]));
    assert!(matches!(op, BackendOp::Finish(Err(NmError::NotActive))));
}

/// A stored connection that matches the bond template but carries no IPv4
/// settings makes the status query fail on the missing settings.
#[test]
fn bond_status_missing_ip4_settings() {
    let opts = bond_opts(Some("bond0"), &["eth0"], None);
    let mut profile = nutil::bond::create_bond_connection(&opts).unwrap();
    profile.ip4 = None;
    let connections = vec![StoredConnection { handle: 7, profile }];
    assert_eq!(
        bond_status(&opts, &connections, &Vec::new()).unwrap_err(),
        NmError::NoIp4Settings
    );
}

/// Each error variant renders its fixed message.
#[test]
fn error_messages() {
    assert_eq!(
        NmError::PasswordTooShort.describe(),
        "Password must be 8 chars or longer"
    );
    assert_eq!(NmError::AlreadyExists.describe(), "Connection already exists");
    assert_eq!(
        NmError::MissingBondInterface.describe(),
        "Required bond interface not specified"
    );
}

/// The bond mode label exists only for the implemented mode.
#[test]
fn bond_mode_labels() {
    assert_eq!(bond_mode_label(BondMode::ActiveBackup), Some("active-backup"));
    assert_eq!(bond_mode_label(BondMode::RoundRobin), None);
    assert_eq!(bond_mode_from_name("ActiveBackup"), Some(BondMode::ActiveBackup));
    assert_eq!(bond_mode_from_name("XOR"), Some(BondMode::XOR));
    assert_eq!(bond_mode_from_name("bogus"), None);
}
