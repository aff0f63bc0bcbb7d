use nutil::bond::BondMode;
use nutil::connection::{
    get_connection_state_str, matching_bond_connection, matching_wifi_connection,
    matching_wired_connection, wait_for_connection_to_activate, ActivationState, ActiveConnection,
    BondSettings, ConnectionKind, ConnectionProfile, Ip4Method, Ip4Settings, MasterFilter,
    StoredConnection, WifiMode, WifiSettings,
};
use nutil::error::NmError;
use nutil::util::default_ip4_addr;

const TEST_ID: &str = "test_id";
const TEST_IFNAME: &str = "test_ifname";
const TEST_MASTER_IFNAME: &str = "test_master_ifname";
const TEST_SSID: &str = "test_ssid";
const TEST_PASSWORD: &str = "test_password";

/// Creates a profile with the base connection fields initialized to test
/// values and no connection type yet.
fn create_base_connection() -> ConnectionProfile {
    ConnectionProfile {
        kind: None,
        id: Some(TEST_ID.to_string()),
        interface_name: Some(TEST_IFNAME.to_string()),
        autoconnect: false,
        master: MasterFilter::Unset,
        slave_type: None,
        bond: None,
        wifi: None,
        ip4: Some(Ip4Settings { method: Ip4Method::Manual, address: Some(default_ip4_addr()) }),
    }
}

fn create_bond_connection() -> ConnectionProfile {
    let mut connection = create_base_connection();
    connection.kind = Some(ConnectionKind::Bond);
    connection.bond = Some(BondSettings { mode: BondMode::ActiveBackup, miimon_ms: 100 });
    connection
}

fn create_wired_connection() -> ConnectionProfile {
    let mut connection = create_base_connection();
    connection.kind = Some(ConnectionKind::Wired);
    connection.master = MasterFilter::Named(TEST_MASTER_IFNAME.to_string());
    connection.slave_type = Some(ConnectionKind::Bond);
    connection
}

fn create_wifi_connection() -> ConnectionProfile {
    let mut connection = create_base_connection();
    connection.kind = Some(ConnectionKind::Wifi);
    connection.wifi = Some(WifiSettings {
        mode: None,
        ssid: Some(TEST_SSID.to_string()),
        psk: Some(TEST_PASSWORD.to_string()),
    });
    connection
}

fn create_ap_connection() -> ConnectionProfile {
    let mut conn = create_wifi_connection();
    conn.wifi.as_mut().unwrap().mode = Some(WifiMode::AccessPoint);
    conn
}

fn create_sta_connection() -> ConnectionProfile {
    let mut conn = create_wifi_connection();
    conn.wifi.as_mut().unwrap().mode = Some(WifiMode::Infrastructure);
    conn
}

#[test]
fn compare_bond_conns_conn_type() {
    // 1. All bond connection fields same, expect pass
    //    (covers all equal field test cases as nothing is changed)
    let base_conn = create_bond_connection();
    let cmp_conn = create_bond_connection();
    assert!(matching_bond_connection(&base_conn, &cmp_conn));

    // 2. Base has different type, expect fail
    let base_conn = create_sta_connection();
    let cmp_conn = create_bond_connection();
    assert!(!matching_bond_connection(&base_conn, &cmp_conn));

    // 3. Compare has different type, expect fail
    let base_conn = create_bond_connection();
    let cmp_conn = create_sta_connection();
    assert!(!matching_bond_connection(&base_conn, &cmp_conn));
}

#[test]
fn compare_bond_conns_ifnames() {
    // 1. No base interface name, should pass as matching
    //    function should ignore this field when None
    let mut base_conn = create_bond_connection();
    let cmp_conn = create_bond_connection();
    base_conn.interface_name = None;
    assert!(matching_bond_connection(&base_conn, &cmp_conn));

    // 2. Different base interface name, should fail
    let mut base_conn = create_bond_connection();
    let cmp_conn = create_bond_connection();
    base_conn.interface_name = Some("wrong_ifname".to_string());
    assert!(!matching_bond_connection(&base_conn, &cmp_conn));

    // 3. Different compare interface name, should fail
    let base_conn = create_bond_connection();
    let mut cmp_conn = create_bond_connection();
    cmp_conn.interface_name = Some("wrong_ifname".to_string());
    assert!(!matching_bond_connection(&base_conn, &cmp_conn));
}

#[test]
fn compare_wired_conns_conn_type() {
    // 1. All wired connection fields same, expect pass
    let base_conn = create_wired_connection();
    let cmp_conn = create_wired_connection();
    assert!(matching_wired_connection(&base_conn, &cmp_conn));

    // 2. Base has different type, expect fail
    let base_conn = create_sta_connection();
    let cmp_conn = create_wired_connection();
    assert!(!matching_wired_connection(&base_conn, &cmp_conn));

    // 3. Compare has different type, expect fail
    let base_conn = create_wired_connection();
    let cmp_conn = create_sta_connection();
    assert!(!matching_wired_connection(&base_conn, &cmp_conn));
}

#[test]
fn compare_wired_conns_ifnames() {
    // 1. No base interface name, should pass as matching
    //    function should ignore this field when None
    let mut base_conn = create_wired_connection();
    let cmp_conn = create_wired_connection();
    base_conn.interface_name = None;
    assert!(matching_wired_connection(&base_conn, &cmp_conn));

    // 2. Different base interface name, should fail
    let mut base_conn = create_wired_connection();
    let cmp_conn = create_wired_connection();
    base_conn.interface_name = Some("wrong_ifname".to_string());
    assert!(!matching_wired_connection(&base_conn, &cmp_conn));

    // 3. Different compare interface name, should fail
    let base_conn = create_wired_connection();
    let mut cmp_conn = create_wired_connection();
    cmp_conn.interface_name = Some("wrong_ifname".to_string());
    assert!(!matching_wired_connection(&base_conn, &cmp_conn));
}

#[test]
fn compare_wifi_conns_wireless_settings() {
    // 1. All wifi connection fields same, expect pass
    let base_conn = create_ap_connection();
    let cmp_conn = create_ap_connection();
    assert!(matching_wifi_connection(&base_conn, &cmp_conn));

    // 2. No base conn wireless settings, expect fail
    let base_conn = create_base_connection();
    let cmp_conn = create_ap_connection();
    assert!(!matching_wifi_connection(&base_conn, &cmp_conn));

    // 3. No cmp conn wireless settings, expect fail
    let base_conn = create_ap_connection();
    let cmp_conn = create_base_connection();
    assert!(!matching_wifi_connection(&base_conn, &cmp_conn));
}

#[test]
fn compare_wifi_conns_ifnames() {
    // 1. No base interface name, should pass as matching
    //    function should ignore this field when None
    let mut base_conn = create_ap_connection();
    let cmp_conn = create_ap_connection();
    base_conn.interface_name = None;
    assert!(matching_wifi_connection(&base_conn, &cmp_conn));

    // 2. Different base interface name, should fail
    let mut base_conn = create_ap_connection();
    let cmp_conn = create_ap_connection();
    base_conn.interface_name = Some("wrong_ifname".to_string());
    assert!(!matching_wifi_connection(&base_conn, &cmp_conn));

    // 3. Different compare interface name, should fail
    let base_conn = create_ap_connection();
    let mut cmp_conn = create_ap_connection();
    cmp_conn.interface_name = Some("wrong_ifname".to_string());
    assert!(!matching_wifi_connection(&base_conn, &cmp_conn));
}

#[test]
fn compare_wifi_mode() {
    // 1. Different base mode, should fail
    let base_conn = create_ap_connection();
    let cmp_conn = create_sta_connection();
    assert!(!matching_wifi_connection(&base_conn, &cmp_conn));

    // 2. Different cmp mode, should fail
    let base_conn = create_sta_connection();
    let cmp_conn = create_ap_connection();
    assert!(!matching_wifi_connection(&base_conn, &cmp_conn));
}

#[test]
fn compare_wifi_ssid() {
    // 1. No SSID, should pass as matching function
    //    should ignore this field when None
    let mut base_conn = create_ap_connection();
    let cmp_conn = create_ap_connection();
    base_conn.wifi.as_mut().unwrap().ssid = None;
    assert!(matching_wifi_connection(&base_conn, &cmp_conn));

    // 2. Different base SSID, should fail
    let mut base_conn = create_ap_connection();
    let cmp_conn = create_ap_connection();
    base_conn.wifi.as_mut().unwrap().ssid = Some("wrong_ssid".to_string());
    assert!(!matching_wifi_connection(&base_conn, &cmp_conn));

    // 3. Different cmp SSID, should fail
    let base_conn = create_ap_connection();
    let mut cmp_conn = create_ap_connection();
    cmp_conn.wifi.as_mut().unwrap().ssid = Some("wrong_ssid".to_string());
    assert!(!matching_wifi_connection(&base_conn, &cmp_conn));
}

/// The "ANY" master wildcard accepts any enslaved candidate, but not a
/// standalone one; a named master must be equal.
#[test]
fn compare_wired_master_linkage() {
    let mut any_template = create_wired_connection();
    any_template.master = MasterFilter::Any;
    let enslaved = create_wired_connection();
    assert!(matching_wired_connection(&any_template, &enslaved));

    let mut standalone = create_wired_connection();
    standalone.master = MasterFilter::Unset;
    standalone.slave_type = None;
    assert!(!matching_wired_connection(&any_template, &standalone));

    let mut other_master = create_wired_connection();
    other_master.master = MasterFilter::Named("another_bond".to_string());
    assert!(matching_wired_connection(&any_template, &other_master));
    assert!(!matching_wired_connection(&enslaved, &other_master));

    // absence must agree on both sides
    assert!(!matching_wired_connection(&standalone, &enslaved));
    assert!(!matching_wired_connection(&enslaved, &standalone));
    assert!(matching_wired_connection(&standalone, &standalone.clone()));
}

#[test]
fn connection_state_words() {
    assert_eq!(get_connection_state_str(ActivationState::Activated), "activated");
    assert_eq!(get_connection_state_str(ActivationState::Activating), "activating");
    assert_eq!(get_connection_state_str(ActivationState::Deactivated), "deactivated");
    assert_eq!(get_connection_state_str(ActivationState::Deactivating), "deactivating");
    assert_eq!(get_connection_state_str(ActivationState::Unknown), "unknown");
}

#[test]
fn activation_wait_outcomes() {
    let stored = StoredConnection { handle: 1, profile: create_bond_connection() };
    let mut active = ActiveConnection {
        handle: 2,
        connection: stored,
        state: ActivationState::Activated,
        ip4_addresses: Vec::new(),
    };

    // already activated: no event consulted
    assert_eq!(wait_for_connection_to_activate(&active, &Vec::new()), Ok(()));

    active.state = ActivationState::Activating;
    let events = vec![ActivationState::Activating, ActivationState::Activated];
    assert_eq!(wait_for_connection_to_activate(&active, &events), Ok(()));

    let events = vec![ActivationState::Activating, ActivationState::Deactivating];
    assert_eq!(
        wait_for_connection_to_activate(&active, &events),
        Err(NmError::ActivationFailed)
    );
}
