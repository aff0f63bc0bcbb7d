use nutil::access_point::AccessPointOpts;
use nutil::bond::{BondMode, BondOpts};
use nutil::cli::{AccessPointArgs, StationArgs};
use nutil::station::StationOpts;

fn yaml_str(doc: &serde_yaml::Value, key: &str) -> Option<String> {
    match doc.get(key) {
        Some(serde_yaml::Value::String(s)) => Some(s.clone()),
        _ => None,
    }
}

fn yaml_str_list(doc: &serde_yaml::Value, key: &str) -> Vec<String> {
    match doc.get(key) {
        Some(serde_yaml::Value::Sequence(items)) => items
            .iter()
            .filter_map(|v| match v {
                serde_yaml::Value::String(s) => Some(s.clone()),
                _ => None,
            })
            .collect(),
        _ => Vec::new(),
    }
}

/// The bond mode name in a config document: either a `!Tag` or a plain
/// string, the latter standing for a name that never matches a mode.
fn yaml_mode_name(doc: &serde_yaml::Value, key: &str) -> Option<String> {
    match doc.get(key) {
        Some(serde_yaml::Value::Tagged(tagged)) => {
            let tag = tagged.tag.to_string();
            Some(tag.trim_start_matches('!').to_string())
        }
        Some(serde_yaml::Value::String(s)) => Some(s.clone()),
        _ => None,
    }
}

fn parse_bond_opts(config: &str) -> Result<BondOpts, nutil::error::NmError> {
    let doc: serde_yaml::Value = serde_yaml::from_str(config).unwrap();
    BondOpts::from_config_fields(
        yaml_str(&doc, "bond_interface"),
        yaml_mode_name(&doc, "bond_mode"),
        yaml_str_list(&doc, "slave_interfaces"),
        yaml_str(&doc, "ip4_addr"),
    )
}

fn parse_access_point_opts(config: &str) -> Result<AccessPointOpts, nutil::error::NmError> {
    let doc: serde_yaml::Value = serde_yaml::from_str(config).unwrap();
    let args = AccessPointArgs {
        ssid: yaml_str(&doc, "ssid"),
        wireless_ifname: yaml_str(&doc, "wireless_interface"),
        ip4_addr: yaml_str(&doc, "ip4_addr"),
        password: yaml_str(&doc, "password"),
    };
    AccessPointOpts::from_args(args, true)
}

fn parse_station_opts(config: &str) -> Result<StationOpts, nutil::error::NmError> {
    let doc: serde_yaml::Value = serde_yaml::from_str(config).unwrap();
    let args = StationArgs {
        ssid: yaml_str(&doc, "ssid"),
        wireless_ifname: yaml_str(&doc, "wireless_interface"),
        password: yaml_str(&doc, "password"),
        ip4_addr: yaml_str(&doc, "ip4_addr"),
    };
    StationOpts::from_args(args, true)
}

#[test]
fn no_bond_ifname() {
    let cfg = "
            bond_mode: !ActiveBackup
            slave_interfaces:
                - enp2s0
        ";

    let opts = parse_bond_opts(cfg).unwrap();
    assert!(opts.bond_ifname.is_none());
}

#[test]
fn empty_bond_ifname() {
    let cfg = "
            bond_interface: \"\"
            bond_mode: !ActiveBackup
            slave_interfaces:
                - enp2s0
        ";

    let opts = parse_bond_opts(cfg).unwrap();
    assert!(opts.bond_ifname.is_none());
}

// Expect to default to BondMode default
#[test]
fn no_bond_mode() {
    let cfg = "
            bond_interface: bond0
            slave_interfaces:
                - enp2s0
        ";
    let default_mode: BondMode = Default::default();

    let opts = parse_bond_opts(cfg).unwrap();
    assert_eq!(opts.bond_mode, default_mode);
}

#[test]
#[should_panic]
fn empty_bond_mode() {
    let cfg = "
            bond_interface: bond0
            bond_mode: \"\"
            slave_interfaces:
                - enp2s0
        ";

    parse_bond_opts(cfg).unwrap();
}

#[test]
#[should_panic]
fn unexpected_bond_mode() {
    let cfg = "
            bond_interface: bond0
            bond_mode: !UnexpectedMode
            slave_interfaces:
                - enp2s0
        ";

    parse_bond_opts(cfg).unwrap();
}

#[test]
fn no_bond_slave_interfaces() {
    let cfg = "
            bond_interface: bond0
            bond_mode: !ActiveBackup
        ";

    let opts = parse_bond_opts(cfg).unwrap();
    assert!(opts.slave_ifnames.is_empty());
}

#[test]
fn empty_slave_interfaces() {
    let cfg = "
            bond_interface: bond0
            bond_mode: !ActiveBackup
            slave_interfaces:
        ";

    let opts = parse_bond_opts(cfg).unwrap();
    assert!(opts.slave_ifnames.is_empty());
}

#[test]
fn access_point_no_wireless_interface() {
    let cfg = "
            ssid: \"test_ssid\"
            password: \"test_password\"
            ip4_addr: \"172.16.0.1/24\"
        ";

    let opts = parse_access_point_opts(cfg).unwrap();
    assert!(opts.wireless_ifname.is_none());
}

#[test]
fn access_point_empty_wireless_interface() {
    let cfg = "
            wireless_interface: \"\"
            ssid: \"test_ssid\"
            password: \"test_password\"
            ip4_addr: \"172.16.0.1/24\"
        ";

    let opts = parse_access_point_opts(cfg).unwrap();
    assert!(opts.wireless_ifname.is_none());
}

#[test]
fn access_point_no_ssid() {
    let cfg = "
            wireless_interface: \"test_interface\"
            password: \"test_password\"
            ip4_addr: \"172.16.0.1/24\"
        ";

    let opts = parse_access_point_opts(cfg).unwrap();
    assert!(opts.ssid.is_none());
}

#[test]
fn access_point_empty_ssid() {
    let cfg = "
            wireless_interface: \"test_interface\"
            ssid: \"\"
            password: \"test_password\"
            ip4_addr: \"172.16.0.1/24\"
        ";

    let opts = parse_access_point_opts(cfg).unwrap();
    assert!(opts.ssid.is_none());
}

#[test]
fn access_point_no_password() {
    let cfg = "
            wireless_interface: \"test_interface\"
            ssid: \"test_ssid\"
            ip4_addr: \"172.16.0.1/24\"
        ";

    let opts = parse_access_point_opts(cfg).unwrap();
    assert!(opts.password.is_none())
}

#[test]
fn access_point_empty_password() {
    let cfg = "
            wireless_interface: \"test_interface\"
            ssid: \"test_ssid\"
            password: \"\"
            ip4_addr: \"172.16.0.1/24\"
        ";

    let opts = parse_access_point_opts(cfg).unwrap();
    assert!(opts.password.is_none())
}

#[test]
#[should_panic]
fn access_point_less_than_8_char_password() {
    let cfg = "
            wireless_interface: \"test_interface\"
            ssid: \"test_ssid\"
            password: \"123\"
            ip4_addr: \"172.16.0.1/24\"
        ";

    parse_access_point_opts(cfg).unwrap();
}

// Make sure use default address/subnet when no ip4_addr specified
#[test]
fn access_point_no_ip4_addr() {
    let cfg = "
            wireless_interface: \"test_interface\"
            ssid: \"test_ssid\"
            password: \"test_password\"
        ";

    let opts = parse_access_point_opts(cfg).unwrap();
    assert!(opts.ip4_addr.is_none());
}

#[test]
#[should_panic]
fn access_point_empty_ip4_addr() {
    let cfg = "
            wireless_interface: \"test_interface\"
            ssid: \"test_ssid\"
            password: \"123\"
            ip4_addr: \"\"
        ";

    parse_access_point_opts(cfg).unwrap();
}

#[test]
fn station_no_wireless_interface() {
    let cfg = "
            ssid: \"test_ssid\"
            password: \"test_password\"
            ip4_addr: \"172.16.0.1/24\"
        ";

    let opts = parse_station_opts(cfg).unwrap();
    assert!(opts.wireless_ifname.is_none());
}

#[test]
fn station_empty_wireless_interface() {
    let cfg = "
            wireless_interface: \"\"
            ssid: \"test_ssid\"
            password: \"test_password\"
            ip4_addr: \"172.16.0.1/24\"
        ";

    let opts = parse_station_opts(cfg).unwrap();
    assert!(opts.wireless_ifname.is_none());
}

#[test]
fn station_no_ssid() {
    let cfg = "
            wireless_interface: \"test_interface\"
            password: \"test_password\"
            ip4_addr: \"172.16.0.1/24\"
        ";

    let opts = parse_station_opts(cfg).unwrap();
    assert!(opts.ssid.is_none());
}

#[test]
fn station_empty_ssid() {
    let cfg = "
            wireless_interface: \"test_interface\"
            ssid: \"\"
            password: \"test_password\"
            ip4_addr: \"172.16.0.1/24\"
        ";

    let opts = parse_station_opts(cfg).unwrap();
    assert!(opts.ssid.is_none());
}

#[test]
fn station_no_password() {
    let cfg = "
            wireless_interface: \"test_interface\"
            ssid: \"test_ssid\"
            ip4_addr: \"172.16.0.1/24\"
        ";

    let opts = parse_station_opts(cfg).unwrap();
    assert!(opts.password.is_none())
}

#[test]
fn station_empty_password() {
    let cfg = "
            wireless_interface: \"test_interface\"
            ssid: \"test_ssid\"
            password: \"\"
            ip4_addr: \"172.16.0.1/24\"
        ";

    let opts = parse_station_opts(cfg).unwrap();
    assert!(opts.password.is_none())
}

#[test]
#[should_panic]
fn station_less_than_8_char_password() {
    let cfg = "
            wireless_interface: \"test_interface\"
            ssid: \"test_ssid\"
            password: \"123\"
            ip4_addr: \"172.16.0.1/24\"
        ";

    parse_station_opts(cfg).unwrap();
}

#[test]
fn station_no_ip4_addr() {
    let cfg = "
            wireless_interface: \"test_interface\"
            ssid: \"test_ssid\"
            password: \"test_password\"
        ";

    let opts = parse_station_opts(cfg).unwrap();
    assert!(opts.ip4_addr.is_none());
}

#[test]
#[should_panic]
fn station_empty_ip4_addr() {
    let cfg = "
            wireless_interface: \"test_interface\"
            ssid: \"test_ssid\"
            password: \"123\"
            ip4_addr: \"\"
        ";

    parse_station_opts(cfg).unwrap();
}

#[test]
fn bond_args_dedup_slaves() {
    let opts = BondOpts::from_args(nutil::cli::BondArgs {
        ifname: Some("bond0".to_string()),
        bond_mode: None,
        ip4_addr: None,
        slave_ifnames: vec![
            "eth0".to_string(),
            "eth1".to_string(),
            "eth0".to_string(),
        ],
    });
    assert_eq!(opts.slave_ifnames, vec!["eth0".to_string(), "eth1".to_string()]);
    assert_eq!(opts.bond_mode, BondMode::ActiveBackup);
}

#[test]
fn unknown_bond_mode_is_reported() {
    let r = BondOpts::from_config_fields(
        Some("bond0".to_string()),
        Some("Bogus".to_string()),
        Vec::new(),
        None,
    );
    assert_eq!(r.unwrap_err(), nutil::error::NmError::UnknownBondMode);
}
