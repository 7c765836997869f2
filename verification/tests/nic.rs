use aes67_rs::address::IpAddress;
use aes67_rs::error::ConfigError;
use aes67_rs::nic::{find_nic_for_ip, find_nic_with_name, phc_device_from_ethtool};

const ETHTOOL_OUTPUT: &str = "Time stamping parameters for enp1s0:
Capabilities:
\thardware-transmit
\tsoftware-transmit
\thardware-receive
PTP Hardware Clock: 0
Hardware timestamp provider index: 3
Hardware Transmit Timestamp Modes:
\toff
\ton
";

#[test]
fn phc_device_found_in_ethtool_output() {
    assert_eq!(phc_device_from_ethtool(ETHTOOL_OUTPUT), Some("/dev/ptp3".to_owned()));
}

#[test]
fn phc_index_is_trimmed_and_may_carry_a_plus() {
    assert_eq!(
        phc_device_from_ethtool("Hardware timestamp provider index:   +12  \r\n"),
        Some("/dev/ptp12".to_owned())
    );
}

#[test]
fn no_phc_without_an_index_line() {
    assert_eq!(phc_device_from_ethtool("PTP Hardware Clock: none\n"), None);
    assert_eq!(phc_device_from_ethtool(""), None);
    // an index that is not a number is passed over
    assert_eq!(
        phc_device_from_ethtool("Hardware timestamp provider index: none\nHardware timestamp provider index: 1\n"),
        Some("/dev/ptp1".to_owned())
    );
    assert_eq!(phc_device_from_ethtool("Hardware timestamp provider index: 4294967296\n"), None);
}

#[test]
fn interface_found_by_name() {
    let names = vec!["lo".to_owned(), "eth0".to_owned(), "eth0".to_owned()];
    assert_eq!(find_nic_with_name(&names, &"eth0".to_owned()), Ok(1));
    assert_eq!(
        find_nic_with_name(&names, &"wlan0".to_owned()),
        Err(ConfigError::NoSuchNIC("wlan0".to_owned()))
    );
}

#[test]
fn interface_found_by_address() {
    let ips = vec![
        vec![IpAddress::V4(0x7F00_0001)],
        vec![IpAddress::V6(1), IpAddress::V4(0xC0A8_0114)],
    ];
    assert_eq!(find_nic_for_ip(&ips, IpAddress::V4(0xC0A8_0114), "192.168.1.20".to_owned()), Ok(1));
    assert_eq!(
        find_nic_for_ip(&ips, IpAddress::V4(0x0A00_0001), "10.0.0.1".to_owned()),
        Err(ConfigError::NoSuchNIC("10.0.0.1".to_owned()))
    );
}
