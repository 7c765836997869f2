use aes67_rs::ptp4l::{
    ClockServo, Config, DelayFilter, DelayMechanism, GlobalConfig, NetworkTransport, TimeStamping,
    TsProcMode,
};

fn line(key: &str, value: &str) -> String {
    format!("{key:<24}{value}\n")
}

#[test]
fn empty_config_is_global_header_only() {
    let config = Config::default();
    assert_eq!(config.to_string(), "[global]\n");
}

#[test]
fn value_names() {
    assert_eq!(TimeStamping::Hardware.to_string(), "hardware");
    assert_eq!(TimeStamping::Software.to_string(), "software");
    assert_eq!(TimeStamping::Legacy.to_string(), "legacy");
    assert_eq!(NetworkTransport::UdpV4.to_string(), "UDPv4");
    assert_eq!(NetworkTransport::UdpV6.to_string(), "UDPv6");
    assert_eq!(NetworkTransport::L2.to_string(), "L2");
    assert_eq!(DelayMechanism::E2E.to_string(), "E2E");
    assert_eq!(DelayMechanism::P2P.to_string(), "P2P");
    assert_eq!(ClockServo::Pi.to_string(), "pi");
    assert_eq!(ClockServo::LinReg.to_string(), "linreg");
    assert_eq!(TsProcMode::Filter.to_string(), "filter");
    assert_eq!(TsProcMode::Raw.to_string(), "raw");
    assert_eq!(DelayFilter::MovingMedian.to_string(), "moving_median");
    assert_eq!(DelayFilter::MovingAverage.to_string(), "moving_average");
}

#[test]
fn set_settings_render_in_order() {
    let global = GlobalConfig {
        client_only: Some(1),
        priority1: Some(128),
        clock_accuracy: Some(0xFE),
        offset_scaled_log_variance: Some(0xFFFF),
        log_sync_interval: Some(-3),
        delay_asymmetry: Some(-120),
        transport_specific: Some(1),
        network_transport: Some(NetworkTransport::UdpV4),
        time_stamping: Some(TimeStamping::Hardware),
        clock_servo: Some(ClockServo::LinReg),
        max_frequency: Some(900000000),
        step_threshold: Some("0.00002".to_owned()),
        delay_filter_length: Some(10),
        uds_address: Some("/tmp/ptp4l".to_owned()),
        summary_interval: Some(0),
        verbose: Some(1),
        ..GlobalConfig::default()
    };
    let config = Config { global };
    let expected = String::from("[global]\n")
        + &line("clientOnly", "1")
        + &line("priority1", "128")
        + &line("clockAccuracy", "0xFE")
        + &line("offsetScaledLogVariance", "0xFFFF")
        + &line("logSyncInterval", "-3")
        + &line("delayAsymmetry", "-120")
        + &line("transportSpecific", "0x01")
        + &line("network_transport", "UDPv4")
        + &line("time_stamping", "hardware")
        + &line("clock_servo", "linreg")
        + &line("max_frequency", "900000000")
        + &line("step_threshold", "0.00002")
        + &line("delay_filter_length", "10")
        + &line("uds_address", "/tmp/ptp4l")
        + &line("summary_interval", "0")
        + &line("verbose", "1");
    assert_eq!(config.to_string(), expected);
}

#[test]
fn small_hex_values_are_zero_padded() {
    let global = GlobalConfig {
        clock_accuracy: Some(0x5),
        offset_scaled_log_variance: Some(0x4E5D),
        ..GlobalConfig::default()
    };
    let config = Config { global };
    assert_eq!(
        config.to_string(),
        String::from("[global]\n") + &line("clockAccuracy", "0x05") + &line("offsetScaledLogVariance", "0x4E5D")
    );
}

#[test]
fn longest_key_keeps_one_space() {
    let global = GlobalConfig { offset_scaled_log_variance: Some(0x0001), ..GlobalConfig::default() };
    let text = Config { global }.to_string();
    assert_eq!(text, "[global]\noffsetScaledLogVariance 0x0001\n");
}

#[test]
fn interface_sections_follow_global() {
    let config = Config { global: GlobalConfig { domain_number: Some(0), ..GlobalConfig::default() } };
    let interfaces = vec!["eth0".to_owned(), "eth1".to_owned()];
    let text = config.display_with_interfaces(&interfaces);
    assert_eq!(text, config.to_string() + "\n[eth0]\n[eth1]");
    assert_eq!(text, String::from("[global]\n") + &line("domainNumber", "0") + "\n[eth0]\n[eth1]");
}

#[test]
fn fmt_config_without_interfaces_matches_to_string() {
    let global = GlobalConfig { verbose: Some(0), ..GlobalConfig::default() };
    let config = Config { global: global.clone() };
    assert_eq!(aes67_rs::ptp4l::fmt_config(&global, &[]), config.to_string());
}
