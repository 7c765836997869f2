//! The configuration file of the `ptp4l` daemon: its settings and their rendering as the
//! text that `ptp4l -f <file>` reads.

use crate::text::{
    decimal_digits, hex_prefixed, owned, pad_right, push_char, push_decimal, push_hex_prefixed,
    push_padded, push_signed_decimal, push_str, signed_decimal,
};
use vstd::prelude::*;

verus! {

/// Where timestamps come from.
#[derive(Debug, Clone, Copy, PartialEq, Eq, Structural)]
pub enum TimeStamping {
    Hardware,
    Software,
    Legacy,
}

/// The transport of PTP messages.
#[derive(Debug, Clone, Copy, PartialEq, Eq, Structural)]
pub enum NetworkTransport {
    UdpV4,
    UdpV6,
    L2,
}

/// How the path delay is measured.
#[derive(Debug, Clone, Copy, PartialEq, Eq, Structural)]
pub enum DelayMechanism {
    E2E,
    P2P,
}

/// The clock servo.
#[derive(Debug, Clone, Copy, PartialEq, Eq, Structural)]
pub enum ClockServo {
    Pi,
    LinReg,
}

/// How timestamps are processed.
#[derive(Debug, Clone, Copy, PartialEq, Eq, Structural)]
pub enum TsProcMode {
    Filter,
    Raw,
}

/// The filter applied to delay measurements.
#[derive(Debug, Clone, Copy, PartialEq, Eq, Structural)]
pub enum DelayFilter {
    MovingMedian,
    MovingAverage,
}

impl TimeStamping {
    pub open spec fn text(self) -> Seq<char> {
        match self {
            TimeStamping::Hardware => "hardware"@,
            TimeStamping::Software => "software"@,
            TimeStamping::Legacy => "legacy"@,
        }
    }

    /// The value's name in a ptp4l configuration.
    pub fn to_string(&self) -> (r: String)
        ensures
            r@ == self.text(),
    {
        match self {
            TimeStamping::Hardware => owned("hardware"),
            TimeStamping::Software => owned("software"),
            TimeStamping::Legacy => owned("legacy"),
        }
    }
}

impl NetworkTransport {
    pub open spec fn text(self) -> Seq<char> {
        match self {
            NetworkTransport::UdpV4 => "UDPv4"@,
            NetworkTransport::UdpV6 => "UDPv6"@,
            NetworkTransport::L2 => "L2"@,
        }
    }

    /// The value's name in a ptp4l configuration.
    pub fn to_string(&self) -> (r: String)
        ensures
            r@ == self.text(),
    {
        match self {
            NetworkTransport::UdpV4 => owned("UDPv4"),
            NetworkTransport::UdpV6 => owned("UDPv6"),
            NetworkTransport::L2 => owned("L2"),
        }
    }
}

impl DelayMechanism {
    pub open spec fn text(self) -> Seq<char> {
        match self {
            DelayMechanism::E2E => "E2E"@,
            DelayMechanism::P2P => "P2P"@,
        }
    }

    /// The value's name in a ptp4l configuration.
    pub fn to_string(&self) -> (r: String)
        ensures
            r@ == self.text(),
    {
        match self {
            DelayMechanism::E2E => owned("E2E"),
            DelayMechanism::P2P => owned("P2P"),
        }
    }
}

impl ClockServo {
    pub open spec fn text(self) -> Seq<char> {
        match self {
            ClockServo::Pi => "pi"@,
            ClockServo::LinReg => "linreg"@,
        }
    }

    /// The value's name in a ptp4l configuration.
    pub fn to_string(&self) -> (r: String)
        ensures
            r@ == self.text(),
    {
        match self {
            ClockServo::Pi => owned("pi"),
            ClockServo::LinReg => owned("linreg"),
        }
    }
}

impl TsProcMode {
    pub open spec fn text(self) -> Seq<char> {
        match self {
            TsProcMode::Filter => "filter"@,
            TsProcMode::Raw => "raw"@,
        }
    }

    /// The value's name in a ptp4l configuration.
    pub fn to_string(&self) -> (r: String)
        ensures
            r@ == self.text(),
    {
        match self {
            TsProcMode::Filter => owned("filter"),
            TsProcMode::Raw => owned("raw"),
        }
    }
}

impl DelayFilter {
    pub open spec fn text(self) -> Seq<char> {
        match self {
            DelayFilter::MovingMedian => "moving_median"@,
            DelayFilter::MovingAverage => "moving_average"@,
        }
    }

    /// The value's name in a ptp4l configuration.
    pub fn to_string(&self) -> (r: String)
        ensures
            r@ == self.text(),
    {
        match self {
            DelayFilter::MovingMedian => owned("moving_median"),
            DelayFilter::MovingAverage => owned("moving_average"),
        }
    }
}

/// The settings of the `[global]` section. Unset settings are left out of the file, and
/// ptp4l uses its own defaults for them. The step thresholds are held as the decimal text
/// of their number of seconds, the socket addresses as the text of their paths.
#[derive(Debug, Clone, Default)]
pub struct GlobalConfig {
    pub two_step_flag: Option<u8>,
    pub client_only: Option<u8>,
    pub priority1: Option<u8>,
    pub priority2: Option<u8>,
    pub domain_number: Option<u8>,
    pub clock_class: Option<u8>,
    pub clock_accuracy: Option<u8>,
    pub offset_scaled_log_variance: Option<u16>,
    pub log_announce_interval: Option<i8>,
    pub log_sync_interval: Option<i8>,
    pub log_min_delay_req_interval: Option<i8>,
    pub announce_receipt_timeout: Option<u8>,
    pub delay_asymmetry: Option<i64>,
    pub transport_specific: Option<u8>,
    pub network_transport: Option<NetworkTransport>,
    pub delay_mechanism: Option<DelayMechanism>,
    pub time_stamping: Option<TimeStamping>,
    pub clock_servo: Option<ClockServo>,
    pub max_frequency: Option<u64>,
    pub step_threshold: Option<String>,
    pub first_step_threshold: Option<String>,
    pub tsproc_mode: Option<TsProcMode>,
    pub delay_filter: Option<DelayFilter>,
    pub delay_filter_length: Option<u32>,
    pub tx_timestamp_timeout: Option<u32>,
    pub uds_address: Option<String>,
    pub uds_ro_address: Option<String>,
    pub logging_level: Option<u8>,
    pub summary_interval: Option<i32>,
    pub use_syslog: Option<u8>,
    pub verbose: Option<u8>,
}

/// A ptp4l configuration: the `[global]` section.
#[derive(Debug, Clone, Default)]
pub struct Config {
    pub global: GlobalConfig,
}

/// The column in which a setting's value starts.
pub const KEY_WIDTH: usize = 24;

/// One line of a setting: the key padded to [`KEY_WIDTH`] characters, the value, a newline.
pub open spec fn setting(key: Seq<char>, value: Seq<char>) -> Seq<char> {
    pad_right(key, KEY_WIDTH as nat) + value + seq!['\n']
}

/// The line of a setting where it is set, nothing where it is not.
pub open spec fn opt_setting(key: Seq<char>, value: Option<Seq<char>>) -> Seq<char> {
    match value {
        Some(v) => setting(key, v),
        None => Seq::empty(),
    }
}

/// The decimal text of an unsigned setting.
pub open spec fn unsigned_text(v: Option<u64>) -> Option<Seq<char>> {
    match v {
        Some(n) => Some(decimal_digits(n as nat)),
        None => None,
    }
}

/// The decimal text of a signed setting.
pub open spec fn signed_text(v: Option<i64>) -> Option<Seq<char>> {
    match v {
        Some(n) => Some(signed_decimal(n as int)),
        None => None,
    }
}

/// The `0x`-prefixed upper-case hexadecimal text of a setting, `width` characters at least.
pub open spec fn hex_text(v: Option<u64>, width: nat) -> Option<Seq<char>> {
    match v {
        Some(n) => Some(hex_prefixed(n as nat, width)),
        None => None,
    }
}

/// The text of a setting held as text.
pub open spec fn string_text(v: Option<String>) -> Option<Seq<char>> {
    match v {
        Some(s) => Some(s@),
        None => None,
    }
}

pub open spec fn widen_u8(v: Option<u8>) -> Option<u64> {
    match v {
        Some(n) => Some(n as u64),
        None => None,
    }
}

pub open spec fn widen_u16(v: Option<u16>) -> Option<u64> {
    match v {
        Some(n) => Some(n as u64),
        None => None,
    }
}

pub open spec fn widen_u32(v: Option<u32>) -> Option<u64> {
    match v {
        Some(n) => Some(n as u64),
        None => None,
    }
}

pub open spec fn widen_i8(v: Option<i8>) -> Option<i64> {
    match v {
        Some(n) => Some(n as i64),
        None => None,
    }
}

pub open spec fn widen_i32(v: Option<i32>) -> Option<i64> {
    match v {
        Some(n) => Some(n as i64),
        None => None,
    }
}

pub open spec fn network_transport_text(v: Option<NetworkTransport>) -> Option<Seq<char>> {
    match v {
        Some(e) => Some(e.text()),
        None => None,
    }
}

pub open spec fn delay_mechanism_text(v: Option<DelayMechanism>) -> Option<Seq<char>> {
    match v {
        Some(e) => Some(e.text()),
        None => None,
    }
}

pub open spec fn time_stamping_text(v: Option<TimeStamping>) -> Option<Seq<char>> {
    match v {
        Some(e) => Some(e.text()),
        None => None,
    }
}

pub open spec fn clock_servo_text(v: Option<ClockServo>) -> Option<Seq<char>> {
    match v {
        Some(e) => Some(e.text()),
        None => None,
    }
}

pub open spec fn tsproc_mode_text(v: Option<TsProcMode>) -> Option<Seq<char>> {
    match v {
        Some(e) => Some(e.text()),
        None => None,
    }
}

pub open spec fn delay_filter_text(v: Option<DelayFilter>) -> Option<Seq<char>> {
    match v {
        Some(e) => Some(e.text()),
        None => None,
    }
}

/// The default data set settings.
pub open spec fn default_data_set(g: GlobalConfig) -> Seq<char> {
    opt_setting("twoStepFlag"@, unsigned_text(widen_u8(g.two_step_flag)))
        + opt_setting("clientOnly"@, unsigned_text(widen_u8(g.client_only)))
        + opt_setting("priority1"@, unsigned_text(widen_u8(g.priority1)))
        + opt_setting("priority2"@, unsigned_text(widen_u8(g.priority2)))
        + opt_setting("domainNumber"@, unsigned_text(widen_u8(g.domain_number)))
        + opt_setting("clockClass"@, unsigned_text(widen_u8(g.clock_class)))
        + opt_setting("clockAccuracy"@, hex_text(widen_u8(g.clock_accuracy), 4))
        + opt_setting(
        "offsetScaledLogVariance"@,
        hex_text(widen_u16(g.offset_scaled_log_variance), 6),
    )
}

/// The port data set settings.
pub open spec fn port_data_set(g: GlobalConfig) -> Seq<char> {
    opt_setting("logAnnounceInterval"@, signed_text(widen_i8(g.log_announce_interval)))
        + opt_setting("logSyncInterval"@, signed_text(widen_i8(g.log_sync_interval)))
        + opt_setting(
        "logMinDelayReqInterval"@,
        signed_text(widen_i8(g.log_min_delay_req_interval)),
    ) + opt_setting(
        "announceReceiptTimeout"@,
        unsigned_text(widen_u8(g.announce_receipt_timeout)),
    ) + opt_setting("delayAsymmetry"@, signed_text(g.delay_asymmetry))
}

/// The transport settings.
pub open spec fn transport_settings(g: GlobalConfig) -> Seq<char> {
    opt_setting("transportSpecific"@, hex_text(widen_u8(g.transport_specific), 4))
        + opt_setting("network_transport"@, network_transport_text(g.network_transport))
        + opt_setting("delay_mechanism"@, delay_mechanism_text(g.delay_mechanism))
        + opt_setting("time_stamping"@, time_stamping_text(g.time_stamping))
}

/// The servo settings.
pub open spec fn servo_settings(g: GlobalConfig) -> Seq<char> {
    opt_setting("clock_servo"@, clock_servo_text(g.clock_servo))
        + opt_setting("max_frequency"@, unsigned_text(g.max_frequency))
        + opt_setting("step_threshold"@, string_text(g.step_threshold))
        + opt_setting("first_step_threshold"@, string_text(g.first_step_threshold))
}

/// The timestamp processing settings.
pub open spec fn tsproc_settings(g: GlobalConfig) -> Seq<char> {
    opt_setting("tsproc_mode"@, tsproc_mode_text(g.tsproc_mode))
        + opt_setting("delay_filter"@, delay_filter_text(g.delay_filter))
        + opt_setting("delay_filter_length"@, unsigned_text(widen_u32(g.delay_filter_length)))
        + opt_setting(
        "tx_timestamp_timeout"@,
        unsigned_text(widen_u32(g.tx_timestamp_timeout)),
    )
}

/// The management socket and logging settings.
pub open spec fn management_settings(g: GlobalConfig) -> Seq<char> {
    opt_setting("uds_address"@, string_text(g.uds_address))
        + opt_setting("uds_ro_address"@, string_text(g.uds_ro_address))
        + opt_setting("logging_level"@, unsigned_text(widen_u8(g.logging_level)))
        + opt_setting("summary_interval"@, signed_text(widen_i32(g.summary_interval)))
        + opt_setting("use_syslog"@, unsigned_text(widen_u8(g.use_syslog)))
        + opt_setting("verbose"@, unsigned_text(widen_u8(g.verbose)))
}

/// The `[global]` section: its header, then each set setting in a fixed order.
pub open spec fn global_section(g: GlobalConfig) -> Seq<char> {
    "[global]\n"@ + default_data_set(g) + port_data_set(g) + transport_settings(g)
        + servo_settings(g) + tsproc_settings(g) + management_settings(g)
}

/// One `[<interface>]` section per interface, each after a newline.
pub open spec fn interface_sections(interfaces: Seq<Seq<char>>) -> Seq<char>
    decreases interfaces.len(),
{
    if interfaces.len() == 0 {
        Seq::empty()
    } else {
        interface_sections(interfaces.drop_last()) + "\n["@ + interfaces.last() + "]"@
    }
}

/// The whole configuration file.
pub open spec fn config_text(g: GlobalConfig, interfaces: Seq<Seq<char>>) -> Seq<char> {
    global_section(g) + interface_sections(interfaces)
}

fn push_setting(out: &mut String, key: &str, value: &str)
    ensures
        final(out)@ == old(out)@ + setting(key@, value@),
{
    push_padded(out, key, KEY_WIDTH);
    push_str(out, value);
    push_char(out, '\n');
    assert(out@ =~= old(out)@ + setting(key@, value@));
}

fn push_text_setting(out: &mut String, key: &str, value: Option<String>)
    ensures
        final(out)@ == old(out)@ + opt_setting(key@, string_text(value)),
{
    match value {
        Some(v) => push_setting(out, key, v.as_str()),
        None => {
            assert(out@ =~= old(out)@ + opt_setting(key@, string_text(value)));
        },
    }
}

fn push_unsigned_setting(out: &mut String, key: &str, value: Option<u64>)
    ensures
        final(out)@ == old(out)@ + opt_setting(key@, unsigned_text(value)),
{
    match value {
        Some(n) => {
            let mut v = String::new();
            push_decimal(&mut v, n);
            assert(v@ =~= decimal_digits(n as nat));
            push_setting(out, key, v.as_str());
        },
        None => {
            assert(out@ =~= old(out)@ + opt_setting(key@, unsigned_text(value)));
        },
    }
}

fn push_signed_setting(out: &mut String, key: &str, value: Option<i64>)
    ensures
        final(out)@ == old(out)@ + opt_setting(key@, signed_text(value)),
{
    match value {
        Some(n) => {
            let mut v = String::new();
            push_signed_decimal(&mut v, n);
            assert(v@ =~= signed_decimal(n as int));
            push_setting(out, key, v.as_str());
        },
        None => {
            assert(out@ =~= old(out)@ + opt_setting(key@, signed_text(value)));
        },
    }
}

fn push_hex_setting(out: &mut String, key: &str, value: Option<u64>, width: usize)
    ensures
        final(out)@ == old(out)@ + opt_setting(key@, hex_text(value, width as nat)),
{
    match value {
        Some(n) => {
            let mut v = String::new();
            push_hex_prefixed(&mut v, n, width);
            assert(v@ =~= hex_prefixed(n as nat, width as nat));
            push_setting(out, key, v.as_str());
        },
        None => {
            assert(out@ =~= old(out)@ + opt_setting(key@, hex_text(value, width as nat)));
        },
    }
}

fn u8_setting(v: Option<u8>) -> (r: Option<u64>)
    ensures
        r == widen_u8(v),
{
    match v {
        Some(n) => Some(n as u64),
        None => None,
    }
}

fn u32_setting(v: Option<u32>) -> (r: Option<u64>)
    ensures
        r == widen_u32(v),
{
    match v {
        Some(n) => Some(n as u64),
        None => None,
    }
}

fn i8_setting(v: Option<i8>) -> (r: Option<i64>)
    ensures
        r == widen_i8(v),
{
    match v {
        Some(n) => Some(n as i64),
        None => None,
    }
}

#[verifier::rlimit(40)]
fn push_default_data_set(out: &mut String, g: &GlobalConfig)
    ensures
        final(out)@ == old(out)@ + default_data_set(*g),
{
    push_unsigned_setting(out, "twoStepFlag", u8_setting(g.two_step_flag));
    push_unsigned_setting(out, "clientOnly", u8_setting(g.client_only));
    push_unsigned_setting(out, "priority1", u8_setting(g.priority1));
    push_unsigned_setting(out, "priority2", u8_setting(g.priority2));
    push_unsigned_setting(out, "domainNumber", u8_setting(g.domain_number));
    push_unsigned_setting(out, "clockClass", u8_setting(g.clock_class));
    push_hex_setting(out, "clockAccuracy", u8_setting(g.clock_accuracy), 4);
    let variance = match g.offset_scaled_log_variance {
        Some(n) => Some(n as u64),
        None => None,
    };
    push_hex_setting(out, "offsetScaledLogVariance", variance, 6);
    assert(out@ =~= old(out)@ + default_data_set(*g));
}

fn push_port_data_set(out: &mut String, g: &GlobalConfig)
    ensures
        final(out)@ == old(out)@ + port_data_set(*g),
{
    push_signed_setting(out, "logAnnounceInterval", i8_setting(g.log_announce_interval));
    push_signed_setting(out, "logSyncInterval", i8_setting(g.log_sync_interval));
    push_signed_setting(out, "logMinDelayReqInterval", i8_setting(g.log_min_delay_req_interval));
    push_unsigned_setting(out, "announceReceiptTimeout", u8_setting(g.announce_receipt_timeout));
    push_signed_setting(out, "delayAsymmetry", g.delay_asymmetry);
    assert(out@ =~= old(out)@ + port_data_set(*g));
}

fn push_transport_settings(out: &mut String, g: &GlobalConfig)
    ensures
        final(out)@ == old(out)@ + transport_settings(*g),
{
    push_hex_setting(out, "transportSpecific", u8_setting(g.transport_specific), 4);
    let transport = match g.network_transport {
        Some(e) => Some(e.to_string()),
        None => None,
    };
    push_text_setting(out, "network_transport", transport);
    let mechanism = match g.delay_mechanism {
        Some(e) => Some(e.to_string()),
        None => None,
    };
    push_text_setting(out, "delay_mechanism", mechanism);
    let stamping = match g.time_stamping {
        Some(e) => Some(e.to_string()),
        None => None,
    };
    push_text_setting(out, "time_stamping", stamping);
    assert(out@ =~= old(out)@ + transport_settings(*g));
}

fn push_servo_settings(out: &mut String, g: &GlobalConfig)
    ensures
        final(out)@ == old(out)@ + servo_settings(*g),
{
    let servo = match g.clock_servo {
        Some(e) => Some(e.to_string()),
        None => None,
    };
    push_text_setting(out, "clock_servo", servo);
    push_unsigned_setting(out, "max_frequency", g.max_frequency);
    push_text_setting(out, "step_threshold", g.step_threshold.clone());
    push_text_setting(out, "first_step_threshold", g.first_step_threshold.clone());
    assert(out@ =~= old(out)@ + servo_settings(*g));
}

fn push_tsproc_settings(out: &mut String, g: &GlobalConfig)
    ensures
        final(out)@ == old(out)@ + tsproc_settings(*g),
{
    let mode = match g.tsproc_mode {
        Some(e) => Some(e.to_string()),
        None => None,
    };
    push_text_setting(out, "tsproc_mode", mode);
    let filter = match g.delay_filter {
        Some(e) => Some(e.to_string()),
        None => None,
    };
    push_text_setting(out, "delay_filter", filter);
    push_unsigned_setting(out, "delay_filter_length", u32_setting(g.delay_filter_length));
    push_unsigned_setting(out, "tx_timestamp_timeout", u32_setting(g.tx_timestamp_timeout));
    assert(out@ =~= old(out)@ + tsproc_settings(*g));
}

fn push_management_settings(out: &mut String, g: &GlobalConfig)
    ensures
        final(out)@ == old(out)@ + management_settings(*g),
{
    push_text_setting(out, "uds_address", g.uds_address.clone());
    push_text_setting(out, "uds_ro_address", g.uds_ro_address.clone());
    push_unsigned_setting(out, "logging_level", u8_setting(g.logging_level));
    let summary = match g.summary_interval {
        Some(n) => Some(n as i64),
        None => None,
    };
    push_signed_setting(out, "summary_interval", summary);
    push_unsigned_setting(out, "use_syslog", u8_setting(g.use_syslog));
    push_unsigned_setting(out, "verbose", u8_setting(g.verbose));
    assert(out@ =~= old(out)@ + management_settings(*g));
}

/// Renders the `[global]` section and one section per interface, as ptp4l reads them.
pub fn fmt_config(g: &GlobalConfig, interfaces: &[String]) -> (r: String)
    ensures
        r@ == config_text(*g, interfaces@.map_values(|s: String| s@)),
{
    let mut out = String::new();
    push_str(&mut out, "[global]\n");
    push_default_data_set(&mut out, g);
    push_port_data_set(&mut out, g);
    push_transport_settings(&mut out, g);
    push_servo_settings(&mut out, g);
    push_tsproc_settings(&mut out, g);
    push_management_settings(&mut out, g);
    assert(out@ =~= global_section(*g));
    let ghost head = out@;
    let ghost names = interfaces@.map_values(|s: String| s@);
    let mut i: usize = 0;
    while i < interfaces.len()
        invariant
            i <= interfaces@.len(),
            names == interfaces@.map_values(|s: String| s@),
            out@ == head + interface_sections(names.subrange(0, i as int)),
        decreases interfaces@.len() - i,
    {
        push_str(&mut out, "\n[");
        push_str(&mut out, interfaces[i].as_str());
        push_str(&mut out, "]");
        proof {
            let next = names.subrange(0, i + 1);
            assert(next.drop_last() =~= names.subrange(0, i as int));
            assert(next.last() == interfaces@[i as int]@);
            assert(out@ =~= head + interface_sections(next));
        }
        i = i + 1;
    }
    assert(names.subrange(0, interfaces@.len() as int) =~= names);
    out
}

impl Config {
    /// The configuration file without interface sections.
    pub fn to_string(&self) -> (r: String)
        ensures
            r@ == config_text(self.global, Seq::empty()),
    {
        let none: Vec<String> = Vec::new();
        let r = fmt_config(&self.global, none.as_slice());
        assert(none@.map_values(|s: String| s@) =~= Seq::<Seq<char>>::empty());
        r
    }

    /// The configuration file with one `[<interface>]` section per entry of `interfaces`.
    pub fn display_with_interfaces(&self, interfaces: &[String]) -> (r: String)
        ensures
            r@ == config_text(self.global, interfaces@.map_values(|s: String| s@)),
    {
        fmt_config(&self.global, interfaces)
    }
}

/// The file with interface sections is the file without them, followed by one
/// `[<interface>]` section per interface in the given order.
pub proof fn lemma_interfaces_follow_global(g: GlobalConfig, interfaces: Seq<Seq<char>>)
    ensures
        config_text(g, interfaces) == config_text(g, Seq::empty()) + interface_sections(
            interfaces,
        ),
        config_text(g, Seq::empty()) == global_section(g),
{
    assert(global_section(g) + Seq::<char>::empty() =~= global_section(g));
}

/// A `[global]` section with no setting set.
pub open spec fn unset_global() -> GlobalConfig {
    GlobalConfig {
        two_step_flag: None,
        client_only: None,
        priority1: None,
        priority2: None,
        domain_number: None,
        clock_class: None,
        clock_accuracy: None,
        offset_scaled_log_variance: None,
        log_announce_interval: None,
        log_sync_interval: None,
        log_min_delay_req_interval: None,
        announce_receipt_timeout: None,
        delay_asymmetry: None,
        transport_specific: None,
        network_transport: None,
        delay_mechanism: None,
        time_stamping: None,
        clock_servo: None,
        max_frequency: None,
        step_threshold: None,
        first_step_threshold: None,
        tsproc_mode: None,
        delay_filter: None,
        delay_filter_length: None,
        tx_timestamp_timeout: None,
        uds_address: None,
        uds_ro_address: None,
        logging_level: None,
        summary_interval: None,
        use_syslog: None,
        verbose: None,
    }
}

/// Each setting is rendered on its own line under its own key, from its own value: a
/// `[global]` section with only one setting set holds the header and that setting's line,
/// keyed by the setting's name and carrying the text of that same setting's value, and
/// nothing when it is unset.
#[verifier::rlimit(50)]
pub proof fn lemma_each_setting_renders_alone(g: GlobalConfig)
    ensures
        global_section(GlobalConfig { two_step_flag: g.two_step_flag, ..unset_global() }) == "[global]\n"@ + (match g.two_step_flag {
            Some(v) => setting("twoStepFlag"@, decimal_digits(v as nat)),
            None => Seq::empty(),
        }),
        global_section(GlobalConfig { client_only: g.client_only, ..unset_global() }) == "[global]\n"@ + (match g.client_only {
            Some(v) => setting("clientOnly"@, decimal_digits(v as nat)),
            None => Seq::empty(),
        }),
        global_section(GlobalConfig { priority1: g.priority1, ..unset_global() }) == "[global]\n"@ + (match g.priority1 {
            Some(v) => setting("priority1"@, decimal_digits(v as nat)),
            None => Seq::empty(),
        }),
        global_section(GlobalConfig { priority2: g.priority2, ..unset_global() }) == "[global]\n"@ + (match g.priority2 {
            Some(v) => setting("priority2"@, decimal_digits(v as nat)),
            None => Seq::empty(),
        }),
        global_section(GlobalConfig { domain_number: g.domain_number, ..unset_global() }) == "[global]\n"@ + (match g.domain_number {
            Some(v) => setting("domainNumber"@, decimal_digits(v as nat)),
            None => Seq::empty(),
        }),
        global_section(GlobalConfig { clock_class: g.clock_class, ..unset_global() }) == "[global]\n"@ + (match g.clock_class {
            Some(v) => setting("clockClass"@, decimal_digits(v as nat)),
            None => Seq::empty(),
        }),
        global_section(GlobalConfig { clock_accuracy: g.clock_accuracy, ..unset_global() }) == "[global]\n"@ + (match g.clock_accuracy {
            Some(v) => setting("clockAccuracy"@, hex_prefixed(v as nat, 4)),
            None => Seq::empty(),
        }),
        global_section(GlobalConfig { offset_scaled_log_variance: g.offset_scaled_log_variance, ..unset_global() }) == "[global]\n"@ + (match g.offset_scaled_log_variance {
            Some(v) => setting("offsetScaledLogVariance"@, hex_prefixed(v as nat, 6)),
            None => Seq::empty(),
        }),
        global_section(GlobalConfig { log_announce_interval: g.log_announce_interval, ..unset_global() }) == "[global]\n"@ + (match g.log_announce_interval {
            Some(v) => setting("logAnnounceInterval"@, signed_decimal(v as int)),
            None => Seq::empty(),
        }),
        global_section(GlobalConfig { log_sync_interval: g.log_sync_interval, ..unset_global() }) == "[global]\n"@ + (match g.log_sync_interval {
            Some(v) => setting("logSyncInterval"@, signed_decimal(v as int)),
            None => Seq::empty(),
        }),
        global_section(GlobalConfig { log_min_delay_req_interval: g.log_min_delay_req_interval, ..unset_global() }) == "[global]\n"@ + (match g.log_min_delay_req_interval {
            Some(v) => setting("logMinDelayReqInterval"@, signed_decimal(v as int)),
            None => Seq::empty(),
        }),
        global_section(GlobalConfig { announce_receipt_timeout: g.announce_receipt_timeout, ..unset_global() }) == "[global]\n"@ + (match g.announce_receipt_timeout {
            Some(v) => setting("announceReceiptTimeout"@, decimal_digits(v as nat)),
            None => Seq::empty(),
        }),
        global_section(GlobalConfig { delay_asymmetry: g.delay_asymmetry, ..unset_global() }) == "[global]\n"@ + (match g.delay_asymmetry {
            Some(v) => setting("delayAsymmetry"@, signed_decimal(v as int)),
            None => Seq::empty(),
        }),
        global_section(GlobalConfig { transport_specific: g.transport_specific, ..unset_global() }) == "[global]\n"@ + (match g.transport_specific {
            Some(v) => setting("transportSpecific"@, hex_prefixed(v as nat, 4)),
            None => Seq::empty(),
        }),
        global_section(GlobalConfig { network_transport: g.network_transport, ..unset_global() }) == "[global]\n"@ + (match g.network_transport {
            Some(v) => setting("network_transport"@, v.text()),
            None => Seq::empty(),
        }),
        global_section(GlobalConfig { delay_mechanism: g.delay_mechanism, ..unset_global() }) == "[global]\n"@ + (match g.delay_mechanism {
            Some(v) => setting("delay_mechanism"@, v.text()),
            None => Seq::empty(),
        }),
        global_section(GlobalConfig { time_stamping: g.time_stamping, ..unset_global() }) == "[global]\n"@ + (match g.time_stamping {
            Some(v) => setting("time_stamping"@, v.text()),
            None => Seq::empty(),
        }),
        global_section(GlobalConfig { clock_servo: g.clock_servo, ..unset_global() }) == "[global]\n"@ + (match g.clock_servo {
            Some(v) => setting("clock_servo"@, v.text()),
            None => Seq::empty(),
        }),
        global_section(GlobalConfig { max_frequency: g.max_frequency, ..unset_global() }) == "[global]\n"@ + (match g.max_frequency {
            Some(v) => setting("max_frequency"@, decimal_digits(v as nat)),
            None => Seq::empty(),
        }),
        global_section(GlobalConfig { step_threshold: g.step_threshold, ..unset_global() }) == "[global]\n"@ + (match g.step_threshold {
            Some(v) => setting("step_threshold"@, v@),
            None => Seq::empty(),
        }),
        global_section(GlobalConfig { first_step_threshold: g.first_step_threshold, ..unset_global() }) == "[global]\n"@ + (match g.first_step_threshold {
            Some(v) => setting("first_step_threshold"@, v@),
            None => Seq::empty(),
        }),
        global_section(GlobalConfig { tsproc_mode: g.tsproc_mode, ..unset_global() }) == "[global]\n"@ + (match g.tsproc_mode {
            Some(v) => setting("tsproc_mode"@, v.text()),
            None => Seq::empty(),
        }),
        global_section(GlobalConfig { delay_filter: g.delay_filter, ..unset_global() }) == "[global]\n"@ + (match g.delay_filter {
            Some(v) => setting("delay_filter"@, v.text()),
            None => Seq::empty(),
        }),
        global_section(GlobalConfig { delay_filter_length: g.delay_filter_length, ..unset_global() }) == "[global]\n"@ + (match g.delay_filter_length {
            Some(v) => setting("delay_filter_length"@, decimal_digits(v as nat)),
            None => Seq::empty(),
        }),
        global_section(GlobalConfig { tx_timestamp_timeout: g.tx_timestamp_timeout, ..unset_global() }) == "[global]\n"@ + (match g.tx_timestamp_timeout {
            Some(v) => setting("tx_timestamp_timeout"@, decimal_digits(v as nat)),
            None => Seq::empty(),
        }),
        global_section(GlobalConfig { uds_address: g.uds_address, ..unset_global() }) == "[global]\n"@ + (match g.uds_address {
            Some(v) => setting("uds_address"@, v@),
            None => Seq::empty(),
        }),
        global_section(GlobalConfig { uds_ro_address: g.uds_ro_address, ..unset_global() }) == "[global]\n"@ + (match g.uds_ro_address {
            Some(v) => setting("uds_ro_address"@, v@),
            None => Seq::empty(),
        }),
        global_section(GlobalConfig { logging_level: g.logging_level, ..unset_global() }) == "[global]\n"@ + (match g.logging_level {
            Some(v) => setting("logging_level"@, decimal_digits(v as nat)),
            None => Seq::empty(),
        }),
        global_section(GlobalConfig { summary_interval: g.summary_interval, ..unset_global() }) == "[global]\n"@ + (match g.summary_interval {
            Some(v) => setting("summary_interval"@, signed_decimal(v as int)),
            None => Seq::empty(),
        }),
        global_section(GlobalConfig { use_syslog: g.use_syslog, ..unset_global() }) == "[global]\n"@ + (match g.use_syslog {
            Some(v) => setting("use_syslog"@, decimal_digits(v as nat)),
            None => Seq::empty(),
        }),
        global_section(GlobalConfig { verbose: g.verbose, ..unset_global() }) == "[global]\n"@ + (match g.verbose {
            Some(v) => setting("verbose"@, decimal_digits(v as nat)),
            None => Seq::empty(),
        }),
{
    assert(global_section(GlobalConfig { two_step_flag: g.two_step_flag, ..unset_global() }) =~= "[global]\n"@ + (match g.two_step_flag {
            Some(v) => setting("twoStepFlag"@, decimal_digits(v as nat)),
            None => Seq::empty(),
        }));
    assert(global_section(GlobalConfig { client_only: g.client_only, ..unset_global() }) =~= "[global]\n"@ + (match g.client_only {
            Some(v) => setting("clientOnly"@, decimal_digits(v as nat)),
            None => Seq::empty(),
        }));
    assert(global_section(GlobalConfig { priority1: g.priority1, ..unset_global() }) =~= "[global]\n"@ + (match g.priority1 {
            Some(v) => setting("priority1"@, decimal_digits(v as nat)),
            None => Seq::empty(),
        }));
    assert(global_section(GlobalConfig { priority2: g.priority2, ..unset_global() }) =~= "[global]\n"@ + (match g.priority2 {
            Some(v) => setting("priority2"@, decimal_digits(v as nat)),
            None => Seq::empty(),
        }));
    assert(global_section(GlobalConfig { domain_number: g.domain_number, ..unset_global() }) =~= "[global]\n"@ + (match g.domain_number {
            Some(v) => setting("domainNumber"@, decimal_digits(v as nat)),
            None => Seq::empty(),
        }));
    assert(global_section(GlobalConfig { clock_class: g.clock_class, ..unset_global() }) =~= "[global]\n"@ + (match g.clock_class {
            Some(v) => setting("clockClass"@, decimal_digits(v as nat)),
            None => Seq::empty(),
        }));
    assert(global_section(GlobalConfig { clock_accuracy: g.clock_accuracy, ..unset_global() }) =~= "[global]\n"@ + (match g.clock_accuracy {
            Some(v) => setting("clockAccuracy"@, hex_prefixed(v as nat, 4)),
            None => Seq::empty(),
        }));
    assert(global_section(GlobalConfig { offset_scaled_log_variance: g.offset_scaled_log_variance, ..unset_global() }) =~= "[global]\n"@ + (match g.offset_scaled_log_variance {
            Some(v) => setting("offsetScaledLogVariance"@, hex_prefixed(v as nat, 6)),
            None => Seq::empty(),
        }));
    assert(global_section(GlobalConfig { log_announce_interval: g.log_announce_interval, ..unset_global() }) =~= "[global]\n"@ + (match g.log_announce_interval {
            Some(v) => setting("logAnnounceInterval"@, signed_decimal(v as int)),
            None => Seq::empty(),
        }));
    assert(global_section(GlobalConfig { log_sync_interval: g.log_sync_interval, ..unset_global() }) =~= "[global]\n"@ + (match g.log_sync_interval {
            Some(v) => setting("logSyncInterval"@, signed_decimal(v as int)),
            None => Seq::empty(),
        }));
    assert(global_section(GlobalConfig { log_min_delay_req_interval: g.log_min_delay_req_interval, ..unset_global() }) =~= "[global]\n"@ + (match g.log_min_delay_req_interval {
            Some(v) => setting("logMinDelayReqInterval"@, signed_decimal(v as int)),
            None => Seq::empty(),
        }));
    assert(global_section(GlobalConfig { announce_receipt_timeout: g.announce_receipt_timeout, ..unset_global() }) =~= "[global]\n"@ + (match g.announce_receipt_timeout {
            Some(v) => setting("announceReceiptTimeout"@, decimal_digits(v as nat)),
            None => Seq::empty(),
        }));
    assert(global_section(GlobalConfig { delay_asymmetry: g.delay_asymmetry, ..unset_global() }) =~= "[global]\n"@ + (match g.delay_asymmetry {
            Some(v) => setting("delayAsymmetry"@, signed_decimal(v as int)),
            None => Seq::empty(),
        }));
    assert(global_section(GlobalConfig { transport_specific: g.transport_specific, ..unset_global() }) =~= "[global]\n"@ + (match g.transport_specific {
            Some(v) => setting("transportSpecific"@, hex_prefixed(v as nat, 4)),
            None => Seq::empty(),
        }));
    assert(global_section(GlobalConfig { network_transport: g.network_transport, ..unset_global() }) =~= "[global]\n"@ + (match g.network_transport {
            Some(v) => setting("network_transport"@, v.text()),
            None => Seq::empty(),
        }));
    assert(global_section(GlobalConfig { delay_mechanism: g.delay_mechanism, ..unset_global() }) =~= "[global]\n"@ + (match g.delay_mechanism {
            Some(v) => setting("delay_mechanism"@, v.text()),
            None => Seq::empty(),
        }));
    assert(global_section(GlobalConfig { time_stamping: g.time_stamping, ..unset_global() }) =~= "[global]\n"@ + (match g.time_stamping {
            Some(v) => setting("time_stamping"@, v.text()),
            None => Seq::empty(),
        }));
    assert(global_section(GlobalConfig { clock_servo: g.clock_servo, ..unset_global() }) =~= "[global]\n"@ + (match g.clock_servo {
            Some(v) => setting("clock_servo"@, v.text()),
            None => Seq::empty(),
        }));
    assert(global_section(GlobalConfig { max_frequency: g.max_frequency, ..unset_global() }) =~= "[global]\n"@ + (match g.max_frequency {
            Some(v) => setting("max_frequency"@, decimal_digits(v as nat)),
            None => Seq::empty(),
        }));
    assert(global_section(GlobalConfig { step_threshold: g.step_threshold, ..unset_global() }) =~= "[global]\n"@ + (match g.step_threshold {
            Some(v) => setting("step_threshold"@, v@),
            None => Seq::empty(),
        }));
    assert(global_section(GlobalConfig { first_step_threshold: g.first_step_threshold, ..unset_global() }) =~= "[global]\n"@ + (match g.first_step_threshold {
            Some(v) => setting("first_step_threshold"@, v@),
            None => Seq::empty(),
        }));
    assert(global_section(GlobalConfig { tsproc_mode: g.tsproc_mode, ..unset_global() }) =~= "[global]\n"@ + (match g.tsproc_mode {
            Some(v) => setting("tsproc_mode"@, v.text()),
            None => Seq::empty(),
        }));
    assert(global_section(GlobalConfig { delay_filter: g.delay_filter, ..unset_global() }) =~= "[global]\n"@ + (match g.delay_filter {
            Some(v) => setting("delay_filter"@, v.text()),
            None => Seq::empty(),
        }));
    assert(global_section(GlobalConfig { delay_filter_length: g.delay_filter_length, ..unset_global() }) =~= "[global]\n"@ + (match g.delay_filter_length {
            Some(v) => setting("delay_filter_length"@, decimal_digits(v as nat)),
            None => Seq::empty(),
        }));
    assert(global_section(GlobalConfig { tx_timestamp_timeout: g.tx_timestamp_timeout, ..unset_global() }) =~= "[global]\n"@ + (match g.tx_timestamp_timeout {
            Some(v) => setting("tx_timestamp_timeout"@, decimal_digits(v as nat)),
            None => Seq::empty(),
        }));
    assert(global_section(GlobalConfig { uds_address: g.uds_address, ..unset_global() }) =~= "[global]\n"@ + (match g.uds_address {
            Some(v) => setting("uds_address"@, v@),
            None => Seq::empty(),
        }));
    assert(global_section(GlobalConfig { uds_ro_address: g.uds_ro_address, ..unset_global() }) =~= "[global]\n"@ + (match g.uds_ro_address {
            Some(v) => setting("uds_ro_address"@, v@),
            None => Seq::empty(),
        }));
    assert(global_section(GlobalConfig { logging_level: g.logging_level, ..unset_global() }) =~= "[global]\n"@ + (match g.logging_level {
            Some(v) => setting("logging_level"@, decimal_digits(v as nat)),
            None => Seq::empty(),
        }));
    assert(global_section(GlobalConfig { summary_interval: g.summary_interval, ..unset_global() }) =~= "[global]\n"@ + (match g.summary_interval {
            Some(v) => setting("summary_interval"@, signed_decimal(v as int)),
            None => Seq::empty(),
        }));
    assert(global_section(GlobalConfig { use_syslog: g.use_syslog, ..unset_global() }) =~= "[global]\n"@ + (match g.use_syslog {
            Some(v) => setting("use_syslog"@, decimal_digits(v as nat)),
            None => Seq::empty(),
        }));
    assert(global_section(GlobalConfig { verbose: g.verbose, ..unset_global() }) =~= "[global]\n"@ + (match g.verbose {
            Some(v) => setting("verbose"@, decimal_digits(v as nat)),
            None => Seq::empty(),
        }));
}

} // verus!
