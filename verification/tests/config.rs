use aes67_rs::config::{adjust_labels_for_channel_count, default_sample_rate, Config, PtpMode};
use aes67_rs::error::{ConfigError, ErrorCode};
use aes67_rs::formats::{bytes_per_frame, SampleFormat};

fn labels(v: &[&str]) -> Vec<String> {
    v.iter().map(|s| s.to_string()).collect()
}

#[test]
fn labels_cut_to_channel_count() {
    let mut l = labels(&["L", "R", "C", "LFE"]);
    adjust_labels_for_channel_count(2, &mut l);
    assert_eq!(l, labels(&["L", "R"]));
}

#[test]
fn labels_extended_with_channel_numbers() {
    let mut l = labels(&["L"]);
    adjust_labels_for_channel_count(3, &mut l);
    assert_eq!(l, labels(&["L", "2", "3"]));
    let mut none = vec![];
    adjust_labels_for_channel_count(2, &mut none);
    assert_eq!(none, labels(&["1", "2"]));
}

#[test]
fn blank_labels_dropped_first() {
    let mut l = labels(&["", "  ", "Vox", "\t", "Gtr"]);
    adjust_labels_for_channel_count(3, &mut l);
    assert_eq!(l, labels(&["Vox", "Gtr", "3"]));
}

#[test]
fn adjusted_labels_have_one_per_channel() {
    for channels in 0..6 {
        let mut l = labels(&["a", " ", "b", "c"]);
        adjust_labels_for_channel_count(channels, &mut l);
        assert_eq!(l.len(), channels);
    }
}

#[test]
fn defaults() {
    assert_eq!(default_sample_rate(), 48_000);
    let c = Config::from_values(None, None, None);
    assert_eq!(c.audio.nic, "eth0");
    assert_eq!(c.audio.sample_rate, 48_000);
    assert!(c.ptp.is_none());
    let c = Config::from_values(Some(PtpMode::Phc { nic: "enp1s0".to_owned() }), Some("enp1s0".to_owned()), Some(96_000));
    assert_eq!(c.audio.nic, "enp1s0");
    assert_eq!(c.audio.sample_rate, 96_000);
    assert!(matches!(c.ptp, Some(PtpMode::Phc { .. })));
}

#[test]
fn sample_formats() {
    assert_eq!(SampleFormat::parse("L16"), Ok(SampleFormat::L16));
    assert_eq!(SampleFormat::parse("L24"), Ok(SampleFormat::L24));
    assert_eq!(SampleFormat::parse("l24"), Err(ConfigError::UnsupportedSampleFormat("l24".to_owned())));
    assert_eq!(SampleFormat::L16.bytes_per_sample(), 2);
    assert_eq!(SampleFormat::L24.bytes_per_sample(), 3);
    assert_eq!(bytes_per_frame(8, SampleFormat::L24), 24);
}

#[test]
fn error_codes() {
    assert_eq!(ErrorCode::WorterbuchError.code(), 0x10);
    assert_eq!(ErrorCode::InvalidSdp.code(), 0x18);
    assert_eq!(ErrorCode::Other.code(), 0x1F);
}

#[test]
fn unicode_white_space_is_blank() {
    let mut l = labels(&["\u{3000}", "\u{a0}\u{2009}", " Bass ", "\u{85}"]);
    adjust_labels_for_channel_count(2, &mut l);
    assert_eq!(l, labels(&[" Bass ", "2"]));
}

#[test]
fn adjusting_twice_changes_nothing() {
    for channels in 0..5 {
        let mut l = labels(&[" ", "x", "", "y", "z"]);
        adjust_labels_for_channel_count(channels, &mut l);
        let once = l.clone();
        adjust_labels_for_channel_count(channels, &mut l);
        assert_eq!(l, once);
        assert!(l.iter().all(|label| !label.trim().is_empty()));
    }
}
