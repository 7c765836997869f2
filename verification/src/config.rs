//! Application configuration and the normalisation of channel labels.

use crate::formats::FramesPerSecond;
use crate::text::{
    decimal_digits, decimal_string, is_digit, lemma_decimal_digits_are_digits,
    lemma_trim_keeps_non_white, owned, str_trim, trim,
};
use vstd::prelude::*;

verus! {

/// Where telemetry is sent, and with which credentials.
#[derive(Debug, Clone)]
pub struct TelemetryConfig {
    pub endpoint: EndpointConfig,
    pub credentials: Option<Credentials>,
}

/// A telemetry endpoint.
#[derive(Debug, Clone)]
pub enum EndpointConfig {
    Grpc(String),
    Http(String),
}

/// Credentials for a telemetry endpoint.
#[derive(Debug, Clone)]
pub struct Credentials {
    pub user: String,
    pub token: String,
}

/// How the media clock is synchronised to PTP.
#[derive(Debug, Clone, Default)]
pub enum PtpMode {
    /// An external PTP daemon synchronises the system TAI clock; the library reads that clock.
    #[default]
    System,
    /// An external PTP daemon synchronises the hardware clock of the given network interface.
    Phc { nic: String },
}

/// The audio settings of the application.
#[derive(Debug, Clone, Default)]
pub struct AudioConfig {
    pub nic: String,
    pub sample_rate: FramesPerSecond,
}

/// The application configuration.
#[derive(Debug, Clone, Default)]
pub struct Config {
    pub ptp: Option<PtpMode>,
    pub audio: AudioConfig,
}

/// The sample rate used when none is configured.
pub fn default_sample_rate() -> (r: FramesPerSecond)
    ensures
        r == 48_000,
{
    48_000
}

impl Config {
    /// The configuration made of the stored values, with the network interface `eth0`
    /// and the default sample rate where none is stored.
    pub fn from_values(
        ptp: Option<PtpMode>,
        nic: Option<String>,
        sample_rate: Option<FramesPerSecond>,
    ) -> (r: Config)
        ensures
            r.ptp == ptp,
            r.audio.nic@ == (match nic {
                Some(n) => n@,
                None => "eth0"@,
            }),
            r.audio.sample_rate == (match sample_rate {
                Some(s) => s,
                None => 48_000,
            }),
    {
        let audio_nic = match nic {
            Some(n) => n,
            None => owned("eth0"),
        };
        let audio_sample_rate = match sample_rate {
            Some(s) => s,
            None => default_sample_rate(),
        };
        Config { ptp, audio: AudioConfig { nic: audio_nic, sample_rate: audio_sample_rate } }
    }
}

/// A label counts as empty when nothing but white space is left after trimming it.
pub open spec fn is_blank(label: Seq<char>) -> bool {
    str_trim(label).len() == 0
}

/// The labels that are not blank, in their order.
pub open spec fn non_blank(labels: Seq<Seq<char>>) -> Seq<Seq<char>>
    decreases labels.len(),
{
    if labels.len() == 0 {
        Seq::empty()
    } else {
        let rest = non_blank(labels.drop_last());
        if is_blank(labels.last()) {
            rest
        } else {
            rest.push(labels.last())
        }
    }
}

/// The labels `from + 1`, ..., `to` in decimal.
pub open spec fn numbered_labels(from: nat, to: nat) -> Seq<Seq<char>> {
    Seq::new((to - from) as nat, |i: int| decimal_digits((from + 1 + i) as nat))
}

/// Exactly `channels` labels: the labels that are not blank, cut to `channels`, or,
/// where there are fewer, followed by the numbers of the remaining channels.
pub open spec fn adjusted_labels(channels: nat, labels: Seq<Seq<char>>) -> Seq<Seq<char>> {
    let kept = non_blank(labels);
    if kept.len() < channels {
        kept + numbered_labels(kept.len(), channels)
    } else {
        kept.take(channels as int)
    }
}

pub open spec fn label_views(labels: Seq<String>) -> Seq<Seq<char>> {
    labels.map_values(|l: String| l@)
}

/// Removes the blank labels, then cuts the list to `channels` labels or extends it with
/// the numbers of the missing channels (`"3"`, `"4"`, ...).
pub fn adjust_labels_for_channel_count(channels: usize, channel_labels: &mut Vec<String>)
    ensures
        label_views(final(channel_labels)@) == adjusted_labels(
            channels as nat,
            label_views(old(channel_labels)@),
        ),
{
    let ghost labels = label_views(old(channel_labels)@);
    let n = channel_labels.len();
    let mut kept: Vec<String> = Vec::new();
    let mut i: usize = 0;
    while i < n
        invariant
            n == channel_labels@.len(),
            labels == label_views(channel_labels@),
            i <= n,
            label_views(kept@) == non_blank(labels.take(i as int)),
        decreases n - i,
    {
        let label = &channel_labels[i];
        proof {
            assert(labels.take(i as int + 1).drop_last() =~= labels.take(i as int));
            assert(labels.take(i as int + 1).last() == label@);
        }
        if !trim(label.as_str()).is_empty() {
            kept.push(label.clone());
            assert(label_views(kept@) =~= non_blank(labels.take(i as int + 1)));
        } else {
            assert(label_views(kept@) =~= non_blank(labels.take(i as int + 1)));
        }
        i = i + 1;
    }
    assert(labels.take(n as int) =~= labels);
    let len = kept.len();
    if len < channels {
        let mut k: usize = len;
        while k < channels
            invariant
                len < channels,
                len <= k <= channels,
                label_views(kept@) == non_blank(labels) + numbered_labels(len as nat, k as nat),
            decreases channels - k,
        {
            k = k + 1;
            let ghost before = label_views(kept@);
            let label = decimal_string(k as u64);
            kept.push(label);
            proof {
                assert(label_views(kept@) =~= before.push(decimal_digits(k as nat)));
                assert(numbered_labels(len as nat, k as nat) =~= numbered_labels(
                    len as nat,
                    (k - 1) as nat,
                ).push(decimal_digits(k as nat)));
            }
        }
        assert(label_views(kept@) =~= adjusted_labels(channels as nat, labels));
    } else if len > channels {
        kept.truncate(channels);
        assert(label_views(kept@) =~= adjusted_labels(channels as nat, labels));
    } else {
        assert(label_views(kept@) =~= adjusted_labels(channels as nat, labels));
    }
    *channel_labels = kept;
}

/// After adjusting, there is exactly one label per channel.
pub proof fn lemma_one_label_per_channel(channels: nat, labels: Seq<Seq<char>>)
    ensures
        adjusted_labels(channels, labels).len() == channels,
{
}

/// The labels kept by [`non_blank`] are not blank.
proof fn lemma_non_blank_are_not_blank(labels: Seq<Seq<char>>)
    ensures
        forall|i: int|
            0 <= i < non_blank(labels).len() ==> !is_blank(#[trigger] non_blank(labels)[i]),
    decreases labels.len(),
{
    if labels.len() > 0 {
        let rest = non_blank(labels.drop_last());
        lemma_non_blank_are_not_blank(labels.drop_last());
        if !is_blank(labels.last()) {
            assert forall|i: int|
                0 <= i < rest.push(labels.last()).len() implies !is_blank(
                #[trigger] rest.push(labels.last())[i],
            ) by {
                if i < rest.len() {
                    assert(rest.push(labels.last())[i] == rest[i]);
                }
            }
        }
    }
}

/// Labels none of which is blank are all kept, in their order.
proof fn lemma_non_blank_keeps_all(labels: Seq<Seq<char>>)
    requires
        forall|i: int| 0 <= i < labels.len() ==> !is_blank(#[trigger] labels[i]),
    ensures
        non_blank(labels) == labels,
    decreases labels.len(),
{
    if labels.len() > 0 {
        let rest = labels.drop_last();
        assert forall|i: int| 0 <= i < rest.len() implies !is_blank(#[trigger] rest[i]) by {
            assert(rest[i] == labels[i]);
        }
        lemma_non_blank_keeps_all(rest);
        assert(!is_blank(labels[labels.len() - 1]));
        assert(rest.push(labels.last()) =~= labels);
    }
}

/// A channel number in decimal is not blank.
proof fn lemma_number_not_blank(n: nat)
    ensures
        !is_blank(decimal_digits(n)),
{
    lemma_decimal_digits_are_digits(n);
    let d = decimal_digits(n);
    assert(is_digit(d[0]));
    lemma_trim_keeps_non_white(d, 0);
}

/// No label is blank after adjusting.
pub proof fn lemma_no_blank_label(channels: nat, labels: Seq<Seq<char>>)
    ensures
        forall|i: int|
            0 <= i < channels ==> !is_blank(#[trigger] adjusted_labels(channels, labels)[i]),
{
    let kept = non_blank(labels);
    let a = adjusted_labels(channels, labels);
    lemma_non_blank_are_not_blank(labels);
    assert forall|i: int| 0 <= i < channels implies !is_blank(#[trigger] a[i]) by {
        if i < kept.len() {
            assert(a[i] == kept[i]);
        } else {
            assert(a[i] == decimal_digits((kept.len() + 1 + (i - kept.len())) as nat));
            lemma_number_not_blank((kept.len() + 1 + (i - kept.len())) as nat);
        }
    }
}

/// Adjusting labels that were just adjusted for the same channel count changes nothing.
pub proof fn lemma_adjust_idempotent(channels: nat, labels: Seq<Seq<char>>)
    ensures
        adjusted_labels(channels, adjusted_labels(channels, labels)) == adjusted_labels(
            channels,
            labels,
        ),
{
    let a = adjusted_labels(channels, labels);
    lemma_no_blank_label(channels, labels);
    lemma_non_blank_keeps_all(a);
    assert(a.take(channels as int) =~= a);
}

} // verus!
