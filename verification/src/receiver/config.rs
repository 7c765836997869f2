//! What a receiver learns about an AES67 stream from its session description.

use crate::address::IpAddress;
use crate::config::{
    adjust_labels_for_channel_count, adjusted_labels, is_blank, label_views, lemma_no_blank_label,
    lemma_one_label_per_channel,
};
use crate::error::{ConfigError, ConfigErrorView};
use crate::formats::{FramesPerSecond, SampleFormat};
use crate::pattern::{captures, captures_view, group, group_of, regex_captures};
use crate::sdp::{
    attribute_value, media_line_text, Address, ConnectionInformation, MediaDescription, SessionDescription,
};
use crate::text::{owned, parse_decimal, parse_unsigned, push_str, split, str_eq, str_split};
use vstd::prelude::*;

verus! {

/// `<payload type> <encoding><bits>/<sample rate>/<channels>` of an `rtpmap` attribute.
pub const RTPMAP_PATTERN: &'static str = "([0-9]+) (.+?[0-9]+)\\/([0-9]+)\\/([0-9]+)";

/// `<count> channels: <label>, <label>, ...` of a session information line.
pub const CHANNELS_PATTERN: &'static str = "([0-9]+) channels: (.+)";

/// `direct=<offset>` of a `mediaclk` attribute.
pub const MEDIACLK_PATTERN: &'static str = "direct=([0-9]+)";

/// The id and version of a session, from its origin line.
#[derive(Debug, Clone, PartialEq, Eq, Hash, Structural)]
pub struct SessionId {
    pub id: u64,
    pub version: u64,
}

/// What a receiver needs to know about a stream. `M` is the type that holds the
/// packet time in milliseconds.
#[derive(Debug, Clone)]
pub struct SessionInfo<M> {
    pub id: SessionId,
    pub name: String,
    pub destination_ip: IpAddress,
    pub destination_port: u16,
    pub channels: usize,
    pub sample_format: SampleFormat,
    pub sample_rate: FramesPerSecond,
    pub packet_time: M,
    pub origin_ip: IpAddress,
    pub channel_labels: Vec<String>,
    pub rtp_offset: u32,
}

/// The content of a [`SessionInfo`], texts as characters.
pub struct SessionInfoView<M> {
    pub id: SessionId,
    pub name: Seq<char>,
    pub destination_ip: IpAddress,
    pub destination_port: u16,
    pub channels: usize,
    pub sample_format: SampleFormat,
    pub sample_rate: FramesPerSecond,
    pub packet_time: M,
    pub origin_ip: IpAddress,
    pub channel_labels: Seq<Seq<char>>,
    pub rtp_offset: u32,
}

impl<M> View for SessionInfo<M> {
    type V = SessionInfoView<M>;

    open spec fn view(&self) -> SessionInfoView<M> {
        SessionInfoView {
            id: self.id,
            name: self.name@,
            destination_ip: self.destination_ip,
            destination_port: self.destination_port,
            channels: self.channels,
            sample_format: self.sample_format,
            sample_rate: self.sample_rate,
            packet_time: self.packet_time,
            origin_ip: self.origin_ip,
            channel_labels: label_views(self.channel_labels@),
            rtp_offset: self.rtp_offset,
        }
    }
}

pub open spec fn result_view<M>(r: Result<SessionInfo<M>, ConfigError>) -> Result<
    SessionInfoView<M>,
    ConfigErrorView,
> {
    match r {
        Ok(info) => Ok(info@),
        Err(e) => Err(e@),
    }
}

/// The fields of an `rtpmap` attribute.
#[derive(Debug, Clone)]
pub struct RtpMap {
    pub payload_type: String,
    pub sample_format: SampleFormat,
    pub sample_rate: FramesPerSecond,
    pub channels: usize,
}

// ---------------------------------------------------------------------------------------------
// The outcome of reading a session description
// ---------------------------------------------------------------------------------------------

pub open spec fn first_media(sd: SessionDescription) -> Option<MediaDescription> {
    if sd.media_descriptions@.len() == 0 {
        None
    } else {
        Some(sd.media_descriptions@[0])
    }
}

/// The value of the `rtpmap` attribute of the first media section.
pub open spec fn rtpmap_text(sd: SessionDescription) -> Option<Seq<char>> {
    match first_media(sd) {
        Some(m) => attribute_value(m.attributes@, "rtpmap"@),
        None => None,
    }
}

/// The value of the `ptime` attribute of the first media section.
pub open spec fn ptime_text_of(sd: SessionDescription) -> Option<Seq<char>> {
    match first_media(sd) {
        Some(m) => attribute_value(m.attributes@, "ptime"@),
        None => None,
    }
}

/// The value of the `mediaclk` attribute of the first media section.
pub open spec fn mediaclk_text(sd: SessionDescription) -> Option<Seq<char>> {
    match first_media(sd) {
        Some(m) => attribute_value(m.attributes@, "mediaclk"@),
        None => None,
    }
}

/// The connection line that applies to a media section: its own, else the session's.
pub open spec fn media_connection(
    sd: SessionDescription,
    media: MediaDescription,
) -> Option<ConnectionInformation> {
    match media.connection_information {
        Some(c) => Some(c),
        None => sd.connection_information,
    }
}

/// The connection address text that applies to the first media section.
pub open spec fn destination_address_text(sd: SessionDescription) -> Option<Seq<char>> {
    match first_media(sd) {
        Some(m) => match media_connection(sd, m) {
            Some(c) => match c.address {
                Some(a) => Some(a.address@),
                None => None,
            },
            None => None,
        },
        None => None,
    }
}

/// The address part of an `address/prefix` text, where the text has both parts.
pub open spec fn address_ip_part(address: Seq<char>) -> Option<Seq<char>> {
    let pieces = str_split(address, "/"@);
    if pieces.len() >= 2 {
        Some(pieces[0])
    } else {
        None
    }
}

/// The text of the stream's destination IP address, which the caller parses.
pub open spec fn destination_ip_text_of(sd: SessionDescription) -> Option<Seq<char>> {
    match destination_address_text(sd) {
        Some(a) => address_ip_part(a),
        None => None,
    }
}

/// The connection line of the first media section, where it has one with an address,
/// gives the stream's destination, whatever the session-level line says: its address part
/// is the destination text, and a parsed destination address is taken as it is.
pub proof fn lemma_media_connection_first(
    sd: SessionDescription,
    c: ConnectionInformation,
    a: Address,
    ip: IpAddress,
)
    requires
        sd.media_descriptions@.len() > 0,
        sd.media_descriptions@[0].connection_information == Some(c),
        c.address == Some(a),
    ensures
        destination_ip_text_of(sd) == address_ip_part(a.address@),
        address_ip_part(a.address@) is Some ==> destination_outcome(
            sd,
            sd.media_descriptions@[0],
            Some(ip),
        ) == Ok::<IpAddress, ConfigErrorView>(ip),
{
}

/// The session-level connection line counts only where the first media section has none:
/// then its address part is the destination text.
pub proof fn lemma_session_connection_fallback(sd: SessionDescription, c: ConnectionInformation, a: Address)
    requires
        sd.media_descriptions@.len() > 0,
        sd.media_descriptions@[0].connection_information is None,
        sd.connection_information == Some(c),
        c.address == Some(a),
    ensures
        destination_ip_text_of(sd) == address_ip_part(a.address@),
{
}

/// What the fields of an `rtpmap` match give: `None` where reading them panics
/// (a number that does not fit its type, or a group that is missing).
pub open spec fn rtpmap_outcome(caps: Option<Seq<Option<Seq<char>>>>) -> Option<
    Result<(Seq<char>, SampleFormat, nat, nat), ConfigErrorView>,
> {
    match caps {
        None => Some(Err(ConfigErrorView::InvalidSdp("malformed rtpmap"@))),
        Some(g) => if group(g, 1) is None || group(g, 2) is None || group(g, 3) is None || group(
            g,
            4,
        ) is None {
            None
        } else {
            match SampleFormat::from_name(group(g, 2).unwrap()) {
                None => Some(
                    Err(ConfigErrorView::UnsupportedSampleFormat(group(g, 2).unwrap())),
                ),
                Some(f) => match (
                    parse_unsigned(group(g, 3).unwrap(), u32::MAX as nat),
                    parse_unsigned(group(g, 4).unwrap(), usize::MAX as nat),
                ) {
                    (Some(rate), Some(channels)) => Some(
                        Ok((group(g, 1).unwrap(), f, rate, channels)),
                    ),
                    _ => None,
                },
            }
        },
    }
}

/// The raw channel labels: those listed after `channels:` in the session information,
/// or none. `None` where reading them panics (a missing group).
pub open spec fn raw_labels_outcome(
    sd: SessionDescription,
    caps: Option<Seq<Option<Seq<char>>>>,
) -> Option<Seq<Seq<char>>> {
    match sd.session_information {
        Some(_) => match caps {
            Some(g) => match group(g, 2) {
                Some(t) => Some(str_split(t, ", "@)),
                None => None,
            },
            None => Some(Seq::empty()),
        },
        None => Some(Seq::empty()),
    }
}

/// The RTP offset of the `mediaclk` attribute, 0 where there is none or it does not parse.
/// `None` where reading it panics (a missing group).
pub open spec fn rtp_offset_outcome(
    sd: SessionDescription,
    caps: Option<Seq<Option<Seq<char>>>>,
) -> Option<u32> {
    match mediaclk_text(sd) {
        Some(_) => match caps {
            Some(g) => match group(g, 1) {
                Some(t) => match parse_unsigned(t, u32::MAX as nat) {
                    Some(v) => Some(v as u32),
                    None => Some(0),
                },
                None => None,
            },
            None => Some(0),
        },
        None => Some(0),
    }
}

/// The destination address, or the error of finding it.
pub open spec fn destination_outcome(
    sd: SessionDescription,
    media: MediaDescription,
    destination_ip: Option<IpAddress>,
) -> Result<IpAddress, ConfigErrorView> {
    match media_connection(sd, media) {
        None => Err(
            ConfigErrorView::InvalidSdp(
                "no connection information for media "@ + media_line_text(media.media_name),
            ),
        ),
        Some(c) => match c.address {
            None => Err(ConfigErrorView::InvalidSdp("no address for media"@)),
            Some(a) => match address_ip_part(a.address@) {
                Some(ip_text) => match destination_ip {
                    Some(ip) => Ok(ip),
                    None => Err(ConfigErrorView::InvalidIp(ip_text)),
                },
                None => Err(ConfigErrorView::InvalidSdp("invalid ip address: "@ + a.address@)),
            },
        },
    }
}

/// What reading a session description gives, given the parsed origin address, the parsed
/// destination address, the parsed packet time and the three regular-expression matches;
/// `None` where reading it panics.
pub open spec fn session_outcome<M>(
    sd: SessionDescription,
    origin_ip: Option<IpAddress>,
    destination_ip: Option<IpAddress>,
    packet_time: Option<M>,
    rtpmap_caps: Option<Seq<Option<Seq<char>>>>,
    channels_caps: Option<Seq<Option<Seq<char>>>>,
    mediaclk_caps: Option<Seq<Option<Seq<char>>>>,
) -> Option<Result<SessionInfoView<M>, ConfigErrorView>> {
    if origin_ip is None {
        Some(Err(ConfigErrorView::InvalidIp(sd.origin.unicast_address@)))
    } else if sd.media_descriptions@.len() == 0 {
        Some(Err(ConfigErrorView::InvalidSdp("no media description found"@)))
    } else {
        let media = sd.media_descriptions@[0];
        if media.media_name.formats@.len() == 0 {
            Some(Err(ConfigErrorView::InvalidSdp("no media format found"@)))
        } else if rtpmap_text(sd) is None {
            Some(Err(ConfigErrorView::InvalidSdp("no rtpmap found"@)))
        } else {
            match rtpmap_outcome(rtpmap_caps) {
                None => None,
                Some(Err(e)) => Some(Err(e)),
                Some(Ok((payload_type, sample_format, rate, channels))) => match raw_labels_outcome(
                    sd,
                    channels_caps,
                ) {
                    None => None,
                    Some(raw_labels) => {
                        let labels = adjusted_labels(channels, raw_labels);
                        if payload_type != media.media_name.formats@[0]@ {
                            Some(
                                Err(
                                    ConfigErrorView::InvalidSdp(
                                        "rtpmap and media description payload types do not match"@,
                                    ),
                                ),
                            )
                        } else if ptime_text_of(sd) is None || packet_time is None {
                            Some(Err(ConfigErrorView::InvalidSdp("no ptime"@)))
                        } else {
                            match destination_outcome(sd, media, destination_ip) {
                                Err(e) => Some(Err(e)),
                                Ok(dest) => match rtp_offset_outcome(sd, mediaclk_caps) {
                                    None => None,
                                    Some(rtp_offset) => Some(
                                        Ok(
                                            SessionInfoView {
                                                id: SessionId {
                                                    id: sd.origin.session_id,
                                                    version: sd.origin.session_version,
                                                },
                                                name: sd.session_name@,
                                                destination_ip: dest,
                                                destination_port: media.media_name.port.value as u16,
                                                channels: channels as usize,
                                                sample_format,
                                                sample_rate: rate as u32,
                                                packet_time: packet_time.unwrap(),
                                                origin_ip: origin_ip.unwrap(),
                                                channel_labels: labels,
                                                rtp_offset,
                                            },
                                        ),
                                    ),
                                },
                            }
                        }
                    },
                },
            }
        }
    }
}

/// The matches that reading a session description asks the `regex` crate for.
pub open spec fn rtpmap_captures_of(sd: SessionDescription) -> Option<Seq<Option<Seq<char>>>> {
    match rtpmap_text(sd) {
        Some(t) => regex_captures(RTPMAP_PATTERN@, t),
        None => None,
    }
}

pub open spec fn channels_captures_of(sd: SessionDescription) -> Option<
    Seq<Option<Seq<char>>>,
> {
    match sd.session_information {
        Some(i) => regex_captures(CHANNELS_PATTERN@, i@),
        None => None,
    }
}

pub open spec fn mediaclk_captures_of(sd: SessionDescription) -> Option<
    Seq<Option<Seq<char>>>,
> {
    match mediaclk_text(sd) {
        Some(t) => regex_captures(MEDIACLK_PATTERN@, t),
        None => None,
    }
}

// ---------------------------------------------------------------------------------------------
// Reading the parts
// ---------------------------------------------------------------------------------------------

/// Reads the fields of an `rtpmap` match: payload type, sample format, sample rate and
/// channel count. No match is a malformed attribute; an encoding other than `L16` and
/// `L24` is an unsupported sample format.
pub fn rtpmap_fields(caps: &Option<Vec<Option<String>>>) -> (r: Result<RtpMap, ConfigError>)
    requires
        rtpmap_outcome(captures_view(*caps)) is Some,
    ensures
        match rtpmap_outcome(captures_view(*caps)).unwrap() {
            Ok((pt, f, rate, channels)) => r matches Ok(m) && m.payload_type@ == pt
                && m.sample_format == f && m.sample_rate == rate && m.channels == channels,
            Err(e) => r matches Err(err) && err@ == e,
        },
{
    let groups = match caps {
        Some(g) => g,
        None => return Err(ConfigError::InvalidSdp(owned("malformed rtpmap"))),
    };
    let payload_type = group_of(groups, 1).unwrap();
    let encoding = group_of(groups, 2).unwrap();
    let rate_text = group_of(groups, 3).unwrap();
    let channels_text = group_of(groups, 4).unwrap();
    let sample_format = SampleFormat::parse(encoding.as_str())?;
    let sample_rate = parse_decimal(rate_text.as_str(), u32::MAX as u64).unwrap();
    let channels = parse_decimal(channels_text.as_str(), usize::MAX as u64).unwrap();
    Ok(RtpMap { payload_type, sample_format, sample_rate: sample_rate as u32, channels: channels as usize })
}

/// Reads the channel labels from a `channels:` match of the session information and
/// adjusts them to the channel count.
pub fn channel_labels_from(
    sd: &SessionDescription,
    caps: &Option<Vec<Option<String>>>,
    channels: usize,
) -> (r: Vec<String>)
    requires
        raw_labels_outcome(*sd, captures_view(*caps)) is Some,
    ensures
        label_views(r@) == adjusted_labels(
            channels as nat,
            raw_labels_outcome(*sd, captures_view(*caps)).unwrap(),
        ),
{
    let mut labels: Vec<String> = match &sd.session_information {
        Some(_) => match caps {
            Some(groups) => {
                let text = group_of(groups, 2).unwrap();
                let pieces = split(text.as_str(), ", ");
                pieces
            },
            None => Vec::new(),
        },
        None => Vec::new(),
    };
    proof {
        assert(label_views(labels@) =~= raw_labels_outcome(*sd, captures_view(*caps)).unwrap());
    }
    adjust_labels_for_channel_count(channels, &mut labels);
    labels
}

/// Reads the RTP offset from a `direct=` match of the `mediaclk` attribute; 0 where there
/// is no such attribute, no match, or the number does not fit.
pub fn rtp_offset_from(sd: &SessionDescription, caps: &Option<Vec<Option<String>>>) -> (r: u32)
    requires
        rtp_offset_outcome(*sd, captures_view(*caps)) is Some,
    ensures
        Some(r) == rtp_offset_outcome(*sd, captures_view(*caps)),
{
    if mediaclk_text_exec(sd).is_none() {
        return 0;
    }
    match caps {
        Some(groups) => {
            let text = group_of(groups, 1).unwrap();
            match parse_decimal(text.as_str(), u32::MAX as u64) {
                Some(v) => v as u32,
                None => 0,
            }
        },
        None => 0,
    }
}

fn first_media_exec(sd: &SessionDescription) -> (r: Option<&MediaDescription>)
    ensures
        match first_media(*sd) {
            Some(m) => r == Some(&m),
            None => r is None,
        },
{
    if sd.media_descriptions.len() == 0 {
        None
    } else {
        Some(&sd.media_descriptions[0])
    }
}

fn mediaclk_text_exec(sd: &SessionDescription) -> (r: Option<&String>)
    ensures
        mediaclk_text(*sd) == (match r {
            Some(t) => Some(t@),
            None => None,
        }),
{
    match first_media_exec(sd) {
        Some(m) => m.attribute_text("mediaclk"),
        None => None,
    }
}

/// The text of the `ptime` attribute of the first media section, which the caller parses
/// into the packet time.
pub fn ptime_text(sd: &SessionDescription) -> (r: Option<String>)
    ensures
        ptime_text_of(*sd) == (match r {
            Some(t) => Some(t@),
            None => None,
        }),
{
    match first_media_exec(sd) {
        Some(m) => match m.attribute_text("ptime") {
            Some(t) => Some(t.clone()),
            None => None,
        },
        None => None,
    }
}

fn media_connection_exec<'a>(
    sd: &'a SessionDescription,
    media: &'a MediaDescription,
) -> (r: Option<&'a ConnectionInformation>)
    ensures
        match media_connection(*sd, *media) {
            Some(c) => r == Some(&c),
            None => r is None,
        },
{
    match &media.connection_information {
        Some(c) => Some(c),
        None => match &sd.connection_information {
            Some(c) => Some(c),
            None => None,
        },
    }
}

/// The address part of an `address/prefix` text, where the text has both parts.
pub fn address_ip_text(address: &str) -> (r: Option<String>)
    ensures
        address_ip_part(address@) == (match r {
            Some(t) => Some(t@),
            None => None,
        }),
{
    let pieces = split(address, "/");
    proof {
        assert(pieces@.map_values(|p: String| p@)[0] == pieces@[0]@);
    }
    if pieces.len() >= 2 {
        Some(pieces[0].clone())
    } else {
        None
    }
}

/// The text of the stream's destination IP address (the connection address that applies
/// to the first media section, without its prefix), which the caller parses.
pub fn destination_ip_text(sd: &SessionDescription) -> (r: Option<String>)
    ensures
        destination_ip_text_of(*sd) == (match r {
            Some(t) => Some(t@),
            None => None,
        }),
{
    match first_media_exec(sd) {
        Some(m) => match media_connection_exec(sd, m) {
            Some(c) => match &c.address {
                Some(a) => address_ip_text(a.address.as_str()),
                None => None,
            },
            None => None,
        },
        None => None,
    }
}

fn destination_from(
    sd: &SessionDescription,
    media: &MediaDescription,
    destination_ip: Option<IpAddress>,
) -> (r: Result<IpAddress, ConfigError>)
    ensures
        match destination_outcome(*sd, *media, destination_ip) {
            Ok(ip) => r == Ok::<IpAddress, ConfigError>(ip),
            Err(e) => r matches Err(err) && err@ == e,
        },
{
    let c = match media_connection_exec(sd, media) {
        Some(c) => c,
        None => {
            let mut msg = owned("no connection information for media ");
            let line = media.media_name.to_string();
            push_str(&mut msg, line.as_str());
            return Err(ConfigError::InvalidSdp(msg));
        },
    };
    let address = match &c.address {
        Some(a) => &a.address,
        None => return Err(ConfigError::InvalidSdp(owned("no address for media"))),
    };
    match address_ip_text(address.as_str()) {
        Some(ip_text) => match destination_ip {
            Some(ip) => Ok(ip),
            None => Err(ConfigError::InvalidIp(ip_text)),
        },
        None => {
            let mut msg = owned("invalid ip address: ");
            push_str(&mut msg, address.as_str());
            Err(ConfigError::InvalidSdp(msg))
        },
    }
}

impl<M> SessionInfo<M> {
    /// Reads what a receiver needs from a session description, given the three values
    /// that the caller parses: `origin_ip`, the origin's unicast address
    /// (`sd.origin.unicast_address`); `destination_ip`, the text that
    /// [`destination_ip_text`] gives; `packet_time`, the text that [`ptime_text`] gives, in
    /// milliseconds. Each is `None` where the text is absent or does not parse.
    ///
    /// The stream is the first media section. Its `rtpmap` gives payload type, sample
    /// format, sample rate and channel count; its `ptime` the packet time; its `mediaclk`
    /// the RTP offset (0 without one); its connection line, or the session's, the
    /// destination. The channel labels are those of a `<n> channels: a, b` session
    /// information, adjusted to the channel count. Where the numbers of the `rtpmap` do not
    /// fit their types the attribute counts as malformed.
    pub fn from_session_description(
        sd: &SessionDescription,
        origin_ip: Option<IpAddress>,
        destination_ip: Option<IpAddress>,
        packet_time: Option<M>,
    ) -> (r: Result<SessionInfo<M>, ConfigError>)
        ensures
            match session_outcome(
                *sd,
                origin_ip,
                destination_ip,
                packet_time,
                rtpmap_captures_of(*sd),
                channels_captures_of(*sd),
                mediaclk_captures_of(*sd),
            ) {
                Some(res) => result_view(r) == res,
                None => result_view(r) == Err::<SessionInfoView<M>, ConfigErrorView>(
                    ConfigErrorView::InvalidSdp("malformed rtpmap"@),
                ),
            },
            r matches Ok(si) ==> si.channel_labels@.len() == si.channels && forall|i: int|
                0 <= i < si.channel_labels@.len() ==> !is_blank(#[trigger] si.channel_labels@[i]@),
    {
        let origin_ip = match origin_ip {
            Some(ip) => ip,
            None => return Err(ConfigError::InvalidIp(sd.origin.unicast_address.clone())),
        };
        let media = match first_media_exec(sd) {
            Some(m) => m,
            None => return Err(ConfigError::InvalidSdp(owned("no media description found"))),
        };
        if media.media_name.formats.len() == 0 {
            return Err(ConfigError::InvalidSdp(owned("no media format found")));
        }
        let fmt = &media.media_name.formats[0];
        let rtpmap = match media.attribute_text("rtpmap") {
            Some(t) => t,
            None => return Err(ConfigError::InvalidSdp(owned("no rtpmap found"))),
        };
        let rtpmap_caps = captures(RTPMAP_PATTERN, rtpmap.as_str());
        if !rtpmap_readable(&rtpmap_caps) {
            return Err(ConfigError::InvalidSdp(owned("malformed rtpmap")));
        }
        let map = rtpmap_fields(&rtpmap_caps)?;
        let channels_caps = match &sd.session_information {
            Some(i) => captures(CHANNELS_PATTERN, i.as_str()),
            None => None,
        };
        if !labels_readable(sd, &channels_caps) {
            return Err(ConfigError::InvalidSdp(owned("malformed rtpmap")));
        }
        let channel_labels = channel_labels_from(sd, &channels_caps, map.channels);
        proof {
            let raw = raw_labels_outcome(*sd, captures_view(channels_caps)).unwrap();
            lemma_one_label_per_channel(map.channels as nat, raw);
            lemma_no_blank_label(map.channels as nat, raw);
            assert forall|i: int| 0 <= i < channel_labels@.len() implies !is_blank(
                #[trigger] channel_labels@[i]@,
            ) by {
                assert(label_views(channel_labels@)[i] == channel_labels@[i]@);
            }
        }
        if !str_eq(map.payload_type.as_str(), fmt.as_str()) {
            return Err(
                ConfigError::InvalidSdp(
                    owned("rtpmap and media description payload types do not match"),
                ),
            );
        }
        let packet_time = match (media.attribute_text("ptime"), packet_time) {
            (Some(_), Some(p)) => p,
            _ => return Err(ConfigError::InvalidSdp(owned("no ptime"))),
        };
        let destination_ip = destination_from(sd, media, destination_ip)?;
        let mediaclk_caps = match media.attribute_text("mediaclk") {
            Some(t) => captures(MEDIACLK_PATTERN, t.as_str()),
            None => None,
        };
        if !offset_readable(sd, &mediaclk_caps) {
            return Err(ConfigError::InvalidSdp(owned("malformed rtpmap")));
        }
        let rtp_offset = rtp_offset_from(sd, &mediaclk_caps);
        let info = SessionInfo {
            id: SessionId { id: sd.origin.session_id, version: sd.origin.session_version },
            name: sd.session_name.clone(),
            destination_ip,
            destination_port: media.media_name.port.value as u16,
            channels: map.channels,
            sample_format: map.sample_format,
            sample_rate: map.sample_rate,
            packet_time,
            origin_ip,
            channel_labels,
            rtp_offset,
        };
        Ok(info)
    }
}

fn rtpmap_readable(caps: &Option<Vec<Option<String>>>) -> (r: bool)
    ensures
        r == rtpmap_outcome(captures_view(*caps)) is Some,
{
    match caps {
        None => true,
        Some(groups) => {
            let g1 = group_of(groups, 1);
            let g2 = group_of(groups, 2);
            let g3 = group_of(groups, 3);
            let g4 = group_of(groups, 4);
            match (g1, g2, g3, g4) {
                (Some(_), Some(encoding), Some(rate), Some(channels)) => {
                    match SampleFormat::parse(encoding.as_str()) {
                        Err(_) => true,
                        Ok(_) => parse_decimal(rate.as_str(), u32::MAX as u64).is_some()
                            && parse_decimal(channels.as_str(), usize::MAX as u64).is_some(),
                    }
                },
                _ => false,
            }
        },
    }
}

fn labels_readable(sd: &SessionDescription, caps: &Option<Vec<Option<String>>>) -> (r: bool)
    ensures
        r == raw_labels_outcome(*sd, captures_view(*caps)) is Some,
{
    match &sd.session_information {
        Some(_) => match caps {
            Some(groups) => group_of(groups, 2).is_some(),
            None => true,
        },
        None => true,
    }
}

fn offset_readable(sd: &SessionDescription, caps: &Option<Vec<Option<String>>>) -> (r: bool)
    ensures
        r == rtp_offset_outcome(*sd, captures_view(*caps)) is Some,
{
    if mediaclk_text_exec(sd).is_none() {
        return true;
    }
    match caps {
        Some(groups) => group_of(groups, 1).is_some(),
        None => true,
    }
}

} // verus!
