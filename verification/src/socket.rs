//! Which socket a receiver opens for the stream of a session description.

use crate::address::IpAddress;
use crate::error::{ConfigError, ConfigErrorView};
use crate::receiver::config::{address_ip_part, address_ip_text, media_connection};
use crate::sdp::{Address, ConnectionInformation, MediaDescription, SessionDescription};
use crate::text::{owned, push_str, str_eq};
use vstd::prelude::*;

verus! {

/// How to open the receive socket of a stream.
#[derive(Debug, Clone, Copy, PartialEq, Eq, Structural)]
pub struct RxSocketPlan {
    /// The stream's destination address.
    pub stream_ip: IpAddress,
    /// The local address the receiver uses.
    pub local_ip: IpAddress,
    /// The stream's port.
    pub port: u16,
    /// Whether the stream is multicast: the socket then joins the group on `local_ip`.
    pub join_multicast: bool,
    /// The address the socket binds to, with `port`: the group for a multicast stream,
    /// the local address otherwise.
    pub bind_ip: IpAddress,
}

/// The text that `Debug` prints for a list of protocol names.
pub uninterp spec fn protos_debug_text(protos: Seq<Seq<char>>) -> Seq<char>;

/// `format!("{protos:?}")`. Claimed: the text that std's `Debug` writes for a `Vec<String>`.
#[verifier::external_body]
fn protos_debug(protos: &Vec<String>) -> (r: String)
    ensures
        r@ == protos_debug_text(protos@.map_values(|p: String| p@)),
{
    format!("{protos:?}")
}

pub open spec fn is_multicast(ip: IpAddress) -> bool {
    match ip {
        IpAddress::V4(a) => a / 0x1000_0000 == 0xE,
        IpAddress::V6(a) => a / 0x0100_0000_0000_0000_0000_0000_0000_0000 == 0xFF,
    }
}

pub open spec fn socket_plan(stream_ip: IpAddress, local_ip: IpAddress, port: u16) -> RxSocketPlan {
    RxSocketPlan {
        stream_ip,
        local_ip,
        port,
        join_multicast: is_multicast(stream_ip),
        bind_ip: if is_multicast(stream_ip) {
            stream_ip
        } else {
            local_ip
        },
    }
}

pub open spec fn has_proto(protos: Seq<String>, p: Seq<char>) -> bool {
    exists|i: int| 0 <= i < protos.len() && #[trigger] protos[i]@ == p
}

/// What checking a session description for reception gives; `stream_ip` is the parse of
/// the text that `destination_ip_text` gives.
pub open spec fn rx_socket_outcome(
    sd: SessionDescription,
    local_ip: IpAddress,
    stream_ip: Option<IpAddress>,
) -> Result<RxSocketPlan, ConfigErrorView> {
    if sd.media_descriptions@.len() > 1 {
        Err(ConfigErrorView::InvalidSdp("redundant streams aren't supported yet"@))
    } else if sd.media_descriptions@.len() == 0 {
        Err(ConfigErrorView::InvalidSdp("media description is missing"@))
    } else {
        let media = sd.media_descriptions@[0];
        if media.media_name.media@ != "audio"@ {
            Err(ConfigErrorView::InvalidSdp("unsupported media type: "@ + media.media_name.media@))
        } else if !(has_proto(media.media_name.protos@, "RTP"@) && has_proto(
            media.media_name.protos@,
            "AVP"@,
        )) {
            Err(
                ConfigErrorView::InvalidSdp(
                    "unsupported media protocols: "@ + protos_debug_text(
                        media.media_name.protos@.map_values(|p: String| p@),
                    ) + "; only RTP/AVP is supported"@,
                ),
            )
        } else {
            match media_connection(sd, media) {
                None => Err(ConfigErrorView::InvalidSdp("connection data is missing"@)),
                Some(c) => match c.address {
                    None => Err(ConfigErrorView::InvalidSdp("connection-address is missing"@)),
                    Some(a) => if c.address_type@ != "IP4"@ && c.address_type@ != "IP6"@ {
                        Err(ConfigErrorView::InvalidSdp("unsupported addrtype: "@ + c.address_type@))
                    } else if c.network_type@ != "IN"@ {
                        Err(ConfigErrorView::InvalidSdp("unsupported nettype: "@ + c.network_type@))
                    } else {
                        match address_ip_part(a.address@) {
                            None => Err(
                                ConfigErrorView::InvalidSdp("invalid ip address: "@ + a.address@),
                            ),
                            Some(ip_text) => match stream_ip {
                                None => Err(ConfigErrorView::InvalidIp(ip_text)),
                                Some(ip) => {
                                    let port = media.media_name.port.value as u16;
                                    match (ip, local_ip) {
                                        (IpAddress::V4(_), IpAddress::V6(_)) => Err(
                                            ConfigErrorView::InvalidLocalIP(
                                                "Cannot receive IPv4 stream when bound to local IPv6 address"@,
                                            ),
                                        ),
                                        (IpAddress::V6(_), IpAddress::V4(_)) => Err(
                                            ConfigErrorView::InvalidLocalIP(
                                                "Cannot receive IPv6 stream when bound to local IPv4 address"@,
                                            ),
                                        ),
                                        _ => Ok(socket_plan(ip, local_ip, port)),
                                    }
                                },
                            },
                        }
                    },
                },
            }
        }
    }
}

fn contains_proto(protos: &Vec<String>, p: &str) -> (r: bool)
    ensures
        r == has_proto(protos@, p@),
{
    let n = protos.len();
    let mut i: usize = 0;
    while i < n
        invariant
            n == protos@.len(),
            i <= n,
            forall|j: int| 0 <= j < i ==> protos@[j]@ != p@,
        decreases n - i,
    {
        if str_eq(protos[i].as_str(), p) {
            return true;
        }
        i = i + 1;
    }
    false
}

fn invalid_sdp(prefix: &str, detail: &str) -> (r: ConfigError)
    ensures
        r@ == ConfigErrorView::InvalidSdp(prefix@ + detail@),
{
    let mut msg = owned(prefix);
    push_str(&mut msg, detail);
    ConfigError::InvalidSdp(msg)
}

/// Checks that a session description describes one RTP/AVP audio stream on an IP
/// connection whose address family matches the local address, and says how to open
/// its socket. `stream_ip` is the caller's parse of the text that
/// `destination_ip_text` gives (`None` where it does not parse).
pub fn rx_socket_plan(
    sd: &SessionDescription,
    local_ip: IpAddress,
    stream_ip: Option<IpAddress>,
) -> (r: Result<RxSocketPlan, ConfigError>)
    ensures
        match rx_socket_outcome(*sd, local_ip, stream_ip) {
            Ok(plan) => r == Ok::<RxSocketPlan, ConfigError>(plan),
            Err(e) => r matches Err(err) && err@ == e,
        },
{
    if sd.media_descriptions.len() > 1 {
        return Err(ConfigError::InvalidSdp(owned("redundant streams aren't supported yet")));
    }
    if sd.media_descriptions.len() == 0 {
        return Err(ConfigError::InvalidSdp(owned("media description is missing")));
    }
    let media: &MediaDescription = &sd.media_descriptions[0];
    if !str_eq(media.media_name.media.as_str(), "audio") {
        return Err(invalid_sdp("unsupported media type: ", media.media_name.media.as_str()));
    }
    if !(contains_proto(&media.media_name.protos, "RTP") && contains_proto(
        &media.media_name.protos,
        "AVP",
    )) {
        let mut msg = owned("unsupported media protocols: ");
        let protos = protos_debug(&media.media_name.protos);
        push_str(&mut msg, protos.as_str());
        push_str(&mut msg, "; only RTP/AVP is supported");
        return Err(ConfigError::InvalidSdp(msg));
    }
    let c = match &media.connection_information {
        Some(c) => c,
        None => match &sd.connection_information {
            Some(c) => c,
            None => return Err(ConfigError::InvalidSdp(owned("connection data is missing"))),
        },
    };
    let address = match &c.address {
        Some(a) => &a.address,
        None => return Err(ConfigError::InvalidSdp(owned("connection-address is missing"))),
    };
    if !str_eq(c.address_type.as_str(), "IP4") && !str_eq(c.address_type.as_str(), "IP6") {
        return Err(invalid_sdp("unsupported addrtype: ", c.address_type.as_str()));
    }
    if !str_eq(c.network_type.as_str(), "IN") {
        return Err(invalid_sdp("unsupported nettype: ", c.network_type.as_str()));
    }
    let ip_text = match address_ip_text(address.as_str()) {
        Some(t) => t,
        None => return Err(invalid_sdp("invalid ip address: ", address.as_str())),
    };
    let ip = match stream_ip {
        Some(ip) => ip,
        None => return Err(ConfigError::InvalidIp(ip_text)),
    };
    let port = media.media_name.port.value as u16;
    match (ip, local_ip) {
        (IpAddress::V4(_), IpAddress::V6(_)) => Err(
            ConfigError::InvalidLocalIP(
                owned("Cannot receive IPv4 stream when bound to local IPv6 address"),
            ),
        ),
        (IpAddress::V6(_), IpAddress::V4(_)) => Err(
            ConfigError::InvalidLocalIP(
                owned("Cannot receive IPv6 stream when bound to local IPv4 address"),
            ),
        ),
        _ => {
            let multicast = ip.is_multicast();
            let bind_ip = if multicast {
                ip
            } else {
                local_ip
            };
            Ok(RxSocketPlan { stream_ip: ip, local_ip, port, join_multicast: multicast, bind_ip })
        },
    }
}

/// A single audio RTP/AVP media section with its own connection line (`IN`, `IP4` or
/// `IP6`, with an address) is received on that line's address, whatever the session-level
/// line says: the plan has the parsed destination address, the local address and the
/// media section's port.
pub proof fn lemma_rx_socket_uses_media_connection(
    sd: SessionDescription,
    c: ConnectionInformation,
    a: Address,
    local_ip: IpAddress,
    ip: IpAddress,
)
    requires
        sd.media_descriptions@.len() == 1,
        sd.media_descriptions@[0].media_name.media@ == "audio"@,
        has_proto(sd.media_descriptions@[0].media_name.protos@, "RTP"@),
        has_proto(sd.media_descriptions@[0].media_name.protos@, "AVP"@),
        sd.media_descriptions@[0].connection_information == Some(c),
        c.network_type@ == "IN"@,
        c.address_type@ == "IP4"@ || c.address_type@ == "IP6"@,
        c.address == Some(a),
        address_ip_part(a.address@) is Some,
        !(ip is V4 && local_ip is V6),
        !(ip is V6 && local_ip is V4),
    ensures
        rx_socket_outcome(sd, local_ip, Some(ip)) matches Ok(p) && p.stream_ip == ip && p.local_ip
            == local_ip && p.port == sd.media_descriptions@[0].media_name.port.value as u16,
{
}

} // verus!
