//! A session description (SDP, RFC 8866) as plain values: the parts that the library reads.

use crate::text::{push_char, push_signed_decimal, push_str, signed_decimal, str_eq};
use ::sdp::description::common::ConnectionInformation as SdpConnection;
use ::sdp::SessionDescription as SdpSession;
use std::io::Cursor;
use vstd::prelude::*;

verus! {

/// The `o=` line: the session's id and version and the address of its origin.
#[derive(Debug, Clone)]
pub struct Origin {
    pub session_id: u64,
    pub session_version: u64,
    pub unicast_address: String,
}

/// The address part of a `c=` line, as written there.
#[derive(Debug, Clone)]
pub struct Address {
    pub address: String,
}

/// A `c=` line.
#[derive(Debug, Clone)]
pub struct ConnectionInformation {
    pub network_type: String,
    pub address_type: String,
    pub address: Option<Address>,
}

/// The port of an `m=` line.
#[derive(Debug, Clone)]
pub struct RangedPort {
    pub value: isize,
    pub range: Option<isize>,
}

/// An `m=` line.
#[derive(Debug, Clone)]
pub struct MediaName {
    pub media: String,
    pub port: RangedPort,
    pub protos: Vec<String>,
    pub formats: Vec<String>,
}

/// An `a=` line: a key with an optional value.
#[derive(Debug, Clone)]
pub struct Attribute {
    pub key: String,
    pub value: Option<String>,
}

/// A media section.
#[derive(Debug, Clone)]
pub struct MediaDescription {
    pub media_name: MediaName,
    pub connection_information: Option<ConnectionInformation>,
    pub attributes: Vec<Attribute>,
}

/// A session description.
#[derive(Debug, Clone)]
pub struct SessionDescription {
    pub origin: Origin,
    pub session_name: String,
    pub session_information: Option<String>,
    pub connection_information: Option<ConnectionInformation>,
    pub media_descriptions: Vec<MediaDescription>,
}

/// The value of the first attribute with the given key: `Some(None)` for an attribute
/// without value, `None` where no attribute has the key.
pub open spec fn first_attribute(attrs: Seq<Attribute>, key: Seq<char>) -> Option<
    Option<Seq<char>>,
>
    decreases attrs.len(),
{
    if attrs.len() == 0 {
        None
    } else if attrs[0].key@ == key {
        Some(
            match attrs[0].value {
                Some(v) => Some(v@),
                None => None,
            },
        )
    } else {
        first_attribute(attrs.drop_first(), key)
    }
}

/// A present attribute with a value, as a plain option.
pub open spec fn attribute_value(attrs: Seq<Attribute>, key: Seq<char>) -> Option<Seq<char>> {
    match first_attribute(attrs, key) {
        Some(Some(v)) => Some(v),
        _ => None,
    }
}

impl MediaDescription {
    /// The value of the first attribute with the given key (`Some(None)` when it has none).
    pub fn attribute(&self, key: &str) -> (r: Option<Option<&String>>)
        ensures
            first_attribute(self.attributes@, key@) == (match r {
                Some(Some(v)) => Some(Some(v@)),
                Some(None) => Some(None::<Seq<char>>),
                None => None,
            }),
    {
        let n = self.attributes.len();
        let mut i: usize = 0;
        assert(self.attributes@.skip(0) =~= self.attributes@);
        while i < n
            invariant
                n == self.attributes@.len(),
                i <= n,
                first_attribute(self.attributes@, key@) == first_attribute(
                    self.attributes@.skip(i as int),
                    key@,
                ),
            decreases n - i,
        {
            let a = &self.attributes[i];
            proof {
                assert(self.attributes@.skip(i as int)[0] == self.attributes@[i as int]);
                assert(self.attributes@.skip(i as int).drop_first() =~= self.attributes@.skip(
                    i as int + 1,
                ));
            }
            if str_eq(a.key.as_str(), key) {
                return match &a.value {
                    Some(v) => Some(Some(v)),
                    None => Some(None),
                };
            }
            i = i + 1;
        }
        None
    }

    /// The value of the first attribute with the given key, where it has one.
    pub fn attribute_text(&self, key: &str) -> (r: Option<&String>)
        ensures
            attribute_value(self.attributes@, key@) == (match r {
                Some(v) => Some(v@),
                None => None,
            }),
    {
        match self.attribute(key) {
            Some(Some(v)) => Some(v),
            _ => None,
        }
    }
}


/// The text of a port: the number, then `/` and the range where there is one.
pub open spec fn port_text(p: RangedPort) -> Seq<char> {
    match p.range {
        Some(r) => signed_decimal(p.value as int) + seq!['/'] + signed_decimal(r as int),
        None => signed_decimal(p.value as int),
    }
}

/// The protocols of an `m=` line: a space before the first, `/` between the others.
pub open spec fn protos_text(protos: Seq<Seq<char>>) -> Seq<char>
    decreases protos.len(),
{
    if protos.len() == 0 {
        Seq::empty()
    } else if protos.len() == 1 {
        seq![' '] + protos[0]
    } else {
        protos_text(protos.drop_last()) + seq!['/'] + protos.last()
    }
}

/// The formats of an `m=` line, each after a space.
pub open spec fn formats_text(formats: Seq<Seq<char>>) -> Seq<char>
    decreases formats.len(),
{
    if formats.len() == 0 {
        Seq::empty()
    } else {
        formats_text(formats.drop_last()) + seq![' '] + formats.last()
    }
}

/// The characters of each string.
pub open spec fn string_views(v: Seq<String>) -> Seq<Seq<char>> {
    v.map_values(|s: String| s@)
}

/// The value of an `m=` line as the session description writes it:
/// media, port, protocols and formats.
pub open spec fn media_line_text(m: MediaName) -> Seq<char> {
    m.media@ + seq![' '] + port_text(m.port) + protos_text(string_views(m.protos@))
        + formats_text(string_views(m.formats@))
}

impl MediaName {
    /// The value of the `m=` line, as the session description writes it.
    pub fn to_string(&self) -> (r: String)
        ensures
            r@ == media_line_text(*self),
    {
        let mut out = String::new();
        push_str(&mut out, self.media.as_str());
        push_char(&mut out, ' ');
        push_signed_decimal(&mut out, self.port.value as i64);
        if let Some(range) = self.port.range {
            push_char(&mut out, '/');
            push_signed_decimal(&mut out, range as i64);
        }
        let ghost head = out@;
        assert(head =~= self.media@ + seq![' '] + port_text(self.port));
        let ghost protos = string_views(self.protos@);
        let n = self.protos.len();
        let mut i: usize = 0;
        assert(protos.take(0) =~= Seq::<Seq<char>>::empty());
        while i < n
            invariant
                n == self.protos@.len(),
                protos == string_views(self.protos@),
                i <= n,
                out@ == head + protos_text(protos.take(i as int)),
            decreases n - i,
        {
            let part = &self.protos[i];
            if i == 0 {
                push_char(&mut out, ' ');
            } else {
                push_char(&mut out, '/');
            }
            push_str(&mut out, part.as_str());
            proof {
                let t = protos.take(i as int + 1);
                assert(t.drop_last() =~= protos.take(i as int));
                assert(t.last() == part@);
                if i == 0 {
                    assert(protos_text(t.drop_last()) =~= Seq::<char>::empty());
                }
            }
            i = i + 1;
            assert(out@ =~= head + protos_text(protos.take(i as int)));
        }
        assert(protos.take(n as int) =~= protos);
        let ghost middle = out@;
        let ghost formats = string_views(self.formats@);
        let m = self.formats.len();
        let mut j: usize = 0;
        assert(formats.take(0) =~= Seq::<Seq<char>>::empty());
        assert(middle =~= middle + formats_text(formats.take(0)));
        while j < m
            invariant
                m == self.formats@.len(),
                formats == string_views(self.formats@),
                j <= m,
                out@ == middle + formats_text(formats.take(j as int)),
            decreases m - j,
        {
            let part = &self.formats[j];
            push_char(&mut out, ' ');
            push_str(&mut out, part.as_str());
            proof {
                let t = formats.take(j as int + 1);
                assert(t.drop_last() =~= formats.take(j as int));
                assert(t.last() == part@);
            }
            j = j + 1;
            assert(out@ =~= middle + formats_text(formats.take(j as int)));
        }
        assert(formats.take(m as int) =~= formats);
        out
    }
}

impl ConnectionInformation {
    /// A `c=` line of the given network type, address type and address.
    pub fn new(network_type: String, address_type: String, address: Option<String>) -> (r: Self)
        ensures
            r.network_type == network_type,
            r.address_type == address_type,
            r.address == (match address {
                Some(a) => Some(Address { address: a }),
                None => None,
            }),
    {
        let address = match address {
            Some(a) => Some(Address { address: a }),
            None => None,
        };
        ConnectionInformation { network_type, address_type, address }
    }
}

impl MediaDescription {
    /// A media section: its `m=` line, its `c=` line and its attributes, each a key with an
    /// optional value.
    pub fn new(
        media: String,
        port_value: isize,
        port_range: Option<isize>,
        protos: Vec<String>,
        formats: Vec<String>,
        connection_information: Option<ConnectionInformation>,
        attributes: Vec<(String, Option<String>)>,
    ) -> (r: Self)
        ensures
            r.media_name == (MediaName {
                media,
                port: RangedPort { value: port_value, range: port_range },
                protos,
                formats,
            }),
            r.connection_information == connection_information,
            r.attributes@.len() == attributes@.len(),
            forall|i: int|
                0 <= i < attributes@.len() ==> (#[trigger] r.attributes@[i]).key
                    == attributes@[i].0 && r.attributes@[i].value == attributes@[i].1,
    {
        let mut attrs: Vec<Attribute> = Vec::new();
        let mut rest = attributes;
        let ghost all = rest@;
        while rest.len() > 0
            invariant
                all == attributes@,
                attrs@.len() + rest@.len() == all.len(),
                rest@ == all.subrange(attrs@.len() as int, all.len() as int),
                forall|i: int|
                    0 <= i < attrs@.len() ==> (#[trigger] attrs@[i]).key == all[i].0
                        && attrs@[i].value == all[i].1,
            decreases rest.len(),
        {
            let (key, value) = rest.remove(0);
            attrs.push(Attribute { key, value });
        }
        MediaDescription {
            media_name: MediaName { media, port: RangedPort { value: port_value, range: port_range }, protos, formats },
            connection_information,
            attributes: attrs,
        }
    }
}

impl SessionDescription {
    /// A session description of the given origin, name, information, connection and media
    /// sections.
    pub fn new(
        session_id: u64,
        session_version: u64,
        unicast_address: String,
        session_name: String,
        session_information: Option<String>,
        connection_information: Option<ConnectionInformation>,
        media_descriptions: Vec<MediaDescription>,
    ) -> (r: Self)
        ensures
            r == (SessionDescription {
                origin: Origin { session_id, session_version, unicast_address },
                session_name,
                session_information,
                connection_information,
                media_descriptions,
            }),
    {
        SessionDescription {
            origin: Origin { session_id, session_version, unicast_address },
            session_name,
            session_information,
            connection_information,
            media_descriptions,
        }
    }
}

/// The session description that the `sdp` crate reads from a text, in the parts the
/// library keeps; `None` where the crate refuses the text.
pub uninterp spec fn sdp_unmarshal(text: Seq<char>) -> Option<SessionDescription>;

/// `sdp::SessionDescription::unmarshal` on the text, its result kept in the parts the
/// library reads: the result is [`sdp_unmarshal`] of the text.
#[verifier::external_body]
pub fn parse_session_description(text: &str) -> (r: Option<SessionDescription>)
    ensures
        r == sdp_unmarshal(text@),
{
    let s = SdpSession::unmarshal(&mut Cursor::new(text)).ok()?;
    let conn = |c: SdpConnection| ConnectionInformation::new(c.network_type, c.address_type, c.address.map(|a| a.address));
    let media = s.media_descriptions.into_iter().map(|m| {
        let n = m.media_name;
        MediaDescription::new(n.media, n.port.value, n.port.range, n.protos, n.formats, m.connection_information.map(conn), m.attributes.into_iter().map(|a| (a.key, a.value)).collect())
    });
    let o = s.origin;
    Some(SessionDescription::new(o.session_id, o.session_version, o.unicast_address, s.session_name, s.session_information, s.connection_information.map(conn), media.collect()))
}

} // verus!
