//! Offers and answers: what a call's audio is to be, as SDP.

use base64::Engine;
use sdp_rs::lines::attribute::{Attribute, Rtpmap};
use sdp_rs::lines::common::{Addrtype, Nettype};
use sdp_rs::lines::connection::ConnectionAddress;
use sdp_rs::lines::media::{MediaType, ProtoType};
use sdp_rs::lines::{Connection, Media, Origin};
use sdp_rs::MediaDescription;
use vstd::prelude::*;

use crate::net::{IpAddress, PeerAddress};
use crate::random::{random_key, random_u64};
use crate::signaling::error::{CoreError, ErrorView};
use crate::signaling::times::{
    calm_texts_hold_no_time, calm_texts_join, endless_time, has_endless_time, is_calm,
};
use crate::text::{
    chars, copy_text, decimal, decimal_reads_back, find_from, first_from_is_least, first_of,
    is_digit, is_space, lowered, occurs_at, opt_text, push_all, push_number, read_unsigned,
    same_text, same_text_any_case, split_words, string_of, texts, unsigned, word_end,
    word_end_bounds, words, words_from,
};

verus! {

/// The payload type used for telephone events. It is fixed: nothing else here
/// uses the range of numbers that are agreed on.
pub const TELEPHONE_EVENT_PT: u8 = 101;

/// How many samples a second all audio has here.
pub const CLOCK_RATE: u16 = 8000;

// ---------------------------------------------------------------------------
// Offers

/// What a call's audio is to be.
#[derive(Debug)]
pub struct MediaOffer {
    pub port: u16,
    /// The codecs, the best first. An answer settles on one. Telephone events
    /// are never among them.
    pub payload_types: Vec<u8>,
    /// The payload type of telephone events, if digits can be sent that way.
    pub telephone_event_pt: Option<u8>,
    /// The key of encrypted audio, in base64; none for plain audio.
    pub crypto_key: Option<String>,
    /// Where the other side receives; none in an offer of our own.
    pub remote_addr: Option<PeerAddress>,
    /// Whether the call is put on hold.
    pub hold: bool,
}

/// An offer as a plain value.
pub struct OfferView {
    pub port: u16,
    pub payload_types: Seq<u8>,
    pub telephone_event_pt: Option<u8>,
    pub crypto_key: Option<Seq<char>>,
    pub remote_addr: Option<(Seq<char>, u16)>,
    pub hold: bool,
}

impl View for MediaOffer {
    type V = OfferView;

    open spec fn view(&self) -> OfferView {
        OfferView {
            port: self.port,
            payload_types: self.payload_types@,
            telephone_event_pt: self.telephone_event_pt,
            crypto_key: opt_text(self.crypto_key),
            remote_addr: match self.remote_addr {
                Some(a) => Some(a@),
                None => None,
            },
            hold: self.hold,
        }
    }
}

/// The characters of base64.
pub open spec fn is_base64(c: char) -> bool {
    'A' <= c <= 'Z' || 'a' <= c <= 'z' || '0' <= c <= '9' || c == '+' || c == '/' || c == '='
}

/// Bytes in base64.
pub uninterp spec fn base64_text(bytes: Seq<u8>) -> Seq<char>;

/// Writes a key in base64.
///
/// `STANDARD.encode` of the base64 crate. Claimed: the result depends on the
/// bytes alone; thirty bytes take forty characters, all of the base64
/// alphabet.
#[verifier::external_body]
fn base64_encode(key: &[u8; 30]) -> (s: String)
    ensures
        s@ == base64_text(key@),
        s@.len() == 40,
        forall|i: int| 0 <= i < s@.len() ==> is_base64(#[trigger] s@[i]),
{
    base64::engine::general_purpose::STANDARD.encode(key)
}

fn copy_bytes(v: &[u8]) -> (r: Vec<u8>)
    ensures
        r@ == v@,
{
    let mut r: Vec<u8> = Vec::new();
    let mut i: usize = 0;
    while i < v.len()
        invariant
            i <= v@.len(),
            r@ == v@.take(i as int),
        decreases v.len() - i,
    {
        r.push(v[i]);
        i = i + 1;
        assert(v@.take(i as int) =~= v@.take(i - 1).push(v@[i - 1]));
    }
    assert(v@.take(v@.len() as int) =~= v@);
    r
}

/// An offer of our own, with the given key if it is to be encrypted.
pub fn offer_with_key(
    port: u16,
    key: Option<[u8; 30]>,
    hold: bool,
    payload_types: &[u8],
    telephone_event: bool,
) -> (offer: MediaOffer)
    ensures
        offer@ == (OfferView {
            port,
            payload_types: payload_types@,
            telephone_event_pt: if telephone_event {
                Some(TELEPHONE_EVENT_PT)
            } else {
                None
            },
            crypto_key: match key {
                Some(k) => Some(base64_text(k@)),
                None => None,
            },
            remote_addr: None,
            hold,
        }),
        offer@.crypto_key matches Some(k) ==> is_key(k),
{
    let crypto_key: Option<String> = match key {
        Some(k) => Some(base64_encode(&k)),
        None => None,
    };
    MediaOffer {
        port,
        payload_types: copy_bytes(payload_types),
        telephone_event_pt: if telephone_event {
            Some(TELEPHONE_EVENT_PT)
        } else {
            None
        },
        crypto_key,
        remote_addr: None,
        hold,
    }
}

/// Whether a text can be a key: nothing but characters of base64.
pub open spec fn is_key(k: Seq<char>) -> bool {
    forall|i: int| 0 <= i < k.len() ==> is_base64(#[trigger] k[i])
}

/// An offer of our own, with a fresh key if it is to be encrypted.
pub fn generate_offer(
    port: u16,
    srtp: bool,
    hold: bool,
    payload_types: &[u8],
    telephone_event: bool,
) -> (offer: MediaOffer)
    ensures
        offer@.port == port,
        offer@.payload_types == payload_types@,
        offer@.telephone_event_pt == (if telephone_event {
            Some(TELEPHONE_EVENT_PT)
        } else {
            None::<u8>
        }),
        offer@.crypto_key is Some == srtp,
        offer@.crypto_key matches Some(k) ==> is_key(k) && exists|key: [u8; 30]|
            k == #[trigger] base64_text(key@),
        offer@.remote_addr is None,
        offer@.hold == hold,
{
    let key: Option<[u8; 30]> = if srtp {
        Some(random_key())
    } else {
        None
    };
    offer_with_key(port, key, hold, payload_types, telephone_event)
}

/// The first of `preference[i..]` that was offered.
pub open spec fn first_offered(offered: Seq<u8>, preference: Seq<u8>, i: int) -> Option<u8>
    decreases preference.len() - i,
{
    if i < 0 || i >= preference.len() {
        None
    } else if offered.contains(preference[i]) {
        Some(preference[i])
    } else {
        first_offered(offered, preference, i + 1)
    }
}

/// The codec to use: the one we like best of those that were offered, or the
/// first offered if we like none of them.
pub open spec fn selected(offered: Seq<u8>, preference: Seq<u8>) -> Option<u8> {
    match first_offered(offered, preference, 0) {
        Some(pt) => Some(pt),
        None => if offered.len() > 0 {
            Some(offered[0])
        } else {
            None
        },
    }
}

fn holds(v: &[u8], x: u8) -> (r: bool)
    ensures
        r == v@.contains(x),
{
    let mut i: usize = 0;
    while i < v.len()
        invariant
            i <= v@.len(),
            forall|j: int| 0 <= j < i ==> v@[j] != x,
        decreases v.len() - i,
    {
        if v[i] == x {
            assert(v@[i as int] == x);
            return true;
        }
        i = i + 1;
    }
    false
}

/// The codec to use of those that were offered.
pub fn select_payload_type(offered: &[u8], preference: &[u8]) -> (r: Option<u8>)
    ensures
        r == selected(offered@, preference@),
{
    let mut i: usize = 0;
    while i < preference.len()
        invariant
            i <= preference@.len(),
            first_offered(offered@, preference@, 0) == first_offered(
                offered@,
                preference@,
                i as int,
            ),
        decreases preference.len() - i,
    {
        if holds(offered, preference[i]) {
            return Some(preference[i]);
        }
        i = i + 1;
    }
    if offered.len() > 0 {
        Some(offered[0])
    } else {
        None
    }
}

// ---------------------------------------------------------------------------
// What is sent

/// A line of attributes.
#[derive(Debug)]
pub enum SdpAttribute {
    Rtpmap { payload_type: u8, encoding_name: String, clock_rate: u16 },
    Sendonly,
    Other { key: String, value: String },
}

/// A line of attributes as a plain value.
pub enum AttributeView {
    Rtpmap { payload_type: u8, encoding_name: Seq<char>, clock_rate: u16 },
    Sendonly,
    Other { key: Seq<char>, value: Seq<char> },
}

impl View for SdpAttribute {
    type V = AttributeView;

    open spec fn view(&self) -> AttributeView {
        match self {
            SdpAttribute::Rtpmap { payload_type, encoding_name, clock_rate } => AttributeView::Rtpmap {
                payload_type: *payload_type,
                encoding_name: encoding_name@,
                clock_rate: *clock_rate,
            },
            SdpAttribute::Sendonly => AttributeView::Sendonly,
            SdpAttribute::Other { key, value } => AttributeView::Other {
                key: key@,
                value: value@,
            },
        }
    }
}

/// Lines of attributes as plain values.
pub open spec fn attribute_views(v: Seq<SdpAttribute>) -> Seq<AttributeView> {
    v.map_values(|a: SdpAttribute| a@)
}

/// A description of a session: one line of audio.
#[derive(Debug)]
pub struct SessionDescription {
    pub local_addr: IpAddress,
    pub session_id: u32,
    pub port: u16,
    pub secure: bool,
    pub fmt: String,
    pub attributes: Vec<SdpAttribute>,
}

/// A description of a session as a plain value.
pub struct SessionView {
    pub local_addr: IpAddress,
    pub session_id: u32,
    pub port: u16,
    pub secure: bool,
    pub fmt: Seq<char>,
    pub attributes: Seq<AttributeView>,
}

impl View for SessionDescription {
    type V = SessionView;

    open spec fn view(&self) -> SessionView {
        SessionView {
            local_addr: self.local_addr,
            session_id: self.session_id,
            port: self.port,
            secure: self.secure,
            fmt: self.fmt@,
            attributes: attribute_views(self.attributes@),
        }
    }
}

/// The name of a codec. Of the static types only A-law's is told apart.
pub open spec fn codec_name(payload_type: u8) -> Seq<char> {
    if payload_type == 8 {
        "PCMA"@
    } else {
        "PCMU"@
    }
}

/// The name of a codec.
pub fn encoding_name(payload_type: u8) -> (s: &'static str)
    ensures
        s@ == codec_name(payload_type),
{
    match payload_type {
        8 => "PCMA",
        _ => "PCMU",
    }
}

/// The lines that name the codecs.
pub open spec fn rtpmaps(payload_types: Seq<u8>) -> Seq<AttributeView> {
    payload_types.map_values(
        |pt: u8|
            AttributeView::Rtpmap {
                payload_type: pt,
                encoding_name: codec_name(pt),
                clock_rate: CLOCK_RATE,
            },
    )
}

/// The attributes of an offer.
pub open spec fn offer_attributes(offer: OfferView) -> Seq<AttributeView> {
    let codecs = rtpmaps(offer.payload_types);
    let events = match offer.telephone_event_pt {
        Some(pt) => seq![
            AttributeView::Rtpmap {
                payload_type: pt,
                encoding_name: "telephone-event"@,
                clock_rate: CLOCK_RATE,
            },
            AttributeView::Other { key: "fmtp"@, value: decimal(pt as nat) + " 0-15"@ },
        ],
        None => Seq::empty(),
    };
    let crypto = match offer.crypto_key {
        Some(key) => seq![
            AttributeView::Other {
                key: "crypto"@,
                value: "1 AES_CM_128_HMAC_SHA1_80 inline:"@ + key,
            },
        ],
        None => Seq::empty(),
    };
    let hold = if offer.hold {
        seq![AttributeView::Sendonly]
    } else {
        Seq::empty()
    };
    codecs + events + crypto + hold
}

/// All payload types of an offer, telephone events last.
pub open spec fn all_types(offer: OfferView) -> Seq<u8> {
    match offer.telephone_event_pt {
        Some(pt) => offer.payload_types.push(pt),
        None => offer.payload_types,
    }
}

/// Numbers in decimal, with blanks between them.
pub open spec fn number_list(v: Seq<u8>) -> Seq<char>
    decreases v.len(),
{
    if v.len() == 0 {
        Seq::empty()
    } else if v.len() == 1 {
        decimal(v[0] as nat)
    } else {
        number_list(v.drop_last()) + seq![' '] + decimal(v.last() as nat)
    }
}

/// The description that an offer becomes.
pub open spec fn session_of(local_addr: IpAddress, session_id: u32, offer: OfferView) -> SessionView {
    SessionView {
        local_addr,
        session_id,
        port: offer.port,
        secure: offer.crypto_key is Some,
        fmt: number_list(all_types(offer)),
        attributes: offer_attributes(offer),
    }
}

fn push_number_list(s: &mut String, v: &Vec<u8>)
    requires
        old(s)@.len() == 0,
    ensures
        final(s)@ == number_list(v@),
{
    let mut i: usize = 0;
    assert(s@ =~= number_list(v@.take(0)));
    while i < v.len()
        invariant
            i <= v@.len(),
            s@ == number_list(v@.take(i as int)),
        decreases v.len() - i,
    {
        if i > 0 {
            s.push(' ');
        }
        push_number(s, v[i] as u64);
        i = i + 1;
        let ghost t = v@.take(i as int);
        assert(t.drop_last() =~= v@.take(i - 1));
        assert(t.last() == v@[i - 1]);
        assert(s@ =~= number_list(t));
    }
    assert(v@.take(v@.len() as int) =~= v@);
}

/// The description that an offer becomes, under the given number.
pub fn describe(local_addr: IpAddress, session_id: u32, offer: &MediaOffer) -> (s: SessionDescription)
    ensures
        s@ == session_of(local_addr, session_id, offer@),
{
    let mut attributes: Vec<SdpAttribute> = Vec::new();
    let ghost pts = offer.payload_types@;
    let mut i: usize = 0;
    assert(attribute_views(attributes@) =~= rtpmaps(pts.take(0)));
    while i < offer.payload_types.len()
        invariant
            i <= offer.payload_types@.len(),
            pts == offer.payload_types@,
            attribute_views(attributes@) == rtpmaps(pts.take(i as int)),
        decreases offer.payload_types.len() - i,
    {
        let pt: u8 = offer.payload_types[i];
        let ghost before = attributes@;
        attributes.push(
            SdpAttribute::Rtpmap {
                payload_type: pt,
                encoding_name: copy_text(encoding_name(pt)),
                clock_rate: CLOCK_RATE,
            },
        );
        i = i + 1;
        let ghost line = AttributeView::Rtpmap {
            payload_type: pt,
            encoding_name: codec_name(pt),
            clock_rate: CLOCK_RATE,
        };
        assert(attribute_views(attributes@) =~= attribute_views(before).push(line));
        assert(rtpmaps(pts.take(i as int)) =~= rtpmaps(pts.take(i - 1)).push(line));
    }
    assert(pts.take(pts.len() as int) =~= pts);
    let mut all: Vec<u8> = copy_bytes(offer.payload_types.as_slice());
    match offer.telephone_event_pt {
        Some(pt) => {
            let mut value = String::new();
            push_number(&mut value, pt as u64);
            push_all(&mut value, " 0-15");
            assert(value@ =~= decimal(pt as nat) + " 0-15"@);
            attributes.push(
                SdpAttribute::Rtpmap {
                    payload_type: pt,
                    encoding_name: copy_text("telephone-event"),
                    clock_rate: CLOCK_RATE,
                },
            );
            attributes.push(SdpAttribute::Other { key: copy_text("fmtp"), value });
            all.push(pt);
        },
        None => {},
    }
    match &offer.crypto_key {
        Some(key) => {
            let mut value = String::new();
            push_all(&mut value, "1 AES_CM_128_HMAC_SHA1_80 inline:");
            push_all(&mut value, key.as_str());
            assert(value@ =~= "1 AES_CM_128_HMAC_SHA1_80 inline:"@ + key@);
            attributes.push(SdpAttribute::Other { key: copy_text("crypto"), value });
        },
        None => {},
    }
    if offer.hold {
        attributes.push(SdpAttribute::Sendonly);
    }
    assert(attribute_views(attributes@) =~= offer_attributes(offer@));
    assert(all@ =~= all_types(offer@));
    let mut fmt = String::new();
    push_number_list(&mut fmt, &all);
    SessionDescription {
        local_addr,
        session_id,
        port: offer.port,
        secure: offer.crypto_key.is_some(),
        fmt,
        attributes,
    }
}

/// The description that an offer becomes, under a random number.
pub fn build_sdp(local_addr: IpAddress, offer: &MediaOffer) -> (s: SessionDescription)
    ensures
        s@ == session_of(local_addr, s.session_id, offer@),
        is_sendable(offer@) ==> is_readable(s@),
{
    let r: u64 = random_u64();
    let s = describe(local_addr, (r % 0x1_0000_0000) as u32, offer);
    proof {
        if is_sendable(offer@) {
            sent_offers_are_understood(local_addr, s.session_id, offer@);
        }
    }
    s
}

/// The text of a line of attributes.
pub open spec fn attribute_text(a: AttributeView) -> Seq<char> {
    match a {
        AttributeView::Rtpmap { payload_type, encoding_name, clock_rate } => "a=rtpmap:"@ + decimal(
            payload_type as nat,
        ) + " "@ + encoding_name + "/"@ + decimal(clock_rate as nat),
        AttributeView::Sendonly => "a=sendonly"@,
        AttributeView::Other { key, value } => "a="@ + key + ":"@ + value,
    }
}

/// The text of lines of attributes, each behind a line break.
pub open spec fn attribute_lines(v: Seq<AttributeView>) -> Seq<char>
    decreases v.len(),
{
    if v.len() == 0 {
        Seq::empty()
    } else {
        attribute_lines(v.drop_last()) + "\r\n"@ + attribute_text(v.last())
    }
}

/// An address behind the words that tell its kind.
pub open spec fn address_text(a: IpAddress) -> Seq<char> {
    (match a {
        IpAddress::V4(_) => "IN IP4 "@,
        IpAddress::V6(_) => "IN IP6 "@,
    }) + a.text()
}

/// The line that tells where a description comes from.
pub open spec fn origin_text(username: Seq<char>, id: Seq<char>, a: IpAddress) -> Seq<char> {
    "o="@ + username + " "@ + id + " "@ + id + " "@ + address_text(a)
}

/// The line that tells where audio is received.
pub open spec fn connection_text(a: IpAddress) -> Seq<char> {
    "c="@ + address_text(a)
}

/// The line that describes audio.
pub open spec fn audio_text(port: u16, secure: bool, fmt: Seq<char>) -> Seq<char> {
    "m=audio "@ + decimal(port as nat) + (if secure {
        " RTP/SAVP "@
    } else {
        " RTP/AVP "@
    }) + fmt
}

/// The text of a description, as SDP has it: its lines, each with a line break
/// behind it.
pub open spec fn session_text(s: SessionView) -> Seq<char> {
    "v=0"@ + "\r\n"@ + origin_text("-"@, decimal(s.session_id as nat), s.local_addr) + "\r\n"@
        + "s=OxideSip"@ + "\r\n"@ + connection_text(s.local_addr) + "\r\n"@ + "t=0 0"@ + "\r\n"@
        + (audio_text(s.port, s.secure, s.fmt) + attribute_lines(s.attributes)) + "\r\n"@
}

/// Writes the line that tells where a description comes from.
///
/// `Origin::to_string` of sdp-rs, with the same number for the session and its
/// version, and the address as std writes it. Claimed: the text of that line;
/// and as an address is written in digits, letters, dots and colons, there is
/// no line break in it that was not in the arguments.
#[verifier::external_body]
fn origin_line(username: &str, id: &str, addr: IpAddress) -> (s: String)
    ensures
        s@ == origin_text(username@, id@, addr),
        one_line(username@) && one_line(id@) ==> one_line(s@),
{
    let (addrtype, unicast_address) = match addr {
        IpAddress::V4(n) => (Addrtype::Ip4, n.to_be_bytes().into()),
        IpAddress::V6(n) => (Addrtype::Ip6, n.to_be_bytes().into()),
    };
    let (username, sess_id, sess_version) = (username.into(), id.into(), id.into());
    let nettype = Nettype::In;
    Origin { username, sess_id, sess_version, nettype, addrtype, unicast_address }.to_string()
}

/// Writes the line that tells where audio is received.
///
/// `Connection::to_string` of sdp-rs, with nothing but an address, as std
/// writes it. Claimed: the text of that line, which holds no line break.
#[verifier::external_body]
fn connection_line(addr: IpAddress) -> (s: String)
    ensures
        s@ == connection_text(addr),
        one_line(s@),
{
    let (addrtype, base) = match addr {
        IpAddress::V4(n) => (Addrtype::Ip4, n.to_be_bytes().into()),
        IpAddress::V6(n) => (Addrtype::Ip6, n.to_be_bytes().into()),
    };
    let connection_address = ConnectionAddress { base, ttl: None, numaddr: None };
    Connection { nettype: Nettype::In, addrtype, connection_address }.to_string()
}

/// Writes the lines that describe audio.
///
/// `MediaDescription::to_string` of sdp-rs, with nothing but the line of the
/// audio and lines of attributes. Claimed: the text of those lines, with a line
/// break before each line of attributes.
#[verifier::external_body]
fn audio_lines(port: u16, secure: bool, fmt: &str, lines: &Vec<SdpAttribute>) -> (s: String)
    ensures
        s@ == audio_text(port, secure, fmt@) + attribute_lines(attribute_views(lines@)),
{
    let proto = if secure { ProtoType::RtpSavp } else { ProtoType::RtpAvp };
    let attributes = lines.iter().map(|a| match a {
        SdpAttribute::Rtpmap { payload_type, encoding_name, clock_rate } => Attribute::Rtpmap(
            Rtpmap {
                payload_type: *payload_type as u32,
                encoding_name: encoding_name.clone(),
                clock_rate: *clock_rate as i32,
                encoding_params: None
            }),
        SdpAttribute::Sendonly => Attribute::Sendonly,
        SdpAttribute::Other { key, value } => Attribute::Other(key.clone(), Some(value.clone()))
    }).collect();
    let media = Media { media: MediaType::Audio, port, num_of_ports: None, proto, fmt: fmt.into() };
    MediaDescription { media, info: None, connections: vec![], bandwidths: vec![], key: None, attributes }.to_string()
}

impl SessionDescription {
    /// The text of the description, as SDP has it. Where the description can be
    /// read back, the text holds no endless time.
    pub fn to_string(&self) -> (s: String)
        ensures
            s@ == session_text(self@),
            is_readable(self@) ==> !has_endless_time(s@),
    {
        let mut id = String::new();
        push_number(&mut id, self.session_id as u64);
        let origin = origin_line("-", id.as_str(), self.local_addr);
        let connection = connection_line(self.local_addr);
        let audio = audio_lines(self.port, self.secure, self.fmt.as_str(), &self.attributes);
        let mut s = String::new();
        push_all(&mut s, "v=0");
        push_all(&mut s, "\r\n");
        push_all(&mut s, origin.as_str());
        push_all(&mut s, "\r\n");
        push_all(&mut s, "s=OxideSip");
        push_all(&mut s, "\r\n");
        push_all(&mut s, connection.as_str());
        push_all(&mut s, "\r\n");
        push_all(&mut s, "t=0 0");
        push_all(&mut s, "\r\n");
        push_all(&mut s, audio.as_str());
        push_all(&mut s, "\r\n");
        proof {
            assert(id@ =~= decimal(self.session_id as nat));
            assert(s@ =~= session_text(self@));
            if is_readable(self@) {
                decimal_has_no_space(self.session_id as nat);
                reveal_strlit("-");
                described_texts_hold_no_time(self@);
            }
        }
        s
    }
}

// ---------------------------------------------------------------------------
// What is received

/// A line of attributes that a peer sent.
#[derive(Debug)]
pub enum PeerAttribute {
    /// A payload type and the name of its encoding.
    Rtpmap(u32, String),
    Other { key: String, value: Option<String> },
    /// One that does not matter here.
    Unread,
}

/// A line of attributes that a peer sent, as a plain value.
pub enum PeerAttributeView {
    Rtpmap { payload_type: u32, encoding_name: Seq<char> },
    Other { key: Seq<char>, value: Option<Seq<char>> },
    Unread,
}

impl View for PeerAttribute {
    type V = PeerAttributeView;

    open spec fn view(&self) -> PeerAttributeView {
        match self {
            PeerAttribute::Rtpmap(payload_type, encoding_name) => PeerAttributeView::Rtpmap {
                payload_type: *payload_type,
                encoding_name: encoding_name@,
            },
            PeerAttribute::Other { key, value } => PeerAttributeView::Other {
                key: key@,
                value: opt_text(*value),
            },
            PeerAttribute::Unread => PeerAttributeView::Unread,
        }
    }
}

/// A section of media that a peer described.
#[derive(Debug)]
pub struct MediaSection {
    pub media: String,
    pub port: u16,
    pub fmt: String,
    pub connections: Vec<String>,
    pub attributes: Vec<PeerAttribute>,
}

/// A section of media as a plain value.
pub struct MediaView {
    pub media: Seq<char>,
    pub port: u16,
    pub fmt: Seq<char>,
    pub connections: Seq<Seq<char>>,
    pub attributes: Seq<PeerAttributeView>,
}

impl View for MediaSection {
    type V = MediaView;

    open spec fn view(&self) -> MediaView {
        MediaView {
            media: self.media@,
            port: self.port,
            fmt: self.fmt@,
            connections: texts(self.connections@),
            attributes: self.attributes@.map_values(|a: PeerAttribute| a@),
        }
    }
}

/// What a peer described.
#[derive(Debug)]
pub struct PeerSession {
    pub connection: Option<String>,
    pub media: Vec<MediaSection>,
}

/// What a peer described, as a plain value.
pub struct PeerView {
    pub connection: Option<Seq<char>>,
    pub media: Seq<MediaView>,
}

impl View for PeerSession {
    type V = PeerView;

    open spec fn view(&self) -> PeerView {
        PeerView {
            connection: opt_text(self.connection),
            media: self.media@.map_values(|m: MediaSection| m@),
        }
    }
}

/// What a text describes, or why it cannot be read.
pub uninterp spec fn sdp_parsed(text: Seq<char>) -> Result<PeerView, Seq<char>>;

/// Whether a text is free of line breaks.
pub open spec fn one_line(s: Seq<char>) -> bool {
    forall|i: int| 0 <= i < s.len() ==> #[trigger] s[i] != '\r' && s[i] != '\n'
}

/// Whether a line of attributes is one that can be told apart again.
pub open spec fn is_clean(a: AttributeView) -> bool {
    match a {
        AttributeView::Rtpmap { encoding_name, .. } => one_line(encoding_name) && forall|i: int|
            0 <= i < encoding_name.len() ==> #[trigger] encoding_name[i] != '/',
        AttributeView::Sendonly => true,
        AttributeView::Other { key, value } => (key == "fmtp"@ || key == "crypto"@) && one_line(
            value,
        ) && value.len() > 0,
    }
}

/// What a peer reads of a line of attributes.
pub open spec fn as_read(a: AttributeView) -> PeerAttributeView {
    match a {
        AttributeView::Rtpmap { payload_type, encoding_name, .. } => PeerAttributeView::Rtpmap {
            payload_type: payload_type as u32,
            encoding_name,
        },
        AttributeView::Sendonly => PeerAttributeView::Unread,
        AttributeView::Other { key, value } => PeerAttributeView::Other { key, value: Some(value) },
    }
}

/// What a peer reads of a description.
pub open spec fn session_as_read(s: SessionView) -> PeerView {
    PeerView {
        connection: Some(s.local_addr.text()),
        media: seq![
            MediaView {
                media: "audio"@,
                port: s.port,
                fmt: s.fmt,
                connections: Seq::empty(),
                attributes: s.attributes.map_values(|a: AttributeView| as_read(a)),
            },
        ],
    }
}

/// Whether a description is one that can be read back.
pub open spec fn is_readable(s: SessionView) -> bool {
    one_line(s.fmt) && forall|i: int|
        0 <= i < s.attributes.len() ==> is_clean(#[trigger] s.attributes[i])
}

/// Whether `r` is what a description says, where `text` is the text of one.
pub open spec fn reads_back(text: Seq<char>, r: Result<PeerSession, String>) -> bool {
    forall|s: SessionView|
        text == #[trigger] session_text(s) && is_readable(s) ==> (r matches Ok(p) && p@
            == session_as_read(s))
}

/// Reads a description.
///
/// `SessionDescription::try_from` of sdp-rs, of which those parts are kept
/// that matter here: of an address its text, of a media type its name.
/// Claimed: the result depends on the text alone; and a description that was
/// written by `SessionDescription::to_string` above is read as what it says.
/// The repeat times and time zones of the session become durations, which
/// panics where one is too long: texts with such a time are left out.
#[verifier::external_body]
fn parse_session(text: &str) -> (r: Result<PeerSession, String>)
    requires
        !has_endless_time(text@),
    ensures
        match r {
            Ok(p) => sdp_parsed(text@) == Ok::<PeerView, Seq<char>>(p@),
            Err(e) => sdp_parsed(text@) == Err::<PeerView, Seq<char>>(e@),
        },
        reads_back(text@, r),
{
    let sdp = sdp_rs::SessionDescription::try_from(text).map_err(|e| e.to_string())?;
    let base = |c: Connection| c.connection_address.base.to_string();
    let media = sdp.media_descriptions.into_iter().map(|m| MediaSection {
        media: m.media.media.to_string(),
        port: m.media.port,
        fmt: m.media.fmt,
        connections: m.connections.into_iter().map(base).collect(),
        attributes: m.attributes.into_iter().map(|a| match a {
            Attribute::Rtpmap(r) => PeerAttribute::Rtpmap(r.payload_type, r.encoding_name),
            Attribute::Other(key, value) => PeerAttribute::Other { key, value },
            _ => PeerAttribute::Unread
        }).collect()
    }).collect();
    Ok(PeerSession { connection: sdp.connection.map(base), media })
}

/// The first section of audio from `i` on.
pub open spec fn audio_section(media: Seq<MediaView>, i: int) -> Option<MediaView>
    decreases media.len() - i,
{
    if i < 0 || i >= media.len() {
        None
    } else if media[i].media == "audio"@ {
        Some(media[i])
    } else {
        audio_section(media, i + 1)
    }
}

/// The payload type that the first line for telephone events gives them; the
/// low eight bits of the number in it.
pub open spec fn event_type(attributes: Seq<PeerAttributeView>, i: int) -> Option<u8>
    decreases attributes.len() - i,
{
    if i < 0 || i >= attributes.len() {
        None
    } else {
        match attributes[i] {
            PeerAttributeView::Rtpmap { payload_type, encoding_name } => if lowered(encoding_name)
                == lowered("telephone-event"@) {
                Some((payload_type % 256) as u8)
            } else {
                event_type(attributes, i + 1)
            },
            _ => event_type(attributes, i + 1),
        }
    }
}

/// The numbers among the first `n` words, but for the one of telephone events.
pub open spec fn codec_types(words: Seq<Seq<char>>, event_type: Option<u8>, n: int) -> Seq<u8>
    decreases n,
{
    if n <= 0 || n > words.len() {
        Seq::empty()
    } else {
        let head = codec_types(words, event_type, n - 1);
        match unsigned(words[n - 1], 255) {
            Some(pt) => if event_type == Some(pt as u8) {
                head
            } else {
                head.push(pt as u8)
            },
            None => head,
        }
    }
}

/// What stands in `v` between the first and the second `inline:`, up to the
/// first white space in it; nothing if there is no `inline:`.
pub open spec fn inline_key(v: Seq<char>) -> Option<Seq<char>> {
    match first_of(v, "inline:"@) {
        None => None,
        Some(i) => {
            let rest = v.skip(i + 7);
            let part = match first_of(rest, "inline:"@) {
                Some(j) => rest.take(j),
                None => rest,
            };
            if words(part).len() > 0 {
                Some(words(part)[0])
            } else {
                Some(part)
            }
        },
    }
}

/// The key in the first line of keys from `i` on that has one.
pub open spec fn key_in(attributes: Seq<PeerAttributeView>, i: int) -> Option<Seq<char>>
    decreases attributes.len() - i,
{
    if i < 0 || i >= attributes.len() {
        None
    } else {
        match attributes[i] {
            PeerAttributeView::Other { key, value: Some(value) } => if key == "crypto"@
                && inline_key(value) is Some {
                inline_key(value)
            } else {
                key_in(attributes, i + 1)
            },
            _ => key_in(attributes, i + 1),
        }
    }
}

/// The offer that a peer's description makes, or what is wrong with it. No key
/// is no error: the peer wants plain audio.
pub open spec fn offer_of(p: PeerView) -> Result<OfferView, Seq<char>> {
    match audio_section(p.media, 0) {
        None => Err("no audio media line"@),
        Some(m) => {
            let event = event_type(m.attributes, 0);
            let types = codec_types(words(m.fmt), event, words(m.fmt).len() as int);
            let address = if m.connections.len() > 0 {
                Some(m.connections[0])
            } else {
                p.connection
            };
            if types.len() == 0 {
                Err("empty or invalid fmt list"@)
            } else if address is None {
                Err("no connection address (c=) in offer"@)
            } else {
                Ok(
                    OfferView {
                        port: m.port,
                        payload_types: types,
                        telephone_event_pt: event,
                        crypto_key: key_in(m.attributes, 0),
                        remote_addr: Some((address->0, m.port)),
                        hold: false,
                    },
                )
            }
        },
    }
}

/// The offer that a text makes, or what is wrong with it.
pub open spec fn offer_in(text: Seq<char>) -> Result<OfferView, Seq<char>> {
    match sdp_parsed(text) {
        Ok(p) => offer_of(p),
        Err(e) => Err("failed to parse SDP: "@ + e),
    }
}

fn sdp_error(what: &str) -> (e: CoreError)
    ensures
        e@ == ErrorView::Sdp(what@),
{
    CoreError::Sdp(copy_text(what))
}

fn find_event_type(m: &MediaSection) -> (r: Option<u8>)
    ensures
        r == event_type(m@.attributes, 0),
{
    let ghost av = m@.attributes;
    let mut i: usize = 0;
    while i < m.attributes.len()
        invariant
            i <= m.attributes@.len(),
            av == m@.attributes,
            event_type(av, 0) == event_type(av, i as int),
        decreases m.attributes.len() - i,
    {
        assert(av[i as int] == m.attributes@[i as int]@);
        match &m.attributes[i] {
            PeerAttribute::Rtpmap(payload_type, encoding_name) => {
                if same_text_any_case(encoding_name.as_str(), "telephone-event") {
                    return Some((*payload_type % 256) as u8);
                }
            },
            _ => {},
        }
        i = i + 1;
    }
    None
}

fn read_types(fmt: &str, event: Option<u8>) -> (r: Vec<u8>)
    ensures
        r@ == codec_types(words(fmt@), event, words(fmt@).len() as int),
{
    let parts = split_words(fmt);
    let ghost w = words(fmt@);
    let mut r: Vec<u8> = Vec::new();
    let mut i: usize = 0;
    while i < parts.len()
        invariant
            i <= parts@.len(),
            texts(parts@) == w,
            r@ == codec_types(w, event, i as int),
        decreases parts.len() - i,
    {
        assert(texts(parts@)[i as int] == parts@[i as int]@);
        match read_unsigned(parts[i].as_str(), 255) {
            Some(n) => {
                let pt: u8 = n as u8;
                let is_event = match event {
                    Some(e) => e == pt,
                    None => false,
                };
                if !is_event {
                    r.push(pt);
                }
            },
            None => {},
        }
        i = i + 1;
    }
    assert(w.len() == parts@.len());
    r
}

fn read_inline_key(value: &str) -> (r: Option<String>)
    ensures
        opt_text(r) == inline_key(value@),
{
    let v: Vec<char> = chars(value);
    let tag: Vec<char> = chars("inline:");
    proof {
        reveal_strlit("inline:");
    }
    match find_from(&v, &tag, 0) {
        None => None,
        Some(i) => {
            let n: usize = v.len();
            let rest = string_of(&v, i + 7, n);
            assert(rest@ =~= value@.skip(i + 7));
            let rv: Vec<char> = chars(rest.as_str());
            let end: usize = match find_from(&rv, &tag, 0) {
                Some(j) => j,
                None => rv.len(),
            };
            let part = string_of(&rv, 0, end);
            assert(part@ =~= (match first_of(rest@, "inline:"@) {
                Some(j) => rest@.take(j),
                None => rest@,
            }));
            let mut w = split_words(part.as_str());
            if w.len() > 0 {
                assert(texts(w@)[0] == w@[0]@);
                Some(w.remove(0))
            } else {
                Some(part)
            }
        },
    }
}

fn find_key(m: &MediaSection) -> (r: Option<String>)
    ensures
        opt_text(r) == key_in(m@.attributes, 0),
{
    let ghost av = m@.attributes;
    let mut i: usize = 0;
    while i < m.attributes.len()
        invariant
            i <= m.attributes@.len(),
            av == m@.attributes,
            key_in(av, 0) == key_in(av, i as int),
        decreases m.attributes.len() - i,
    {
        assert(av[i as int] == m.attributes@[i as int]@);
        match &m.attributes[i] {
            PeerAttribute::Other { key, value: Some(value) } => {
                if same_text(key.as_str(), "crypto") {
                    let found = read_inline_key(value.as_str());
                    if found.is_some() {
                        return found;
                    }
                }
            },
            _ => {},
        }
        i = i + 1;
    }
    None
}

/// The offer that a peer's description makes, or what is wrong with it.
pub fn offer_from_session(p: &PeerSession) -> (r: Result<MediaOffer, CoreError>)
    ensures
        match r {
            Ok(o) => offer_of(p@) == Ok::<OfferView, Seq<char>>(o@),
            Err(e) => offer_of(p@) matches Err(m) && e@ == ErrorView::Sdp(m),
        },
{
    let ghost mv = p@.media;
    let mut i: usize = 0;
    while i < p.media.len() && !same_text(p.media[i].media.as_str(), "audio")
        invariant
            i <= p.media@.len(),
            mv == p@.media,
            audio_section(mv, 0) == audio_section(mv, i as int),
        decreases p.media.len() - i,
    {
        assert(mv[i as int] == p.media@[i as int]@);
        i = i + 1;
    }
    if i == p.media.len() {
        return Err(sdp_error("no audio media line"));
    }
    let m = &p.media[i];
    assert(mv[i as int] == m@);
    let telephone_event_pt = find_event_type(m);
    let payload_types = read_types(m.fmt.as_str(), telephone_event_pt);
    if payload_types.len() == 0 {
        return Err(sdp_error("empty or invalid fmt list"));
    }
    let ip: String = if m.connections.len() > 0 {
        assert(texts(m.connections@)[0] == m.connections@[0]@);
        copy_text(m.connections[0].as_str())
    } else {
        match &p.connection {
            Some(c) => copy_text(c.as_str()),
            None => {
                return Err(sdp_error("no connection address (c=) in offer"));
            },
        }
    };
    Ok(
        MediaOffer {
            port: m.port,
            payload_types,
            telephone_event_pt,
            crypto_key: find_key(m),
            remote_addr: Some(PeerAddress { ip, port: m.port }),
            hold: false,
        },
    )
}

/// Whether an offer of our own is one that a peer can understand: it lists a
/// codec, telephone events are not among its codecs, and its key is one.
pub open spec fn is_sendable(offer: OfferView) -> bool {
    &&& offer.payload_types.len() > 0
    &&& offer.telephone_event_pt matches Some(pt) ==> !offer.payload_types.contains(pt)
    &&& offer.crypto_key matches Some(k) ==> is_key(k)
}

/// What a peer at the other end makes of an offer of ours.
pub open spec fn offer_as_read(local_addr: IpAddress, offer: OfferView) -> OfferView {
    OfferView { remote_addr: Some((local_addr.text(), offer.port)), hold: false, ..offer }
}

/// Whether a peer understands every offer of ours in `text` as it was meant.
pub open spec fn understands(text: Seq<char>, r: Result<MediaOffer, CoreError>) -> bool {
    forall|local_addr: IpAddress, session_id: u32, offer: OfferView|
        text == session_text(#[trigger] session_of(local_addr, session_id, offer)) && is_sendable(
            offer,
        ) ==> (r matches Ok(o) && o@ == offer_as_read(local_addr, offer))
}

/// Reads an offer or an answer. One that was written by `build_sdp` is read as
/// it was meant.
pub fn parse_offer(sdp_text: &str) -> (r: Result<MediaOffer, CoreError>)
    requires
        !has_endless_time(sdp_text@),
    ensures
        match r {
            Ok(o) => offer_in(sdp_text@) == Ok::<OfferView, Seq<char>>(o@),
            Err(e) => offer_in(sdp_text@) matches Err(m) && e@ == ErrorView::Sdp(m),
        },
        understands(sdp_text@, r),
{
    let parsed = parse_session(sdp_text);
    proof {
        assert forall|local_addr: IpAddress, session_id: u32, offer: OfferView|
            sdp_text@ == session_text(#[trigger] session_of(local_addr, session_id, offer))
                && is_sendable(offer) implies (parsed matches Ok(p) && offer_of(p@) == Ok::<
            OfferView,
            Seq<char>,
        >(offer_as_read(local_addr, offer))) by {
            sent_offers_are_understood(local_addr, session_id, offer);
        }
    }
    match parsed {
        Ok(p) => offer_from_session(&p),
        Err(e) => {
            let mut what = String::new();
            push_all(&mut what, "failed to parse SDP: ");
            push_all(&mut what, e.as_str());
            assert(what@ =~= "failed to parse SDP: "@ + e@);
            Err(CoreError::Sdp(what))
        },
    }
}

/// Bytes as text; what is no UTF-8 becomes the replacement character.
pub uninterp spec fn lossy_text(bytes: Seq<u8>) -> Seq<char>;

/// Reads bytes as text.
///
/// `String::from_utf8_lossy`. Claimed: the result depends on the bytes alone.
#[verifier::external_body]
fn decode_lossy(bytes: &Vec<u8>) -> (s: String)
    ensures
        s@ == lossy_text(bytes@),
{
    String::from_utf8_lossy(bytes).into_owned()
}

/// The offer in the body of a message, or what is wrong with it.
pub open spec fn offer_in_body(body: Seq<u8>) -> Result<OfferView, Seq<char>> {
    if has_endless_time(lossy_text(body)) {
        Err("time out of range"@)
    } else {
        offer_in(lossy_text(body))
    }
}

/// Reads the offer or answer in the body of a message.
pub fn read_offer(body: &Vec<u8>) -> (r: Result<MediaOffer, CoreError>)
    ensures
        match r {
            Ok(o) => offer_in_body(body@) == Ok::<OfferView, Seq<char>>(o@),
            Err(e) => offer_in_body(body@) matches Err(m) && e@ == ErrorView::Sdp(m),
        },
{
    let text = decode_lossy(body);
    if endless_time(text.as_str()) {
        return Err(sdp_error("time out of range"));
    }
    parse_offer(text.as_str())
}

// ---------------------------------------------------------------------------
// Laws

proof fn word_end_of_run(s: Seq<char>, i: int, e: int)
    requires
        0 <= i <= e <= s.len(),
        forall|k: int| i <= k < e ==> !is_space(#[trigger] s[k]),
        e < s.len() ==> is_space(s[e]),
    ensures
        word_end(s, i) == e,
    decreases e - i,
{
    if i < e {
        assert(!is_space(s[i]));
        word_end_of_run(s, i + 1, e);
    }
}

/// The words of a text depend on nothing before it.
proof fn words_of_suffix(s: Seq<char>, i: int, n: int)
    requires
        0 <= n <= i <= s.len(),
    ensures
        words_from(s, i) == words_from(s.skip(n), i - n),
        word_end(s, i) - n == word_end(s.skip(n), i - n),
    decreases s.len() - i,
{
    let t = s.skip(n);
    if i < s.len() {
        assert(t[i - n] == s[i]);
        words_of_suffix(s, i + 1, n);
        if !is_space(s[i]) {
            let e = word_end(s, i);
            word_end_bounds(s, i);
            assert(e > i);
            words_of_suffix(s, e, n);
            assert(s.subrange(i, e) =~= t.subrange(i - n, e - n));
        }
    }
}

/// A word in front of a blank comes before the words behind it.
proof fn words_after_blank(w: Seq<char>, rest: Seq<char>)
    requires
        w.len() > 0,
        forall|k: int| 0 <= k < w.len() ==> !is_space(#[trigger] w[k]),
    ensures
        words(w + seq![' '] + rest) == seq![w] + words(rest),
{
    let s = w + seq![' '] + rest;
    assert forall|k: int| 0 <= k < w.len() implies !is_space(#[trigger] s[k]) by {
        assert(s[k] == w[k]);
    }
    assert(s[w.len() as int] == ' ');
    word_end_of_run(s, 0, w.len() as int);
    assert(s.subrange(0, w.len() as int) =~= w);
    let n = w.len() as int + 1;
    assert(words_from(s, n - 1) == words_from(s, n));
    words_of_suffix(s, n, n);
    assert(s.skip(n) =~= rest);
}

proof fn single_word(w: Seq<char>)
    requires
        forall|k: int| 0 <= k < w.len() ==> !is_space(#[trigger] w[k]),
    ensures
        words(w) == (if w.len() > 0 {
            seq![w]
        } else {
            Seq::empty()
        }),
{
    if w.len() > 0 {
        assert(!is_space(w[0]));
        word_end_of_run(w, 0, w.len() as int);
        assert(w.subrange(0, w.len() as int) =~= w);
        assert(words_from(w, w.len() as int) =~= Seq::empty());
        assert(seq![w] + Seq::<Seq<char>>::empty() =~= seq![w]);
    }
}

/// Numbers in decimal.
spec fn decimals(v: Seq<u8>) -> Seq<Seq<char>> {
    v.map_values(|n: u8| decimal(n as nat))
}

proof fn number_list_from_front(v: Seq<u8>)
    requires
        v.len() > 1,
    ensures
        number_list(v) == decimal(v[0] as nat) + seq![' '] + number_list(v.drop_first()),
    decreases v.len(),
{
    let init = v.drop_last();
    let tail = v.drop_first();
    assert(tail.last() == v.last());
    if v.len() == 2 {
        assert(number_list(init) == decimal(v[0] as nat));
        assert(number_list(tail) == decimal(v[1] as nat));
        assert(number_list(v) =~= decimal(v[0] as nat) + seq![' '] + number_list(tail));
    } else {
        number_list_from_front(init);
        assert(init.drop_first() =~= tail.drop_last());
        assert(number_list(v) =~= decimal(v[0] as nat) + seq![' '] + number_list(tail));
    }
}

proof fn decimal_has_no_space(n: nat)
    ensures
        decimal(n).len() > 0,
        forall|k: int| 0 <= k < decimal(n).len() ==> !is_space(#[trigger] decimal(n)[k]),
        one_line(decimal(n)),
{
    decimal_reads_back(n, n);
    assert forall|k: int| 0 <= k < decimal(n).len() implies !is_space(#[trigger] decimal(n)[k])
        by {
        assert(is_digit(decimal(n)[k]));
    }
    assert forall|k: int| 0 <= k < decimal(n).len() implies #[trigger] decimal(n)[k] != '\r'
        && decimal(n)[k] != '\n' by {
        assert(is_digit(decimal(n)[k]));
    }
}

proof fn words_of_number_list(v: Seq<u8>)
    ensures
        words(number_list(v)) == decimals(v),
    decreases v.len(),
{
    if v.len() == 0 {
        single_word(number_list(v));
        assert(decimals(v) =~= Seq::empty());
    } else if v.len() == 1 {
        decimal_has_no_space(v[0] as nat);
        single_word(number_list(v));
        assert(decimals(v) =~= seq![decimal(v[0] as nat)]);
    } else {
        number_list_from_front(v);
        decimal_has_no_space(v[0] as nat);
        words_after_blank(decimal(v[0] as nat), number_list(v.drop_first()));
        words_of_number_list(v.drop_first());
        assert(decimals(v) =~= seq![decimal(v[0] as nat)] + decimals(v.drop_first()));
    }
}

proof fn number_list_is_one_line(v: Seq<u8>)
    ensures
        one_line(number_list(v)),
    decreases v.len(),
{
    if v.len() > 0 {
        number_list_is_one_line(v.drop_last());
        decimal_has_no_space(v.last() as nat);
        decimal_has_no_space(v[0] as nat);
    }
}

proof fn types_of_decimals(v: Seq<u8>, event: Option<u8>, n: int)
    requires
        0 <= n <= v.len(),
        event matches Some(pt) ==> !v.take(n).contains(pt),
    ensures
        codec_types(decimals(v), event, n) == v.take(n),
    decreases n,
{
    if n > 0 {
        let fewer = v.take(n - 1);
        if let Some(pt) = event {
            if fewer.contains(pt) {
                let k = choose|k: int| 0 <= k < fewer.len() && fewer[k] == pt;
                assert(v.take(n)[k] == pt);
            }
        }
        types_of_decimals(v, event, n - 1);
        decimal_reads_back(v[n - 1] as nat, 255);
        assert(decimals(v)[n - 1] == decimal(v[n - 1] as nat));
        assert(v.take(n)[n - 1] == v[n - 1]);
        assert(v.take(n) =~= v.take(n - 1).push(v[n - 1]));
    }
}

proof fn inline_key_of_ours(key: Seq<char>)
    requires
        is_key(key),
    ensures
        inline_key("1 AES_CM_128_HMAC_SHA1_80 inline:"@ + key) == Some(key),
{
    reveal_strlit("1 AES_CM_128_HMAC_SHA1_80 inline:");
    reveal_strlit("inline:");
    let head = "1 AES_CM_128_HMAC_SHA1_80 inline:"@;
    let tag = "inline:"@;
    let v = head + key;
    assert(head.len() == 33);
    assert(v.subrange(26, 33) =~= tag);
    assert(occurs_at(v, tag, 26));
    first_from_is_least(v, tag, 0);
    assert forall|j: int| 0 <= j < 26 implies !occurs_at(v, tag, j) by {
        if occurs_at(v, tag, j) {
            assert(v.subrange(j, j + 7)[0] == tag[0]);
            assert(head[j] == 'i');
        }
    }
    assert(first_of(v, tag) == Some(26int));
    let rest = v.skip(33);
    assert(rest =~= key);
    first_from_is_least(key, tag, 0);
    assert forall|j: int| 0 <= j implies !occurs_at(key, tag, j) by {
        if occurs_at(key, tag, j) {
            assert(key.subrange(j, j + 7)[6] == tag[6]);
            assert(is_base64(key[j + 6]));
        }
    }
    assert(first_of(key, tag) is None);
    assert forall|k: int| 0 <= k < key.len() implies !is_space(#[trigger] key[k]) by {
        assert(is_base64(key[k]));
    }
    single_word(key);
}

/// The attributes of an offer, as a peer reads them.
spec fn read_attributes(offer: OfferView) -> Seq<PeerAttributeView> {
    offer_attributes(offer).map_values(|a: AttributeView| as_read(a))
}

proof fn codec_lines_are_no_events(offer: OfferView, i: int)
    requires
        0 <= i <= offer.payload_types.len(),
    ensures
        event_type(read_attributes(offer), 0) == event_type(read_attributes(offer), i),
        key_in(read_attributes(offer), 0) == key_in(read_attributes(offer), i),
    decreases i,
{
    if i > 0 {
        codec_lines_are_no_events(offer, i - 1);
        let av = read_attributes(offer);
        let pt = offer.payload_types[i - 1];
        assert(offer_attributes(offer)[i - 1] == rtpmaps(offer.payload_types)[i - 1]);
        assert(av[i - 1] == PeerAttributeView::Rtpmap {
            payload_type: pt as u32,
            encoding_name: codec_name(pt),
        });
        reveal_strlit("PCMA");
        reveal_strlit("PCMU");
        reveal_strlit("telephone-event");
        assert(lowered(codec_name(pt)).len() == 4);
        assert(lowered("telephone-event"@).len() == 15);
    }
}

proof fn attributes_are_understood(offer: OfferView)
    requires
        is_sendable(offer),
    ensures
        event_type(read_attributes(offer), 0) == offer.telephone_event_pt,
        key_in(read_attributes(offer), 0) == offer.crypto_key,
        forall|i: int|
            0 <= i < offer_attributes(offer).len() ==> is_clean(
                #[trigger] offer_attributes(offer)[i],
            ),
{
    let av = read_attributes(offer);
    let ov = offer_attributes(offer);
    let n = offer.payload_types.len() as int;
    codec_lines_are_no_events(offer, n);
    reveal_strlit("PCMA");
    reveal_strlit("PCMU");
    reveal_strlit("telephone-event");
    reveal_strlit("fmtp");
    reveal_strlit("crypto");
    reveal_strlit(" 0-15");
    reveal_strlit("1 AES_CM_128_HMAC_SHA1_80 inline:");
    assert("fmtp"@.len() != "crypto"@.len());
    let m: int = match offer.telephone_event_pt {
        Some(pt) => n + 2,
        None => n,
    };
    if let Some(pt) = offer.telephone_event_pt {
        assert(ov[n] == AttributeView::Rtpmap {
            payload_type: pt,
            encoding_name: "telephone-event"@,
            clock_rate: CLOCK_RATE,
        });
        assert(ov[n + 1] == AttributeView::Other {
            key: "fmtp"@,
            value: decimal(pt as nat) + " 0-15"@,
        });
        assert(av[n] == as_read(ov[n]));
        assert(av[n + 1] == as_read(ov[n + 1]));
        assert(event_type(av, n) == Some(pt));
        assert(key_in(av, n) == key_in(av, n + 1));
        assert(key_in(av, n + 1) == key_in(av, n + 2));
        decimal_has_no_space(pt as nat);
        let value = decimal(pt as nat) + " 0-15"@;
        assert(one_line(value));
    }
    assert(key_in(av, 0) == key_in(av, m));
    if let Some(key) = offer.crypto_key {
        let value = "1 AES_CM_128_HMAC_SHA1_80 inline:"@ + key;
        assert(ov[m] == AttributeView::Other { key: "crypto"@, value });
        assert(av[m] == as_read(ov[m]));
        inline_key_of_ours(key);
        assert forall|k: int| 0 <= k < value.len() implies #[trigger] value[k] != '\r' && value[k]
            != '\n' by {
            if k >= 33 {
                assert(is_base64(key[k - 33]));
            }
        }
        assert(one_line(value));
        if offer.hold {
            assert(ov[m + 1] == AttributeView::Sendonly);
        }
        if offer.telephone_event_pt is None {
            assert(event_type(av, m) == event_type(av, m + 1));
            if offer.hold {
                assert(av[m + 1] == PeerAttributeView::Unread);
                assert(event_type(av, m + 1) == event_type(av, m + 2));
                assert(event_type(av, m + 2) is None);
            }
        }
    } else {
        if offer.hold {
            assert(ov[m] == AttributeView::Sendonly);
            assert(av[m] == PeerAttributeView::Unread);
            assert(key_in(av, m) == key_in(av, m + 1));
            assert(key_in(av, m + 1) is None);
            if offer.telephone_event_pt is None {
                assert(event_type(av, m) == event_type(av, m + 1));
                assert(event_type(av, m + 1) is None);
            }
        }
    }
    assert forall|i: int| 0 <= i < ov.len() implies is_clean(#[trigger] ov[i]) by {
        if i < n {
            assert(ov[i] == rtpmaps(offer.payload_types)[i]);
        }
    }
}

/// A peer that reads an offer of ours understands it as it was meant: the same
/// codecs in the same order, the same type of telephone events, the same key,
/// and as the address to send to the one that was given. Only that the call is
/// put on hold is not looked at.
pub proof fn sent_offers_are_understood(local_addr: IpAddress, session_id: u32, offer: OfferView)
    requires
        is_sendable(offer),
    ensures
        is_readable(session_of(local_addr, session_id, offer)),
        offer_of(session_as_read(session_of(local_addr, session_id, offer))) == Ok::<
            OfferView,
            Seq<char>,
        >(offer_as_read(local_addr, offer)),
{
    let s = session_of(local_addr, session_id, offer);
    let p = session_as_read(s);
    attributes_are_understood(offer);
    let all = all_types(offer);
    number_list_is_one_line(all);
    words_of_number_list(all);
    let event = offer.telephone_event_pt;
    let n = offer.payload_types.len() as int;
    assert(all.take(n) =~= offer.payload_types);
    types_of_decimals(all, event, n);
    assert(decimals(all).len() == all.len());
    if let Some(pt) = event {
        decimal_reads_back(pt as nat, 255);
        assert(decimals(all)[n] == decimal(pt as nat));
    }
    assert(codec_types(words(s.fmt), event, words(s.fmt).len() as int) == offer.payload_types);
    assert(audio_section(p.media, 0) == Some(p.media[0]));
    assert(p.media[0].attributes == read_attributes(offer));
    assert(offer_of(p)->Ok_0.remote_addr == Some((local_addr.text(), offer.port)));
    assert(offer_of(p)->Ok_0 == offer_as_read(local_addr, offer));
}

proof fn lines_are_calm(s: Seq<char>)
    requires
        one_line(s),
    ensures
        is_calm(s),
{
}

/// A line behind a calm text leaves it calm, unless it is one of times.
proof fn calm_lines_join(a: Seq<char>, b: Seq<char>)
    requires
        is_calm(a),
        one_line(b),
        b.len() > 0,
        b[0] != 'r' && b[0] != 'z',
    ensures
        is_calm(a + "\r\n"@ + b),
{
    reveal_strlit("\r\n");
    let c = "\r\n"@ + b;
    assert forall|i: int| 0 <= i < c.len() && (#[trigger] c[i] == '\r' || c[i] == '\n') implies i
        + 1 < c.len() && c[i + 1] != 'r' && c[i + 1] != 'z' by {
        if i >= 2 {
            assert(c[i] == b[i - 2]);
        }
    }
    calm_texts_join(a, c);
    assert(a + c =~= a + "\r\n"@ + b);
}

proof fn attribute_is_one_line(a: AttributeView)
    requires
        is_clean(a),
    ensures
        one_line(attribute_text(a)),
        attribute_text(a).len() > 0,
        attribute_text(a)[0] == 'a',
{
    reveal_strlit("a=rtpmap:");
    reveal_strlit(" ");
    reveal_strlit("/");
    reveal_strlit("a=sendonly");
    reveal_strlit("a=");
    reveal_strlit(":");
    reveal_strlit("fmtp");
    reveal_strlit("crypto");
    match a {
        AttributeView::Rtpmap { payload_type, encoding_name, clock_rate } => {
            decimal_has_no_space(payload_type as nat);
            decimal_has_no_space(clock_rate as nat);
        },
        _ => {},
    }
}

proof fn attributes_are_calm(head: Seq<char>, v: Seq<AttributeView>)
    requires
        is_calm(head),
        forall|i: int| 0 <= i < v.len() ==> is_clean(#[trigger] v[i]),
    ensures
        is_calm(head + attribute_lines(v)),
    decreases v.len(),
{
    if v.len() == 0 {
        assert(head + attribute_lines(v) =~= head);
    } else {
        attributes_are_calm(head, v.drop_last());
        attribute_is_one_line(v.last());
        let before = head + attribute_lines(v.drop_last());
        calm_lines_join(before, attribute_text(v.last()));
        assert(before + "\r\n"@ + attribute_text(v.last()) =~= head + attribute_lines(v));
    }
}

/// The text of a description that can be read back holds no endless time, as
/// long as its address is written in one line.
pub proof fn described_texts_hold_no_time(s: SessionView)
    requires
        is_readable(s),
        one_line(origin_text("-"@, decimal(s.session_id as nat), s.local_addr)),
        one_line(connection_text(s.local_addr)),
    ensures
        !has_endless_time(session_text(s)),
{
    reveal_strlit("v=0");
    reveal_strlit("o=");
    reveal_strlit("s=OxideSip");
    reveal_strlit("c=");
    reveal_strlit("t=0 0");
    reveal_strlit("m=audio ");
    reveal_strlit(" RTP/SAVP ");
    reveal_strlit(" RTP/AVP ");
    let origin = origin_text("-"@, decimal(s.session_id as nat), s.local_addr);
    let connection = connection_text(s.local_addr);
    let audio = audio_text(s.port, s.secure, s.fmt);
    decimal_has_no_space(s.port as nat);
    lines_are_calm("v=0"@);
    let a = "v=0"@ + "\r\n"@ + origin;
    calm_lines_join("v=0"@, origin);
    let b = a + "\r\n"@ + "s=OxideSip"@;
    calm_lines_join(a, "s=OxideSip"@);
    let c = b + "\r\n"@ + connection;
    calm_lines_join(b, connection);
    let d = c + "\r\n"@ + "t=0 0"@;
    calm_lines_join(c, "t=0 0"@);
    let e = d + "\r\n"@ + audio;
    assert(one_line(audio));
    calm_lines_join(d, audio);
    attributes_are_calm(e, s.attributes);
    let all = e + attribute_lines(s.attributes);
    calm_texts_hold_no_time(all);
    assert(all + "\r\n"@ =~= session_text(s));
}

/// The codec that is chosen was offered; and no codec that we like better was.
pub proof fn best_codec_is_chosen(offered: Seq<u8>, preference: Seq<u8>, k: int)
    requires
        0 <= k < preference.len(),
    ensures
        selected(offered, preference) is None <==> offered.len() == 0,
        selected(offered, preference) matches Some(pt) ==> offered.contains(pt),
        (forall|j: int| 0 <= j < k ==> !offered.contains(#[trigger] preference[j]))
            && offered.contains(preference[k]) ==> selected(offered, preference) == Some(
            preference[k],
        ),
{
    first_offered_is_first(offered, preference, 0);
    if offered.len() > 0 {
        assert(offered.contains(offered[0]));
    }
    if (forall|j: int| 0 <= j < k ==> !offered.contains(#[trigger] preference[j]))
        && offered.contains(preference[k]) {
        first_offered_at(offered, preference, 0, k);
    }
}

proof fn first_offered_is_first(offered: Seq<u8>, preference: Seq<u8>, i: int)
    requires
        0 <= i,
    ensures
        first_offered(offered, preference, i) matches Some(pt) ==> offered.contains(pt),
    decreases preference.len() - i,
{
    if i < preference.len() && !offered.contains(preference[i]) {
        first_offered_is_first(offered, preference, i + 1);
    }
}

proof fn first_offered_at(offered: Seq<u8>, preference: Seq<u8>, i: int, k: int)
    requires
        0 <= i <= k < preference.len(),
        forall|j: int| i <= j < k ==> !offered.contains(#[trigger] preference[j]),
        offered.contains(preference[k]),
    ensures
        first_offered(offered, preference, i) == Some(preference[k]),
    decreases k - i,
{
    if i < k {
        assert(!offered.contains(preference[i]));
        first_offered_at(offered, preference, i + 1, k);
    }
}

} // verus!
