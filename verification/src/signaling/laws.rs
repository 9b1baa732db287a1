//! What holds of accounts, registration and descriptions, in numbers and words.

use vstd::prelude::*;

use crate::net::{dotted, IpAddress};
use crate::signaling::config::{
    account_of, blank_account, codec_list, default_codecs, overridden, AccountView, DtmfMode,
    EnvVars, PreferredCodec, RawView, SipTransport,
};
use crate::signaling::events::EventView;
use crate::signaling::registration::{outcome, AttemptView, RegistrationState};
use crate::signaling::sdp::{
    attribute_lines, attribute_text, codec_types, event_type, inline_key, key_in, offer_attributes,
    offer_of, session_of, AttributeView, OfferView, PeerAttributeView, PeerView,
};
use crate::signaling::transport::{first_outside, registrar_text, Interface};
use crate::text::{decimal, lowered, unsigned, words};

verus! {

// ---------------------------------------------------------------------------
// Accounts

/// A transport is named by three letters, in any case, and the name that goes
/// into an address is read back as the transport. Nothing else names one.
pub proof fn transports_go_by_their_names(t: SipTransport, s: Seq<char>)
    ensures
        SipTransport::named(t.parameter()) == Some(t),
        SipTransport::Udp.parameter() == seq!['u', 'd', 'p'],
        SipTransport::Tcp.parameter() == seq!['t', 'c', 'p'],
        SipTransport::Tls.parameter() == seq!['t', 'l', 's'],
        SipTransport::named(s) == Some(t) ==> lowered(s) == t.parameter(),
        lowered(s) == t.parameter() ==> SipTransport::named(s) == Some(t),
{
    reveal_strlit("udp");
    reveal_strlit("tcp");
    reveal_strlit("tls");
    assert("udp"@ =~= seq!['u', 'd', 'p']);
    assert("tcp"@ =~= seq!['t', 'c', 'p']);
    assert("tls"@ =~= seq!['t', 'l', 's']);
    assert("udp"@[0] != "tcp"@[0]);
    assert("tls"@[1] != "tcp"@[1]);
    assert("udp"@[0] != "tls"@[0]);
    assert(lowered(t.parameter()) =~= t.parameter());
}

/// The codecs are the two of G.711: mu-law is type 0, A-law is type 8.
pub proof fn codecs_go_by_their_numbers(s: Seq<char>)
    ensures
        PreferredCodec::Ulaw.number() == 0,
        PreferredCodec::Alaw.number() == 8,
        PreferredCodec::named(s) == Some(PreferredCodec::Ulaw) <==> lowered(s) == seq![
            'u',
            'l',
            'a',
            'w',
        ],
        PreferredCodec::named(s) == Some(PreferredCodec::Alaw) <==> lowered(s) == seq![
            'a',
            'l',
            'a',
            'w',
        ],
        default_codecs() == seq![PreferredCodec::Ulaw, PreferredCodec::Alaw],
{
    reveal_strlit("ulaw");
    reveal_strlit("alaw");
    assert("ulaw"@ =~= seq!['u', 'l', 'a', 'w']);
    assert("alaw"@ =~= seq!['a', 'l', 'a', 'w']);
    assert("ulaw"@[0] != "alaw"@[0]);
}

/// Lower case changes the letters A to Z and nothing else.
pub proof fn lower_case_changes_letters_only(s: Seq<char>, i: int)
    requires
        0 <= i < s.len(),
    ensures
        lowered(s).len() == s.len(),
        65 <= s[i] as u32 <= 90 ==> lowered(s)[i] as u32 == s[i] as u32 + 32,
        !(65 <= s[i] as u32 <= 90) ==> lowered(s)[i] == s[i],
{
}

/// What an account is made of: what was said, and where nothing was, UDP, port
/// 5060, or 5061 over TLS, an hour between registrations, any local port, plain
/// audio, and all codecs.
pub proof fn accounts_have_defaults(raw: RawView, a: AccountView)
    requires
        account_of(raw) == Ok::<AccountView, Seq<char>>(a),
    ensures
        raw.sip_server_host == Some(a.sip_server_host),
        raw.username == Some(a.username),
        raw.password == Some(a.password),
        raw.name matches Some(n) ==> a.name == n,
        raw.name is None ==> a.name.len() == 0,
        raw.transport matches Some(t) ==> a.transport == t,
        raw.transport is None ==> a.transport == SipTransport::Udp,
        raw.sip_server_port matches Some(p) ==> a.sip_server_port == p,
        raw.sip_server_port is None && a.transport == SipTransport::Tls ==> a.sip_server_port
            == 5061,
        raw.sip_server_port is None && a.transport != SipTransport::Tls ==> a.sip_server_port
            == 5060,
        raw.register_expires matches Some(e) ==> a.register_expires == e,
        raw.register_expires is None ==> a.register_expires == 3600,
        raw.local_port matches Some(p) ==> a.local_port == p,
        raw.local_port is None ==> a.local_port == 0,
        raw.srtp matches Some(b) ==> a.srtp == b,
        raw.srtp is None ==> !a.srtp,
        a.ca_cert_path == raw.ca_cert_path,
        a.client_cert_path == raw.client_cert_path,
        a.client_key_path == raw.client_key_path,
        (raw.preferred_codecs matches Some(c) && c.len() > 0) ==> Some(a.preferred_codecs)
            == raw.preferred_codecs,
        !(raw.preferred_codecs matches Some(c) && c.len() > 0) ==> a.preferred_codecs == seq![
            PreferredCodec::Ulaw,
            PreferredCodec::Alaw,
        ],
        a.dtmf_mode == DtmfMode::Auto,
        a.reg_epoch == 0,
{
}

/// What is missing is said, the certificate first, then the server, the user and
/// the password.
pub proof fn missing_parts_are_named(raw: RawView)
    ensures
        ({
            let r = account_of(raw);
            let no_ca = raw.transport == Some(SipTransport::Tls) && raw.ca_cert_path is None;
            let no_host = !no_ca && raw.sip_server_host is None;
            let no_user = !no_ca && !no_host && raw.username is None;
            let no_password = !no_ca && !no_host && !no_user && raw.password is None;
            &&& no_ca ==> r == Err::<AccountView, Seq<char>>(
                "missing ca_cert_path (required for transport = \"tls\")"@,
            )
            &&& no_host ==> r == Err::<AccountView, Seq<char>>("missing sip_server_host"@)
            &&& no_user ==> r == Err::<AccountView, Seq<char>>("missing username"@)
            &&& no_password ==> r == Err::<AccountView, Seq<char>>("missing password"@)
            &&& !no_ca && !no_host && !no_user && !no_password ==> r is Ok
        }),
{
}

/// A variable that is set and can be read wins over what was said; one that is
/// not set, or cannot be read, leaves it alone. The name is never touched.
pub proof fn variables_win_where_they_can_be_read(raw: RawView, env: EnvVars)
    ensures
        ({
            let r = overridden(raw, env);
            &&& r.name == raw.name
            &&& match env.sip_server_port {
                Some(s) => match unsigned(s@, 65535) {
                    Some(n) => r.sip_server_port == Some(n as u16),
                    None => r.sip_server_port == raw.sip_server_port,
                },
                None => r.sip_server_port == raw.sip_server_port,
            }
            &&& match env.local_port {
                Some(s) => match unsigned(s@, 65535) {
                    Some(n) => r.local_port == Some(n as u16),
                    None => r.local_port == raw.local_port,
                },
                None => r.local_port == raw.local_port,
            }
            &&& match env.register_expires {
                Some(s) => match unsigned(s@, 4294967295) {
                    Some(n) => r.register_expires == Some(n as u32),
                    None => r.register_expires == raw.register_expires,
                },
                None => r.register_expires == raw.register_expires,
            }
            &&& match env.transport {
                Some(s) => if lowered(s@) == seq!['t', 'l', 's'] {
                    r.transport == Some(SipTransport::Tls)
                } else if lowered(s@) == seq!['t', 'c', 'p'] {
                    r.transport == Some(SipTransport::Tcp)
                } else if lowered(s@) == seq!['u', 'd', 'p'] {
                    r.transport == Some(SipTransport::Udp)
                } else {
                    r.transport == raw.transport
                },
                None => r.transport == raw.transport,
            }
            &&& match env.srtp {
                Some(s) => if s@ == "true"@ {
                    r.srtp == Some(true)
                } else if s@ == "false"@ {
                    r.srtp == Some(false)
                } else {
                    r.srtp == raw.srtp
                },
                None => r.srtp == raw.srtp,
            }
            &&& match env.ca_cert_path {
                Some(s) => r.ca_cert_path == Some(s@),
                None => r.ca_cert_path == raw.ca_cert_path,
            }
            &&& match env.client_cert_path {
                Some(s) => r.client_cert_path == Some(s@),
                None => r.client_cert_path == raw.client_cert_path,
            }
            &&& match env.client_key_path {
                Some(s) => r.client_key_path == Some(s@),
                None => r.client_key_path == raw.client_key_path,
            }
            &&& match env.preferred_codecs {
                Some(s) => if codec_list(s@).len() > 0 {
                    r.preferred_codecs == Some(codec_list(s@))
                } else {
                    r.preferred_codecs == raw.preferred_codecs
                },
                None => r.preferred_codecs == raw.preferred_codecs,
            }
        }),
{
    reveal_strlit("udp");
    reveal_strlit("tcp");
    reveal_strlit("tls");
    reveal_strlit("true");
    reveal_strlit("false");
    assert("udp"@ =~= seq!['u', 'd', 'p']);
    assert("tcp"@ =~= seq!['t', 'c', 'p']);
    assert("tls"@ =~= seq!['t', 'l', 's']);
    assert("udp"@[0] != "tcp"@[0]);
    assert("tls"@[1] != "tcp"@[1]);
    assert("true"@.len() != "false"@.len());
}

/// A new account: port 5060 over UDP, an hour between registrations, and nothing
/// filled in.
pub proof fn new_accounts_are_blank()
    ensures
        ({
            let a = blank_account();
            &&& a.name.len() == 0 && a.sip_server_host.len() == 0
            &&& a.username.len() == 0 && a.password.len() == 0
            &&& a.sip_server_port == 5060 && a.transport == SipTransport::Udp
            &&& a.register_expires == 3600 && a.local_port == 0 && !a.srtp
            &&& a.ca_cert_path is None && a.client_cert_path is None && a.client_key_path is None
            &&& a.preferred_codecs == seq![PreferredCodec::Ulaw, PreferredCodec::Alaw]
            &&& a.dtmf_mode == DtmfMode::Auto && a.reg_epoch == 0
        }),
{
}

// ---------------------------------------------------------------------------
// The network

/// The registrar is the account's server at its port, over its transport.
pub proof fn registrars_are_where_the_account_says(a: AccountView)
    ensures
        registrar_text(a) == seq!['s', 'i', 'p', ':'] + a.sip_server_host + seq![':'] + decimal(
            a.sip_server_port as nat,
        ) + ";transport="@ + (match a.transport {
            SipTransport::Udp => "udp"@,
            SipTransport::Tcp => "tcp"@,
            SipTransport::Tls => "tls"@,
        }),
{
    reveal_strlit("sip:");
    reveal_strlit(":");
    assert("sip:"@ =~= seq!['s', 'i', 'p', ':']);
    assert(":"@ =~= seq![':']);
}

/// Audio arrives at the first interface that is not the machine itself.
pub proof fn audio_arrives_from_outside(interfaces: Seq<Interface>, k: int, i: int)
    requires
        0 <= i <= k < interfaces.len(),
        !interfaces[k].loopback,
        forall|j: int| i <= j < k ==> (#[trigger] interfaces[j]).loopback,
    ensures
        first_outside(interfaces, i) == Some(interfaces[k].ip),
    decreases k - i,
{
    if i < k {
        assert(interfaces[i].loopback);
        audio_arrives_from_outside(interfaces, k, i + 1);
    }
}

/// With no interface but the machine itself there is nowhere to receive.
pub proof fn audio_needs_an_interface(interfaces: Seq<Interface>, i: int)
    requires
        0 <= i,
        forall|j: int| i <= j < interfaces.len() ==> (#[trigger] interfaces[j]).loopback,
    ensures
        first_outside(interfaces, i) is None,
    decreases interfaces.len() - i,
{
    if i < interfaces.len() {
        audio_needs_an_interface(interfaces, i + 1);
    }
}

/// An address of four bytes is written with the first byte first.
pub proof fn addresses_are_dotted(a: u8, b: u8, c: u8, d: u8)
    ensures
        dotted((0x100_0000 * a + 0x1_0000 * b + 0x100 * c + d) as u32) == decimal(a as nat) + seq![
            '.',
        ] + decimal(b as nat) + seq!['.'] + decimal(c as nat) + seq!['.'] + decimal(d as nat),
{
    let n = (0x100_0000 * a + 0x1_0000 * b + 0x100 * c + d) as u32;
    assert(n / 0x100_0000 == a);
    assert(n / 0x1_0000 % 256 == b);
    assert(n / 0x100 % 256 == c);
    assert(n % 256 == d);
}

// ---------------------------------------------------------------------------
// Registration

/// What is made of an answer to a registration: with 200 it is reported with how
/// long it holds and how long it took, renewed after three quarters of that, of
/// four seconds at least, and all failures are forgotten. With 403 it ends at
/// once. With the third 401 or 407 in a row it ends; with the first two it is
/// reported as failed and tried again after 30 seconds. Anything else is
/// reported as failed and tried again after a wait that doubles each time, from
/// 30 seconds to five minutes; it breaks a row of refusals.
pub proof fn registration_goes_on_or_ends(
    s: RegistrationState,
    code: u16,
    status: Seq<char>,
    expires: u32,
    rtt_ms: u32,
    error: Seq<char>,
)
    requires
        s.consecutive_auth_failures < 3,
        30 <= s.backoff <= 300,
    ensures
        ({
            let o = outcome(s, AttemptView::Answer { code, status, expires, rtt_ms });
            let f = outcome(s, AttemptView::Failed { error });
            &&& code == 200 ==> {
                &&& o.event == (EventView::Registered { expires, rtt_ms })
                &&& o.state.consecutive_auth_failures == 0
                &&& o.state.backoff == 30
                &&& o.retry_after matches Some(wait) && 4 * wait <= 3 * (if expires > 4 {
                    expires as int
                } else {
                    4
                }) < 4 * wait + 4
            }
            &&& code == 403 ==> o.retry_after is None && o.event
                == (EventView::RegistrationHalted {
                reason: "403 Forbidden \u{2014} check credentials/account status"@,
            })
            &&& (code == 401 || code == 407) && s.consecutive_auth_failures == 2
                ==> o.retry_after is None && o.event == (EventView::RegistrationHalted {
                reason: "repeated "@ + status + " \u{2014} check username/password"@,
            })
            &&& (code == 401 || code == 407) && s.consecutive_auth_failures < 2 ==> {
                &&& o.retry_after == Some(30u64)
                &&& o.event == (EventView::RegistrationFailed { reason: status })
                &&& o.state.consecutive_auth_failures == s.consecutive_auth_failures + 1
                &&& o.state.backoff == s.backoff
            }
            &&& code != 200 && code != 401 && code != 403 && code != 407 ==> {
                &&& o.retry_after == Some(s.backoff)
                &&& o.event == (EventView::RegistrationFailed { reason: status })
                &&& o.state.consecutive_auth_failures == 0
                &&& s.backoff < 150 ==> o.state.backoff == 2 * s.backoff
                &&& s.backoff >= 150 ==> o.state.backoff == 300
            }
            &&& f.retry_after == Some(s.backoff)
            &&& f.event == (EventView::RegistrationFailed { reason: error })
            &&& f.state.consecutive_auth_failures == 0
            &&& s.backoff < 150 ==> f.state.backoff == 2 * s.backoff
            &&& s.backoff >= 150 ==> f.state.backoff == 300
        }),
{
}

// ---------------------------------------------------------------------------
// Descriptions

/// The lines of an offer: one for each codec, by its number, A-law as PCMA and
/// mu-law as PCMU, at 8000 samples a second; then, if digits can be sent with
/// the audio, one that names telephone events and one that lists sixteen of
/// them; then the key, if there is one; and last, only on hold, that we only
/// send.
pub proof fn offers_are_written_line_by_line(offer: OfferView, i: int)
    ensures
        ({
            let a = offer_attributes(offer);
            let n = offer.payload_types.len() as int;
            let e: int = if offer.telephone_event_pt is Some {
                2
            } else {
                0
            };
            let k: int = if offer.crypto_key is Some {
                1
            } else {
                0
            };
            let h: int = if offer.hold {
                1
            } else {
                0
            };
            &&& a.len() == n + e + k + h
            &&& 0 <= i < n ==> a[i] == (AttributeView::Rtpmap {
                payload_type: offer.payload_types[i],
                encoding_name: if offer.payload_types[i] == 8 {
                    "PCMA"@
                } else {
                    "PCMU"@
                },
                clock_rate: 8000,
            })
            &&& offer.telephone_event_pt matches Some(pt) ==> a[n] == (AttributeView::Rtpmap {
                payload_type: pt,
                encoding_name: "telephone-event"@,
                clock_rate: 8000,
            }) && a[n + 1] == (AttributeView::Other {
                key: "fmtp"@,
                value: decimal(pt as nat) + " 0-15"@,
            })
            &&& offer.crypto_key matches Some(key) ==> a[n + e] == (AttributeView::Other {
                key: "crypto"@,
                value: "1 AES_CM_128_HMAC_SHA1_80 inline:"@ + key,
            })
            &&& offer.hold ==> a[n + e + k] == AttributeView::Sendonly
            &&& !offer.hold && 0 <= i < a.len() ==> a[i] != AttributeView::Sendonly
        }),
{
    let a = offer_attributes(offer);
    let n = offer.payload_types.len() as int;
    if 0 <= i < n {
        assert(a[i] == crate::signaling::sdp::rtpmaps(offer.payload_types)[i]);
    }
}

/// A description is at the given address and port, encrypted exactly if there is
/// a key.
pub proof fn descriptions_say_where_and_how(addr: IpAddress, session_id: u32, offer: OfferView)
    ensures
        ({
            let s = session_of(addr, session_id, offer);
            &&& s.local_addr == addr
            &&& s.session_id == session_id
            &&& s.port == offer.port
            &&& s.secure <==> offer.crypto_key is Some
            &&& s.attributes == offer_attributes(offer)
        }),
{
}

/// How the lines of attributes look.
pub proof fn attributes_look_like_this(
    payload_type: u8,
    encoding_name: Seq<char>,
    clock_rate: u16,
    key: Seq<char>,
    value: Seq<char>,
    before: Seq<AttributeView>,
    a: AttributeView,
)
    ensures
        attribute_text(AttributeView::Rtpmap { payload_type, encoding_name, clock_rate })
            == "a=rtpmap:"@ + decimal(payload_type as nat) + " "@ + encoding_name + "/"@ + decimal(
            clock_rate as nat,
        ),
        attribute_text(AttributeView::Sendonly) == "a=sendonly"@,
        attribute_text(AttributeView::Other { key, value }) == "a="@ + key + ":"@ + value,
        attribute_lines(before.push(a)) == attribute_lines(before) + "\r\n"@ + attribute_text(a),
{
    assert(before.push(a).drop_last() =~= before);
}

/// What is made of a description whose first section is audio: its port, the
/// numbers that it lists, but for the one of telephone events, in their order;
/// the address of the section, or that of the session if the section has none.
/// Without a codec or without an address it is an error, as it is without audio.
pub proof fn descriptions_are_understood(p: PeerView, o: OfferView)
    ensures
        p.media.len() == 0 ==> offer_of(p) == Err::<OfferView, Seq<char>>("no audio media line"@),
        p.media.len() > 0 && p.media[0].media == "audio"@ ==> ({
            let m = p.media[0];
            let r = offer_of(p);
            let event = event_type(m.attributes, 0);
            let types = codec_types(words(m.fmt), event, words(m.fmt).len() as int);
            &&& types.len() == 0 ==> r == Err::<OfferView, Seq<char>>(
                "empty or invalid fmt list"@,
            )
            &&& types.len() > 0 && m.connections.len() == 0 && p.connection is None ==> r == Err::<
                OfferView,
                Seq<char>,
            >("no connection address (c=) in offer"@)
            &&& types.len() > 0 && m.connections.len() > 0 ==> (r matches Ok(o)
                && o.remote_addr == Some((m.connections[0], m.port)))
            &&& types.len() > 0 && m.connections.len() == 0 && p.connection is Some ==> (
            r matches Ok(o) && o.remote_addr == Some((p.connection->0, m.port)))
            &&& r matches Ok(o) ==> o.port == m.port && o.payload_types == types
                && o.telephone_event_pt == event && !o.hold && o.crypto_key == key_in(
                m.attributes,
                0,
            )
        }),
{
}

/// Which of the numbers in a list are codecs: each that fits a byte, in order,
/// but for the one of telephone events.
pub proof fn listed_numbers_are_codecs(w: Seq<Seq<char>>, event: Option<u8>, n: int)
    requires
        0 <= n < w.len(),
    ensures
        codec_types(w, event, 0).len() == 0,
        match unsigned(w[n], 255) {
            Some(pt) => if event == Some(pt as u8) {
                codec_types(w, event, n + 1) == codec_types(w, event, n)
            } else {
                codec_types(w, event, n + 1) == codec_types(w, event, n).push(pt as u8)
            },
            None => codec_types(w, event, n + 1) == codec_types(w, event, n),
        },
{
}

/// The first line that names telephone events, in any case, tells their type;
/// the first line of keys that holds one tells the key.
pub proof fn first_lines_count(a: Seq<PeerAttributeView>, i: int)
    requires
        0 <= i < a.len(),
    ensures
        match a[i] {
            PeerAttributeView::Rtpmap { payload_type, encoding_name } => if lowered(encoding_name)
                == "telephone-event"@ {
                event_type(a, i) == Some((payload_type % 256) as u8)
            } else {
                event_type(a, i) == event_type(a, i + 1)
            },
            _ => event_type(a, i) == event_type(a, i + 1),
        },
        match a[i] {
            PeerAttributeView::Other { key, value: Some(value) } => if key == "crypto"@
                && inline_key(value) is Some {
                key_in(a, i) == inline_key(value)
            } else {
                key_in(a, i) == key_in(a, i + 1)
            },
            _ => key_in(a, i) == key_in(a, i + 1),
        },
        event_type(a, a.len() as int) is None,
        key_in(a, a.len() as int) is None,
{
    reveal_strlit("telephone-event");
    assert(lowered("telephone-event"@) =~= "telephone-event"@);
}

} // verus!
