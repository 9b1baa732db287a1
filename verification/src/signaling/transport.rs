//! How to reach the registrar, and where audio arrives.

use vstd::prelude::*;

use crate::net::IpAddress;
use crate::signaling::config::{AccountView, SipAccountConfig, SipTransport};
use crate::signaling::error::{CoreError, ErrorView};
use crate::text::{copy_text, decimal, opt_text, push_all, push_number};

verus! {

/// Why a text is no SIP URI; nothing if it is one.
pub uninterp spec fn uri_error(text: Seq<char>) -> Option<Seq<char>>;

/// Whether a text is a SIP URI.
///
/// `Uri::try_from` of rsipstack; of a failure its message is kept. Claimed:
/// the result depends on the text alone.
#[verifier::external_body]
pub(crate) fn check_uri(text: &str) -> (r: Option<String>)
    ensures
        opt_text(r) == uri_error(text@),
{
    rsipstack::sip::Uri::try_from(text).err().map(|e| e.to_string())
}

/// A text that was found to be a SIP URI.
#[derive(Debug)]
pub struct SipUri {
    pub text: String,
}

/// The message of the SIP stack about a text that is no URI.
pub open spec fn uri_message(why: Seq<char>) -> Seq<char> {
    "SIP message error: "@ + why
}

/// Takes a text as a SIP URI.
pub fn parse_uri(text: String) -> (r: Result<SipUri, CoreError>)
    ensures
        match uri_error(text@) {
            None => r matches Ok(u) && u.text@ == text@,
            Some(why) => r matches Err(e) && e@ == ErrorView::Sip(uri_message(why)),
        },
{
    match check_uri(text.as_str()) {
        None => Ok(SipUri { text }),
        Some(why) => {
            let mut message = String::new();
            push_all(&mut message, "SIP message error: ");
            push_all(&mut message, why.as_str());
            assert(message@ =~= uri_message(why@));
            Err(CoreError::Sip(message))
        },
    }
}

/// The registrar of an account. The transport is named, so that it is not
/// guessed from the scheme or from DNS.
pub open spec fn registrar_text(account: AccountView) -> Seq<char> {
    "sip:"@ + account.sip_server_host + ":"@ + decimal(account.sip_server_port as nat)
        + ";transport="@ + account.transport.parameter()
}

/// The registrar of an account.
pub fn registrar_uri(config: &SipAccountConfig) -> (r: Result<SipUri, CoreError>)
    ensures
        match uri_error(registrar_text(config@)) {
            None => r matches Ok(u) && u.text@ == registrar_text(config@),
            Some(why) => r matches Err(e) && e@ == ErrorView::Sip(uri_message(why)),
        },
{
    let mut text = String::new();
    push_all(&mut text, "sip:");
    push_all(&mut text, config.sip_server_host.as_str());
    push_all(&mut text, ":");
    push_number(&mut text, config.sip_server_port as u64);
    push_all(&mut text, ";transport=");
    push_all(&mut text, config.transport.as_parameter());
    assert(text@ =~= registrar_text(config@));
    parse_uri(text)
}

/// How to open the transport of an account.
#[derive(Debug)]
pub enum TransportPlan {
    /// Listen for datagrams at the port.
    Udp { local_port: u16 },
    /// Listen for connections at the port.
    Tcp { local_port: u16 },
    /// Only connect out, with the files that are named. The connection to the
    /// registrar has to be there before the first request.
    Tls { ca_cert: String, client_cert: Option<String>, client_key: Option<String> },
}

/// How to open the transport of an account; TLS needs the certificate of an
/// authority.
pub fn plan_transport(config: &SipAccountConfig) -> (r: Result<TransportPlan, CoreError>)
    ensures
        match config@.transport {
            SipTransport::Udp => r matches Ok(TransportPlan::Udp { local_port }) && local_port
                == config@.local_port,
            SipTransport::Tcp => r matches Ok(TransportPlan::Tcp { local_port }) && local_port
                == config@.local_port,
            SipTransport::Tls => match config@.ca_cert_path {
                Some(ca) => r matches Ok(TransportPlan::Tls { ca_cert, client_cert, client_key })
                    && ca_cert@ == ca && opt_text(client_cert) == config@.client_cert_path
                    && opt_text(client_key) == config@.client_key_path,
                None => r matches Err(e) && e@ == ErrorView::Config(
                    "ca_cert_path is required for transport = \"tls\""@,
                ),
            },
        },
{
    match config.transport {
        SipTransport::Udp => Ok(TransportPlan::Udp { local_port: config.local_port }),
        SipTransport::Tcp => Ok(TransportPlan::Tcp { local_port: config.local_port }),
        SipTransport::Tls => match &config.ca_cert_path {
            Some(ca) => Ok(
                TransportPlan::Tls {
                    ca_cert: copy_text(ca.as_str()),
                    client_cert: crate::text::copy_opt_text(&config.client_cert_path),
                    client_key: crate::text::copy_opt_text(&config.client_key_path),
                },
            ),
            None => Err(
                CoreError::Config(copy_text("ca_cert_path is required for transport = \"tls\"")),
            ),
        },
    }
}

/// A network interface of this machine.
#[derive(Debug, Clone, Copy, PartialEq, Eq, Structural)]
pub struct Interface {
    pub ip: IpAddress,
    pub loopback: bool,
}

/// The first interface from `i` on that is not the machine itself.
pub open spec fn first_outside(interfaces: Seq<Interface>, i: int) -> Option<IpAddress>
    decreases interfaces.len() - i,
{
    if i < 0 || i >= interfaces.len() {
        None
    } else if !interfaces[i].loopback {
        Some(interfaces[i].ip)
    } else {
        first_outside(interfaces, i + 1)
    }
}

/// The address at which audio arrives: the one that the connection to the
/// registrar uses, if that is known, else that of the first interface that
/// leads anywhere.
pub fn local_media_addr(connected: Option<IpAddress>, interfaces: &Vec<Interface>) -> (r: Result<
    IpAddress,
    CoreError,
>)
    ensures
        match (connected, first_outside(interfaces@, 0)) {
            (Some(ip), _) => r matches Ok(a) && a == ip,
            (None, Some(ip)) => r matches Ok(a) && a == ip,
            (None, None) => r matches Err(e) && e@ == ErrorView::Config(
                "no non-loopback network interface found"@,
            ),
        },
{
    match connected {
        Some(ip) => {
            return Ok(ip);
        },
        None => {},
    }
    let mut i: usize = 0;
    while i < interfaces.len()
        invariant
            i <= interfaces@.len(),
            connected is None,
            first_outside(interfaces@, 0) == first_outside(interfaces@, i as int),
        decreases interfaces.len() - i,
    {
        if !interfaces[i].loopback {
            return Ok(interfaces[i].ip);
        }
        i = i + 1;
    }
    Err(CoreError::Config(copy_text("no non-loopback network interface found")))
}

} // verus!
