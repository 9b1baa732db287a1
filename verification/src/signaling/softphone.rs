//! The signaling of an account.

use vstd::prelude::*;

use crate::signaling::config::{SipAccountConfig, SipTransport};
use crate::signaling::error::{CoreError, ErrorView};
use crate::signaling::transport::{
    plan_transport, registrar_text, registrar_uri, uri_error, uri_message, SipUri, TransportPlan,
};
use crate::text::opt_text;

verus! {

/// What the signaling of an account starts with.
#[derive(Debug)]
pub struct SoftphoneCore {
    pub transport: TransportPlan,
    pub registrar: SipUri,
    /// Whether the connection to the registrar has to be there before the first
    /// request.
    pub warm_up: bool,
}

impl SoftphoneCore {
    /// What the signaling of an account starts with. An account without the
    /// certificate that TLS needs, or whose registrar is no URI, cannot start.
    pub fn prepare(config: &SipAccountConfig) -> (r: Result<Self, CoreError>)
        ensures
            match r {
                Ok(core) => {
                    &&& !(config@.transport == SipTransport::Tls && config@.ca_cert_path is None)
                    &&& uri_error(registrar_text(config@)) is None
                    &&& core.registrar.text@ == registrar_text(config@)
                    &&& core.warm_up == (config@.transport == SipTransport::Tls)
                    &&& match core.transport {
                        TransportPlan::Udp { local_port } => config@.transport == SipTransport::Udp
                            && local_port == config@.local_port,
                        TransportPlan::Tcp { local_port } => config@.transport == SipTransport::Tcp
                            && local_port == config@.local_port,
                        TransportPlan::Tls { ca_cert, client_cert, client_key } => config@.transport
                            == SipTransport::Tls && Some(ca_cert@) == config@.ca_cert_path
                            && opt_text(client_cert) == config@.client_cert_path && opt_text(
                            client_key,
                        ) == config@.client_key_path,
                    }
                },
                Err(e) => if config@.transport == SipTransport::Tls && config@.ca_cert_path is None {
                    e@ == ErrorView::Config("ca_cert_path is required for transport = \"tls\""@)
                } else {
                    uri_error(registrar_text(config@)) matches Some(why) && e@ == ErrorView::Sip(
                        uri_message(why),
                    )
                },
            },
    {
        let transport = match plan_transport(config) {
            Ok(plan) => plan,
            Err(e) => {
                return Err(e);
            },
        };
        let registrar = match registrar_uri(config) {
            Ok(uri) => uri,
            Err(e) => {
                return Err(e);
            },
        };
        Ok(SoftphoneCore { transport, registrar, warm_up: config.transport == SipTransport::Tls })
    }
}

} // verus!
