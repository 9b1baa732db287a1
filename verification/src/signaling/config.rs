//! Accounts: what a file and the environment say, and what is made of it.

use vstd::prelude::*;

use crate::signaling::error::{CoreError, ErrorView};
use crate::text::{
    copy_opt_text, copy_text, lower_text, lowered, opt_text, pieces, read_unsigned, same_text,
    split_at_char, texts, trim, trimmed, unsigned,
};

verus! {

/// How SIP messages travel.
#[derive(Debug, Clone, Copy, PartialEq, Eq, Hash, Structural)]
pub enum SipTransport {
    Udp,
    Tcp,
    Tls,
}

impl Default for SipTransport {
    fn default() -> (r: Self)
        ensures
            r == SipTransport::Udp,
    {
        SipTransport::Udp
    }
}

/// All transports, in the order in which they are offered to the user.
pub const SIP_TRANSPORTS: [SipTransport; 3] = [
    SipTransport::Udp,
    SipTransport::Tcp,
    SipTransport::Tls,
];

impl SipTransport {
    /// The transport that a word names, in any case.
    pub open spec fn named(s: Seq<char>) -> Option<SipTransport> {
        let l = lowered(s);
        if l == "udp"@ {
            Some(SipTransport::Udp)
        } else if l == "tcp"@ {
            Some(SipTransport::Tcp)
        } else if l == "tls"@ {
            Some(SipTransport::Tls)
        } else {
            None
        }
    }

    /// The transport as the parameter of a URI.
    pub open spec fn parameter(self) -> Seq<char> {
        match self {
            SipTransport::Udp => "udp"@,
            SipTransport::Tcp => "tcp"@,
            SipTransport::Tls => "tls"@,
        }
    }

    /// The transport that a word names, in any case.
    pub fn parse_env(s: &str) -> (r: Option<Self>)
        ensures
            r == SipTransport::named(s@),
    {
        let l = lower_text(s);
        if same_text(l.as_str(), "udp") {
            Some(SipTransport::Udp)
        } else if same_text(l.as_str(), "tcp") {
            Some(SipTransport::Tcp)
        } else if same_text(l.as_str(), "tls") {
            Some(SipTransport::Tls)
        } else {
            None
        }
    }

    /// The transport as the parameter of a URI.
    pub fn as_parameter(self) -> (s: &'static str)
        ensures
            s@ == self.parameter(),
    {
        match self {
            SipTransport::Udp => "udp",
            SipTransport::Tcp => "tcp",
            SipTransport::Tls => "tls",
        }
    }

    /// The transport as shown to the user.
    pub fn to_string(&self) -> (s: String)
        ensures
            s@ == (match *self {
                SipTransport::Udp => "UDP"@,
                SipTransport::Tcp => "TCP"@,
                SipTransport::Tls => "TLS"@,
            }),
    {
        copy_text(
            match *self {
                SipTransport::Udp => "UDP",
                SipTransport::Tcp => "TCP",
                SipTransport::Tls => "TLS",
            },
        )
    }
}

/// A variant of G.711, as ranked in an account.
#[derive(Debug, Clone, Copy, PartialEq, Eq, Hash, Structural)]
pub enum PreferredCodec {
    Ulaw,
    Alaw,
}

impl Default for PreferredCodec {
    fn default() -> (r: Self)
        ensures
            r == PreferredCodec::Ulaw,
    {
        PreferredCodec::Ulaw
    }
}

/// All codecs, in the order in which they are offered to the user.
pub const PREFERRED_CODECS: [PreferredCodec; 2] = [PreferredCodec::Ulaw, PreferredCodec::Alaw];

impl PreferredCodec {
    /// The static RTP payload type of the codec.
    pub open spec fn number(self) -> u8 {
        match self {
            PreferredCodec::Ulaw => 0,
            PreferredCodec::Alaw => 8,
        }
    }

    /// The codec that a word names, in any case.
    pub open spec fn named(s: Seq<char>) -> Option<PreferredCodec> {
        let l = lowered(s);
        if l == "ulaw"@ {
            Some(PreferredCodec::Ulaw)
        } else if l == "alaw"@ {
            Some(PreferredCodec::Alaw)
        } else {
            None
        }
    }

    /// The static RTP payload type of the codec.
    pub fn payload_type(self) -> (r: u8)
        ensures
            r == self.number(),
    {
        match self {
            PreferredCodec::Ulaw => 0,
            PreferredCodec::Alaw => 8,
        }
    }

    /// The codec that a word names, in any case.
    pub fn parse_env(s: &str) -> (r: Option<Self>)
        ensures
            r == PreferredCodec::named(s@),
    {
        let l = lower_text(s);
        if same_text(l.as_str(), "ulaw") {
            Some(PreferredCodec::Ulaw)
        } else if same_text(l.as_str(), "alaw") {
            Some(PreferredCodec::Alaw)
        } else {
            None
        }
    }

    /// The codec as shown to the user.
    pub fn to_string(&self) -> (s: String)
        ensures
            s@ == (match *self {
                PreferredCodec::Ulaw => "G.711 u-law (PCMU)"@,
                PreferredCodec::Alaw => "G.711 A-law (PCMA)"@,
            }),
    {
        copy_text(
            match *self {
                PreferredCodec::Ulaw => "G.711 u-law (PCMU)",
                PreferredCodec::Alaw => "G.711 A-law (PCMA)",
            },
        )
    }
}

/// How the digits of a call are sent.
#[derive(Debug, Clone, Copy, PartialEq, Eq, Hash, Structural)]
pub enum DtmfMode {
    /// As RTP events where the other side takes them, else by SIP INFO.
    Auto,
    /// As RTP events only.
    RtpOnly,
    /// By SIP INFO only.
    InfoOnly,
}

impl Default for DtmfMode {
    fn default() -> (r: Self)
        ensures
            r == DtmfMode::Auto,
    {
        DtmfMode::Auto
    }
}

// ---------------------------------------------------------------------------
// Accounts

/// An account.
#[derive(Debug, Hash)]
pub struct SipAccountConfig {
    /// Shown to the user only.
    pub name: String,
    pub sip_server_host: String,
    pub sip_server_port: u16,
    pub transport: SipTransport,
    pub username: String,
    pub password: String,
    pub register_expires: u32,
    /// The local port to listen on; zero for any.
    pub local_port: u16,
    /// Whether to offer encrypted audio.
    pub srtp: bool,
    /// Needed for TLS: the system's trust store is never used.
    pub ca_cert_path: Option<String>,
    pub client_cert_path: Option<String>,
    pub client_key_path: Option<String>,
    /// The codecs to offer, the best first.
    pub preferred_codecs: Vec<PreferredCodec>,
    pub dtmf_mode: DtmfMode,
    /// Counts how often the account was saved; a new number makes the account
    /// register anew. Never stored.
    pub reg_epoch: u64,
}

/// An account as a plain value.
pub struct AccountView {
    pub name: Seq<char>,
    pub sip_server_host: Seq<char>,
    pub sip_server_port: u16,
    pub transport: SipTransport,
    pub username: Seq<char>,
    pub password: Seq<char>,
    pub register_expires: u32,
    pub local_port: u16,
    pub srtp: bool,
    pub ca_cert_path: Option<Seq<char>>,
    pub client_cert_path: Option<Seq<char>>,
    pub client_key_path: Option<Seq<char>>,
    pub preferred_codecs: Seq<PreferredCodec>,
    pub dtmf_mode: DtmfMode,
    pub reg_epoch: u64,
}

impl View for SipAccountConfig {
    type V = AccountView;

    open spec fn view(&self) -> AccountView {
        AccountView {
            name: self.name@,
            sip_server_host: self.sip_server_host@,
            sip_server_port: self.sip_server_port,
            transport: self.transport,
            username: self.username@,
            password: self.password@,
            register_expires: self.register_expires,
            local_port: self.local_port,
            srtp: self.srtp,
            ca_cert_path: opt_text(self.ca_cert_path),
            client_cert_path: opt_text(self.client_cert_path),
            client_key_path: opt_text(self.client_key_path),
            preferred_codecs: self.preferred_codecs@,
            dtmf_mode: self.dtmf_mode,
            reg_epoch: self.reg_epoch,
        }
    }
}

/// The codecs of an account that names none.
pub open spec fn default_codecs() -> Seq<PreferredCodec> {
    seq![PreferredCodec::Ulaw, PreferredCodec::Alaw]
}

/// The codecs of an account that names none.
pub fn all_codecs() -> (v: Vec<PreferredCodec>)
    ensures
        v@ == default_codecs(),
{
    let v: Vec<PreferredCodec> = vec![PreferredCodec::Ulaw, PreferredCodec::Alaw];
    assert(v@ =~= default_codecs());
    v
}

/// A blank account, to begin with.
pub open spec fn blank_account() -> AccountView {
    AccountView {
        name: Seq::empty(),
        sip_server_host: Seq::empty(),
        sip_server_port: 5060,
        transport: SipTransport::Udp,
        username: Seq::empty(),
        password: Seq::empty(),
        register_expires: 3600,
        local_port: 0,
        srtp: false,
        ca_cert_path: None,
        client_cert_path: None,
        client_key_path: None,
        preferred_codecs: default_codecs(),
        dtmf_mode: DtmfMode::Auto,
        reg_epoch: 0,
    }
}

impl Default for SipAccountConfig {
    fn default() -> (r: Self)
        ensures
            r@ == blank_account(),
    {
        SipAccountConfig {
            name: String::new(),
            sip_server_host: String::new(),
            sip_server_port: 5060,
            transport: SipTransport::Udp,
            username: String::new(),
            password: String::new(),
            register_expires: 3600,
            local_port: 0,
            srtp: false,
            ca_cert_path: None,
            client_cert_path: None,
            client_key_path: None,
            preferred_codecs: all_codecs(),
            dtmf_mode: DtmfMode::Auto,
            reg_epoch: 0,
        }
    }
}

/// A copy of a list of codecs.
pub fn copy_codecs(v: &Vec<PreferredCodec>) -> (r: Vec<PreferredCodec>)
    ensures
        r@ == v@,
{
    let mut r: Vec<PreferredCodec> = Vec::new();
    let mut i: usize = 0;
    while i < v.len()
        invariant
            i <= v@.len(),
            r@ == v@.take(i as int),
        decreases v.len() - i,
    {
        r.push(v[i]);
        i = i + 1;
        assert(v@.take(i as int) =~= v@.take(i - 1).push(v@[i - 1]));
    }
    assert(v@.take(v@.len() as int) =~= v@);
    r
}

impl SipAccountConfig {
    /// A copy of the account.
    pub fn copy(&self) -> (r: Self)
        ensures
            r@ == self@,
    {
        SipAccountConfig {
            name: copy_text(self.name.as_str()),
            sip_server_host: copy_text(self.sip_server_host.as_str()),
            sip_server_port: self.sip_server_port,
            transport: self.transport,
            username: copy_text(self.username.as_str()),
            password: copy_text(self.password.as_str()),
            register_expires: self.register_expires,
            local_port: self.local_port,
            srtp: self.srtp,
            ca_cert_path: copy_opt_text(&self.ca_cert_path),
            client_cert_path: copy_opt_text(&self.client_cert_path),
            client_key_path: copy_opt_text(&self.client_key_path),
            preferred_codecs: copy_codecs(&self.preferred_codecs),
            dtmf_mode: self.dtmf_mode,
            reg_epoch: self.reg_epoch,
        }
    }

    /// The payload types of the account's codecs, the best first.
    pub fn preferred_payload_types(&self) -> (r: Vec<u8>)
        ensures
            r@ == payload_types_of(self.preferred_codecs@),
    {
        let mut r: Vec<u8> = Vec::new();
        let mut i: usize = 0;
        while i < self.preferred_codecs.len()
            invariant
                i <= self.preferred_codecs@.len(),
                r@ == payload_types_of(self.preferred_codecs@.take(i as int)),
            decreases self.preferred_codecs.len() - i,
        {
            r.push(self.preferred_codecs[i].payload_type());
            i = i + 1;
            assert(r@ =~= payload_types_of(self.preferred_codecs@.take(i as int)));
        }
        assert(self.preferred_codecs@.take(i as int) =~= self.preferred_codecs@);
        r
    }
}

/// The payload types of codecs.
pub open spec fn payload_types_of(codecs: Seq<PreferredCodec>) -> Seq<u8> {
    codecs.map_values(|c: PreferredCodec| c.number())
}

/// The accounts of a file.
#[derive(Debug)]
pub struct AccountsFile {
    pub accounts: Vec<SipAccountConfig>,
}

impl Default for AccountsFile {
    fn default() -> (r: Self)
        ensures
            r.accounts@.len() == 0,
    {
        AccountsFile { accounts: Vec::new() }
    }
}

// ---------------------------------------------------------------------------
// What a file and the environment say

/// What was said of an account; anything can be missing.
#[derive(Debug)]
pub struct RawConfig {
    pub name: Option<String>,
    pub sip_server_host: Option<String>,
    pub sip_server_port: Option<u16>,
    pub transport: Option<SipTransport>,
    pub username: Option<String>,
    pub password: Option<String>,
    pub register_expires: Option<u32>,
    pub local_port: Option<u16>,
    pub srtp: Option<bool>,
    pub ca_cert_path: Option<String>,
    pub client_cert_path: Option<String>,
    pub client_key_path: Option<String>,
    pub preferred_codecs: Option<Vec<PreferredCodec>>,
}

/// What was said of an account, as a plain value.
pub struct RawView {
    pub name: Option<Seq<char>>,
    pub sip_server_host: Option<Seq<char>>,
    pub sip_server_port: Option<u16>,
    pub transport: Option<SipTransport>,
    pub username: Option<Seq<char>>,
    pub password: Option<Seq<char>>,
    pub register_expires: Option<u32>,
    pub local_port: Option<u16>,
    pub srtp: Option<bool>,
    pub ca_cert_path: Option<Seq<char>>,
    pub client_cert_path: Option<Seq<char>>,
    pub client_key_path: Option<Seq<char>>,
    pub preferred_codecs: Option<Seq<PreferredCodec>>,
}

impl View for RawConfig {
    type V = RawView;

    open spec fn view(&self) -> RawView {
        RawView {
            name: opt_text(self.name),
            sip_server_host: opt_text(self.sip_server_host),
            sip_server_port: self.sip_server_port,
            transport: self.transport,
            username: opt_text(self.username),
            password: opt_text(self.password),
            register_expires: self.register_expires,
            local_port: self.local_port,
            srtp: self.srtp,
            ca_cert_path: opt_text(self.ca_cert_path),
            client_cert_path: opt_text(self.client_cert_path),
            client_key_path: opt_text(self.client_key_path),
            preferred_codecs: match self.preferred_codecs {
                Some(v) => Some(v@),
                None => None,
            },
        }
    }
}

/// The values of the `OXIDESIP_*` variables that are set.
#[derive(Debug)]
pub struct EnvVars {
    pub sip_server_host: Option<String>,
    pub sip_server_port: Option<String>,
    pub transport: Option<String>,
    pub username: Option<String>,
    pub password: Option<String>,
    pub register_expires: Option<String>,
    pub local_port: Option<String>,
    pub srtp: Option<String>,
    pub ca_cert_path: Option<String>,
    pub client_cert_path: Option<String>,
    pub client_key_path: Option<String>,
    pub preferred_codecs: Option<String>,
}

impl Default for EnvVars {
    fn default() -> (r: Self)
        ensures
            r.sip_server_host is None,
            r.sip_server_port is None,
            r.transport is None,
            r.username is None,
            r.password is None,
            r.register_expires is None,
            r.local_port is None,
            r.srtp is None,
            r.ca_cert_path is None,
            r.client_cert_path is None,
            r.client_key_path is None,
            r.preferred_codecs is None,
    {
        EnvVars {
            sip_server_host: None,
            sip_server_port: None,
            transport: None,
            username: None,
            password: None,
            register_expires: None,
            local_port: None,
            srtp: None,
            ca_cert_path: None,
            client_cert_path: None,
            client_key_path: None,
            preferred_codecs: None,
        }
    }
}

/// `new`, or `old` where there is none.
pub open spec fn or_else<T>(new: Option<T>, old: Option<T>) -> Option<T> {
    if new is Some {
        new
    } else {
        old
    }
}

/// A number of at most `max`, if a variable that is set holds one.
pub open spec fn env_number(v: Option<String>, max: nat) -> Option<nat> {
    match v {
        Some(s) => unsigned(s@, max),
        None => None,
    }
}

/// What reading a word as true or false gives.
pub open spec fn truth(s: Seq<char>) -> Option<bool> {
    if s == "true"@ {
        Some(true)
    } else if s == "false"@ {
        Some(false)
    } else {
        None
    }
}

/// The codecs that the first `n` of some words name; words that name none do
/// not count.
pub open spec fn codecs_named(words: Seq<Seq<char>>, n: int) -> Seq<PreferredCodec>
    decreases n,
{
    if n <= 0 || n > words.len() {
        Seq::empty()
    } else {
        let head = codecs_named(words, n - 1);
        match PreferredCodec::named(trimmed(words[n - 1])) {
            Some(c) => head.push(c),
            None => head,
        }
    }
}

/// The codecs in a list with commas.
pub open spec fn codec_list(s: Seq<char>) -> Seq<PreferredCodec> {
    codecs_named(pieces(s, ','), pieces(s, ',').len() as int)
}

fn read_codec_list(s: &str) -> (r: Vec<PreferredCodec>)
    ensures
        r@ == codec_list(s@),
{
    let parts = split_at_char(s, ',');
    let ghost words = pieces(s@, ',');
    let mut r: Vec<PreferredCodec> = Vec::new();
    let mut i: usize = 0;
    while i < parts.len()
        invariant
            i <= parts@.len(),
            texts(parts@) == words,
            r@ == codecs_named(words, i as int),
        decreases parts.len() - i,
    {
        assert(texts(parts@)[i as int] == parts@[i as int]@);
        let word = trim(parts[i].as_str());
        match PreferredCodec::parse_env(word.as_str()) {
            Some(c) => {
                r.push(c);
            },
            None => {},
        }
        i = i + 1;
    }
    assert(words.len() == parts@.len());
    r
}

/// What was said of an account, with the variables that are set put over it.
/// A variable that cannot be read does not count.
pub open spec fn overridden(raw: RawView, env: EnvVars) -> RawView {
    RawView {
        name: raw.name,
        sip_server_host: or_else(opt_text(env.sip_server_host), raw.sip_server_host),
        sip_server_port: match env_number(env.sip_server_port, 65535) {
            Some(n) => Some(n as u16),
            None => raw.sip_server_port,
        },
        transport: match env.transport {
            Some(s) => or_else(SipTransport::named(s@), raw.transport),
            None => raw.transport,
        },
        username: or_else(opt_text(env.username), raw.username),
        password: or_else(opt_text(env.password), raw.password),
        register_expires: match env_number(env.register_expires, 0xffff_ffff) {
            Some(n) => Some(n as u32),
            None => raw.register_expires,
        },
        local_port: match env_number(env.local_port, 65535) {
            Some(n) => Some(n as u16),
            None => raw.local_port,
        },
        srtp: match env.srtp {
            Some(s) => or_else(truth(s@), raw.srtp),
            None => raw.srtp,
        },
        ca_cert_path: or_else(opt_text(env.ca_cert_path), raw.ca_cert_path),
        client_cert_path: or_else(opt_text(env.client_cert_path), raw.client_cert_path),
        client_key_path: or_else(opt_text(env.client_key_path), raw.client_key_path),
        preferred_codecs: match env.preferred_codecs {
            Some(s) => if codec_list(s@).len() > 0 {
                Some(codec_list(s@))
            } else {
                raw.preferred_codecs
            },
            None => raw.preferred_codecs,
        },
    }
}

/// The port that a transport uses where none is given.
pub open spec fn default_port(transport: SipTransport) -> u16 {
    match transport {
        SipTransport::Tls => 5061,
        SipTransport::Udp | SipTransport::Tcp => 5060,
    }
}

/// The account that was said, or what is missing. TLS needs the certificate of
/// an authority; every account needs a server, a name and a password.
pub open spec fn account_of(raw: RawView) -> Result<AccountView, Seq<char>> {
    let transport = match raw.transport {
        Some(t) => t,
        None => SipTransport::Udp,
    };
    if transport == SipTransport::Tls && raw.ca_cert_path is None {
        Err("missing ca_cert_path (required for transport = \"tls\")"@)
    } else if raw.sip_server_host is None {
        Err("missing sip_server_host"@)
    } else if raw.username is None {
        Err("missing username"@)
    } else if raw.password is None {
        Err("missing password"@)
    } else {
        Ok(
            AccountView {
                name: match raw.name {
                    Some(n) => n,
                    None => Seq::empty(),
                },
                sip_server_host: raw.sip_server_host->0,
                sip_server_port: match raw.sip_server_port {
                    Some(p) => p,
                    None => default_port(transport),
                },
                transport,
                username: raw.username->0,
                password: raw.password->0,
                register_expires: match raw.register_expires {
                    Some(e) => e,
                    None => 3600,
                },
                local_port: match raw.local_port {
                    Some(p) => p,
                    None => 0,
                },
                srtp: match raw.srtp {
                    Some(b) => b,
                    None => false,
                },
                ca_cert_path: raw.ca_cert_path,
                client_cert_path: raw.client_cert_path,
                client_key_path: raw.client_key_path,
                preferred_codecs: match raw.preferred_codecs {
                    Some(c) => if c.len() > 0 {
                        c
                    } else {
                        default_codecs()
                    },
                    None => default_codecs(),
                },
                dtmf_mode: DtmfMode::Auto,
                reg_epoch: 0,
            },
        )
    }
}

fn missing(what: &str) -> (e: CoreError)
    ensures
        e@ == ErrorView::Config(what@),
{
    CoreError::Config(copy_text(what))
}

/// Nothing said at all.
pub open spec fn raw_nothing() -> RawView {
    RawView {
        name: None,
        sip_server_host: None,
        sip_server_port: None,
        transport: None,
        username: None,
        password: None,
        register_expires: None,
        local_port: None,
        srtp: None,
        ca_cert_path: None,
        client_cert_path: None,
        client_key_path: None,
        preferred_codecs: None,
    }
}

impl Default for RawConfig {
    fn default() -> (r: Self)
        ensures
            r@ == raw_nothing(),
    {
        RawConfig {
            name: None,
            sip_server_host: None,
            sip_server_port: None,
            transport: None,
            username: None,
            password: None,
            register_expires: None,
            local_port: None,
            srtp: None,
            ca_cert_path: None,
            client_cert_path: None,
            client_key_path: None,
            preferred_codecs: None,
        }
    }
}

fn pick_text(env: &Option<String>, said: &Option<String>) -> (r: Option<String>)
    ensures
        opt_text(r) == or_else(opt_text(*env), opt_text(*said)),
{
    if env.is_some() {
        copy_opt_text(env)
    } else {
        copy_opt_text(said)
    }
}

fn pick_port(env: &Option<String>, said: Option<u16>) -> (r: Option<u16>)
    ensures
        r == (match env_number(*env, 65535) {
            Some(n) => Some(n as u16),
            None => said,
        }),
{
    match env {
        Some(s) => match read_unsigned(s.as_str(), 65535) {
            Some(n) => Some(n as u16),
            None => said,
        },
        None => said,
    }
}

fn pick_seconds(env: &Option<String>, said: Option<u32>) -> (r: Option<u32>)
    ensures
        r == (match env_number(*env, 0xffff_ffff) {
            Some(n) => Some(n as u32),
            None => said,
        }),
{
    match env {
        Some(s) => match read_unsigned(s.as_str(), 0xffff_ffff) {
            Some(n) => Some(n as u32),
            None => said,
        },
        None => said,
    }
}

fn pick_transport(env: &Option<String>, said: Option<SipTransport>) -> (r: Option<SipTransport>)
    ensures
        r == (match *env {
            Some(s) => or_else(SipTransport::named(s@), said),
            None => said,
        }),
{
    match env {
        Some(s) => match SipTransport::parse_env(s.as_str()) {
            Some(t) => Some(t),
            None => said,
        },
        None => said,
    }
}

fn pick_truth(env: &Option<String>, said: Option<bool>) -> (r: Option<bool>)
    ensures
        r == (match *env {
            Some(s) => or_else(truth(s@), said),
            None => said,
        }),
{
    match env {
        Some(s) => {
            if same_text(s.as_str(), "true") {
                Some(true)
            } else if same_text(s.as_str(), "false") {
                Some(false)
            } else {
                said
            }
        },
        None => said,
    }
}

impl RawConfig {
    /// Puts the variables that are set over what was said.
    pub fn apply_env_overrides(&mut self, env: &EnvVars)
        ensures
            final(self)@ == overridden(old(self)@, *env),
    {
        self.sip_server_host = pick_text(&env.sip_server_host, &self.sip_server_host);
        self.sip_server_port = pick_port(&env.sip_server_port, self.sip_server_port);
        self.transport = pick_transport(&env.transport, self.transport);
        self.username = pick_text(&env.username, &self.username);
        self.password = pick_text(&env.password, &self.password);
        self.register_expires = pick_seconds(&env.register_expires, self.register_expires);
        self.local_port = pick_port(&env.local_port, self.local_port);
        self.srtp = pick_truth(&env.srtp, self.srtp);
        self.ca_cert_path = pick_text(&env.ca_cert_path, &self.ca_cert_path);
        self.client_cert_path = pick_text(&env.client_cert_path, &self.client_cert_path);
        self.client_key_path = pick_text(&env.client_key_path, &self.client_key_path);
        match &env.preferred_codecs {
            Some(s) => {
                let codecs = read_codec_list(s.as_str());
                if codecs.len() > 0 {
                    self.preferred_codecs = Some(codecs);
                }
            },
            None => {},
        }
    }

    /// The account that was said, or the error that something is missing.
    pub fn into_config(self) -> (r: Result<SipAccountConfig, CoreError>)
        ensures
            match r {
                Ok(c) => account_of(self@) == Ok::<AccountView, Seq<char>>(c@),
                Err(e) => account_of(self@) matches Err(m) && e@ == ErrorView::Config(m),
            },
    {
        let transport = match self.transport {
            Some(t) => t,
            None => SipTransport::Udp,
        };
        let sip_server_port: u16 = match self.sip_server_port {
            Some(p) => p,
            None => match transport {
                SipTransport::Tls => 5061,
                SipTransport::Udp | SipTransport::Tcp => 5060,
            },
        };
        if transport == SipTransport::Tls && self.ca_cert_path.is_none() {
            return Err(missing("missing ca_cert_path (required for transport = \"tls\")"));
        }
        let sip_server_host = match self.sip_server_host {
            Some(h) => h,
            None => {
                return Err(missing("missing sip_server_host"));
            },
        };
        let username = match self.username {
            Some(u) => u,
            None => {
                return Err(missing("missing username"));
            },
        };
        let password = match self.password {
            Some(p) => p,
            None => {
                return Err(missing("missing password"));
            },
        };
        let name = match self.name {
            Some(n) => n,
            None => String::new(),
        };
        let preferred_codecs = match self.preferred_codecs {
            Some(c) => {
                if c.len() > 0 {
                    c
                } else {
                    all_codecs()
                }
            },
            None => all_codecs(),
        };
        Ok(
            SipAccountConfig {
                name,
                sip_server_host,
                sip_server_port,
                transport,
                username,
                password,
                register_expires: match self.register_expires {
                    Some(e) => e,
                    None => 3600,
                },
                local_port: match self.local_port {
                    Some(p) => p,
                    None => 0,
                },
                srtp: match self.srtp {
                    Some(b) => b,
                    None => false,
                },
                ca_cert_path: self.ca_cert_path,
                client_cert_path: self.client_cert_path,
                client_key_path: self.client_key_path,
                preferred_codecs,
                dtmf_mode: DtmfMode::Auto,
                reg_epoch: 0,
            },
        )
    }
}

/// The account that a file tells of, with the variables that are set put over
/// it.
pub fn load_config(raw: RawConfig, env: &EnvVars) -> (r: Result<SipAccountConfig, CoreError>)
    ensures
        match r {
            Ok(c) => account_of(overridden(raw@, *env)) == Ok::<AccountView, Seq<char>>(c@),
            Err(e) => account_of(overridden(raw@, *env)) matches Err(m) && e@
                == ErrorView::Config(m),
        },
{
    let mut raw = raw;
    raw.apply_env_overrides(env);
    raw.into_config()
}

/// The account that the variables alone tell of.
pub fn load_config_from_env(env: &EnvVars) -> (r: Result<SipAccountConfig, CoreError>)
    ensures
        match r {
            Ok(c) => account_of(overridden(raw_nothing(), *env)) == Ok::<AccountView, Seq<char>>(
                c@,
            ),
            Err(e) => account_of(overridden(raw_nothing(), *env)) matches Err(m) && e@
                == ErrorView::Config(m),
        },
{
    load_config(RawConfig::default(), env)
}

// ---------------------------------------------------------------------------
// Laws

/// An account that was made has codecs, and a certificate where it needs one;
/// and it is made whenever nothing that it needs is missing.
pub proof fn accounts_are_complete(raw: RawView)
    ensures
        account_of(raw) matches Ok(c) ==> c.preferred_codecs.len() > 0,
        account_of(raw) matches Ok(c) ==> (c.transport == SipTransport::Tls ==> c.ca_cert_path is Some),
        account_of(raw) is Ok <==> raw.sip_server_host is Some && raw.username is Some
            && raw.password is Some && (raw.transport == Some(SipTransport::Tls)
            ==> raw.ca_cert_path is Some),
{
}

/// A variable wins over the file, and where it is not set the file's value
/// stays.
pub proof fn environment_wins(raw: RawView, env: EnvVars)
    ensures
        env.password matches Some(p) ==> overridden(raw, env).password == Some(p@),
        env.password is None ==> overridden(raw, env).password == raw.password,
        env.sip_server_host matches Some(h) ==> overridden(raw, env).sip_server_host == Some(h@),
        env.sip_server_host is None ==> overridden(raw, env).sip_server_host
            == raw.sip_server_host,
        env.username matches Some(u) ==> overridden(raw, env).username == Some(u@),
        env.username is None ==> overridden(raw, env).username == raw.username,
{
}

} // verus!
