//! Dial configuration and the decisions of the dial procedure: which transport
//! to open next, when to downgrade, when to authenticate, and whether the
//! result is a direct or a WebRTC channel.

use crate::text::{contains, dots_to_dashes, has_prefix, has_substring, starts_with, to_decimal};
use vstd::prelude::*;

verus! {

/// The scheme, authority and path that `http::Uri` parses from a text, or
/// `None` when it rejects the text.
pub uninterp spec fn uri_parse_of(s: Seq<char>) -> Option<
    (Option<Seq<char>>, Option<Seq<char>>, Option<Seq<char>>),
>;

/// The parts of a parsed URI.
pub struct ParsedUri {
    pub scheme: Option<String>,
    pub authority: Option<String>,
    pub path_and_query: Option<String>,
}

/// The text in `o`, if any.
pub open spec fn opt_view(o: Option<String>) -> Option<Seq<char>> {
    match o {
        Some(s) => Some(s@),
        None => None,
    }
}

/// Relies on `http::Uri`'s `FromStr` and its `scheme_str`, `authority` and
/// `path_and_query` accessors: the parts of the URI, or none when the text is
/// not a URI.
#[verifier::external_body]
fn parse_uri(s: &str) -> (r: Option<ParsedUri>)
    ensures
        match r {
            Some(p) => uri_parse_of(s@) == Some(
                (opt_view(p.scheme), opt_view(p.authority), opt_view(p.path_and_query)),
            ),
            None => uri_parse_of(s@) is None,
        },
{
    let uri = s.parse::<http::Uri>().ok()?;
    Some(
        ParsedUri {
            scheme: uri.scheme_str().map(|x| x.to_string()),
            authority: uri.authority().map(|a| a.as_str().to_string()),
            path_and_query: uri.path_and_query().map(|p| p.as_str().to_string()),
        },
    )
}

/// Whether a transport is opened with or without TLS.
#[derive(Debug, Clone, Copy, PartialEq, Eq, Structural)]
pub enum Scheme {
    Secure,
    Plain,
}

/// Where to dial: a scheme and a non-empty authority (`host:port`).
#[derive(Debug, Clone)]
pub struct Target {
    pub scheme: Scheme,
    pub authority: String,
}

/// `t` has this scheme and this authority.
pub open spec fn target_is(t: Target, scheme: Scheme, authority: Seq<char>) -> bool {
    t.scheme == scheme && t.authority@ == authority
}

/// The target that a URI text names, scheme defaulting to secure, or `None`
/// when the text is not a URI with a non-empty authority.
pub open spec fn target_of(s: Seq<char>) -> Option<(Scheme, Seq<char>)> {
    match uri_parse_of(s) {
        Some((scheme, Some(authority), _)) => if authority.len() > 0 {
            Some(
                (
                    if scheme == Some("http"@) {
                        Scheme::Plain
                    } else {
                        Scheme::Secure
                    },
                    authority,
                ),
            )
        } else {
            None
        },
        _ => None,
    }
}

/// Reads the dial target from a URI text: its authority, and a plain scheme
/// when the text says `http`, a secure one otherwise.
pub fn uri_parts_with_defaults(uri: &str) -> (r: Option<Target>)
    ensures
        match target_of(uri@) {
            Some((scheme, authority)) => r is Some && target_is(r->Some_0, scheme, authority),
            None => r is None,
        },
{
    let parsed = match parse_uri(uri) {
        Some(p) => p,
        None => {
            return None;
        },
    };
    let authority = match parsed.authority {
        Some(a) => a,
        None => {
            return None;
        },
    };
    if authority.as_str().unicode_len() == 0 {
        return None;
    }
    let plain = match &parsed.scheme {
        Some(s) => {
            proof {
                reveal_strlit("http");
            }
            *s == "http".to_string()
        },
        None => false,
    };
    Some(Target { scheme: if plain { Scheme::Plain } else { Scheme::Secure }, authority })
}

/// The `rpc-host` value for an authority: `localhost:8080` for a loopback
/// authority, the authority itself otherwise.
pub open spec fn amended_domain(domain: Seq<char>) -> Seq<char> {
    if has_prefix(domain, "127."@) || has_prefix(domain, "localhost"@) {
        "localhost:8080"@
    } else {
        domain
    }
}

/// The host the remote side expects to be addressed as: an authority that
/// starts with `127.` or `localhost` becomes `localhost:8080`.
pub fn amend_domain_if_local<'a>(domain: &'a str) -> (r: &'a str)
    ensures
        r@ == amended_domain(domain@),
{
    if starts_with(domain, "127.") || starts_with(domain, "localhost") {
        "localhost:8080"
    } else {
        domain
    }
}

/// An authority naming a host on the local network: it holds `.local` or
/// `localhost`.
pub open spec fn is_local_spec(authority: Seq<char>) -> bool {
    has_substring(authority, ".local"@) || has_substring(authority, "localhost"@)
}

/// Whether an authority names a host on the local network, which is reached
/// directly rather than over WebRTC.
pub fn is_local_authority(authority: &str) -> (r: bool)
    ensures
        r == is_local_spec(authority@),
{
    contains(authority, ".local") || contains(authority, "localhost")
}

/// The name of the mDNS service that robots answer on.
pub const SERVICE_NAME: &'static str = "_rpc._tcp.local";

/// The host names that an mDNS answer may carry for `authority`: the
/// authority with dots turned into dashes, then the authority itself.
pub fn mdns_candidates(authority: &str) -> (r: Vec<String>)
    ensures
        r@.len() == 2,
        r@[0]@ == crate::text::dots_to_dashes_spec(authority@),
        r@[1]@ == authority@,
{
    let mut v: Vec<String> = Vec::new();
    v.push(dots_to_dashes(authority));
    v.push(authority.to_string());
    v
}

/// The mDNS query for `authority`: `<authority>._rpc._tcp.local`.
pub fn mdns_query_name(authority: &str) -> (r: String)
    ensures
        r@ == authority@ + "."@ + SERVICE_NAME@,
{
    let mut q = authority.to_string();
    q.append(".");
    q.append(SERVICE_NAME);
    q
}

/// Some candidate occurs in the host name.
pub open spec fn hostname_matches_spec(candidates: Seq<String>, hostname: Seq<char>) -> bool {
    exists|i: int| 0 <= i < candidates.len() && has_substring(hostname, #[trigger] candidates[i]@)
}

/// Whether an mDNS answer with this host name is one for the candidates.
pub fn hostname_matches(candidates: &Vec<String>, hostname: &str) -> (r: bool)
    ensures
        r == hostname_matches_spec(candidates@, hostname@),
{
    let mut i: usize = 0;
    while i < candidates.len()
        invariant
            i <= candidates@.len(),
            forall|k: int| 0 <= k < i ==> !has_substring(hostname@, #[trigger] candidates@[k]@),
        decreases candidates@.len() - i,
    {
        if contains(hostname, candidates[i].as_str()) {
            return true;
        }
        i += 1;
    }
    false
}

/// Some TXT record names the `grpc` or the `webrtc` service.
pub open spec fn offers_rpc(txt: Seq<String>) -> bool {
    exists|i: int|
        0 <= i < txt.len() && (has_substring(#[trigger] txt[i]@, "grpc"@) || has_substring(
            txt[i]@,
            "webrtc"@,
        ))
}

/// The address `ip:port` that an mDNS answer offers: present when a TXT
/// record names `grpc` or `webrtc` and the answer holds an IPv4 address and a
/// port.
pub fn mdns_address(txt_records: &Vec<String>, ipv4: Option<String>, port: Option<u16>) -> (r:
    Option<String>)
    ensures
        match r {
            Some(a) => {
                &&& offers_rpc(txt_records@)
                &&& ipv4 is Some
                &&& port is Some
                &&& a@ == ipv4->Some_0@ + ":"@ + crate::text::decimal(port->Some_0 as nat)
            },
            None => !offers_rpc(txt_records@) || ipv4 is None || port is None,
        },
{
    let mut offers = false;
    let mut i: usize = 0;
    while i < txt_records.len()
        invariant
            i <= txt_records@.len(),
            offers == exists|k: int|
                0 <= k < i && (has_substring(#[trigger] txt_records@[k]@, "grpc"@) || has_substring(
                    txt_records@[k]@,
                    "webrtc"@,
                )),
        decreases txt_records@.len() - i,
    {
        if contains(txt_records[i].as_str(), "grpc") || contains(txt_records[i].as_str(), "webrtc") {
            offers = true;
        }
        i += 1;
    }
    if !offers {
        return None;
    }
    match (ipv4, port) {
        (Some(ip), Some(p)) => {
            let mut a = ip;
            a.append(":");
            let digits = to_decimal(p as u64);
            a.append(digits.as_str());
            Some(a)
        },
        _ => None,
    }
}


/// A credential: its type and its secret.
#[derive(Debug, Clone)]
pub struct Credentials {
    pub credential_type: String,
    pub payload: String,
}

/// Credentials for a dial, with the entity they authenticate as.
#[derive(Debug, Clone)]
pub struct RPCCredentials {
    entity: Option<String>,
    credentials: Credentials,
}

impl RPCCredentials {
    pub closed spec fn spec_entity(&self) -> Option<String> {
        self.entity
    }

    pub closed spec fn spec_credentials(&self) -> Credentials {
        self.credentials
    }

    /// Credentials of this type and payload; without an entity they
    /// authenticate as the dialled authority.
    pub fn new(entity: Option<String>, credential_type: String, payload: String) -> (r: Self)
        ensures
            r.spec_entity() == entity,
            r.spec_credentials().credential_type == credential_type,
            r.spec_credentials().payload == payload,
    {
        RPCCredentials { credentials: Credentials { credential_type, payload }, entity }
    }

    pub fn entity(&self) -> (r: &Option<String>)
        ensures
            *r == self.spec_entity(),
    {
        &self.entity
    }

    pub fn credentials(&self) -> (r: &Credentials)
        ensures
            *r == self.spec_credentials(),
    {
        &self.credentials
    }
}

/// Options of the WebRTC transport.
#[derive(Debug, Clone, Copy, PartialEq, Eq, Structural)]
pub struct WebRtcOptions {
    pub disable_webrtc: bool,
    pub disable_trickle_ice: bool,
}

/// The configuration that a dial builder gathers.
#[derive(Debug)]
pub struct DialOptions {
    credentials: Option<RPCCredentials>,
    webrtc_options: Option<WebRtcOptions>,
    uri: Option<Target>,
    disable_mdns: bool,
    allow_downgrade: bool,
    insecure: bool,
}

/// Builder state: the URI is still to be given.
pub struct WantsUri(());

/// Builder state: whether to use credentials is still to be said.
pub struct WantsCredentials(());

/// Builder state: ready to connect with credentials.
pub struct WithCredentials(());

/// Builder state: ready to connect without credentials.
pub struct WithoutCredentials(());

/// The builder states from which a connection can be made.
pub trait AuthMethod {
}

impl AuthMethod for WithCredentials {
}

impl AuthMethod for WithoutCredentials {
}

/// Gathers the options of a dial, one step at a time.
pub struct DialBuilder<T> {
    state: T,
    config: DialOptions,
}

impl DialOptions {
    /// A builder that waits for its URI, every flag off.
    pub fn builder() -> (r: DialBuilder<WantsUri>)
        ensures
            r.spec_uri() is None,
            r.spec_credentials() is None,
            !r.spec_insecure(),
            !r.spec_allow_downgrade(),
            !r.spec_disable_mdns(),
            !r.spec_disable_webrtc(),
    {
        DialBuilder {
            state: WantsUri(()),
            config: DialOptions {
                credentials: None,
                webrtc_options: None,
                uri: None,
                disable_mdns: false,
                allow_downgrade: false,
                insecure: false,
            },
        }
    }
}

impl<T> DialBuilder<T> {
    /// The target read from the URI, when it named one.
    pub closed spec fn spec_uri(&self) -> Option<Target> {
        self.config.uri
    }

    pub closed spec fn spec_credentials(&self) -> Option<RPCCredentials> {
        self.config.credentials
    }

    pub closed spec fn spec_insecure(&self) -> bool {
        self.config.insecure
    }

    pub closed spec fn spec_allow_downgrade(&self) -> bool {
        self.config.allow_downgrade
    }

    pub closed spec fn spec_disable_mdns(&self) -> bool {
        self.config.disable_mdns
    }

    pub closed spec fn spec_disable_webrtc(&self) -> bool {
        match self.config.webrtc_options {
            Some(o) => o.disable_webrtc,
            None => false,
        }
    }

    pub closed spec fn spec_disable_trickle_ice(&self) -> bool {
        match self.config.webrtc_options {
            Some(o) => o.disable_trickle_ice,
            None => false,
        }
    }

    /// The target read from the URI, when it named one.
    pub fn target(&self) -> (r: &Option<Target>)
        ensures
            *r == self.spec_uri(),
    {
        &self.config.uri
    }
}

impl DialBuilder<WantsUri> {
    /// Sets the URI to connect to. A text that names no authority leaves the
    /// builder without a target, and `connect` then fails.
    pub fn uri(self, uri: &str) -> (r: DialBuilder<WantsCredentials>)
        ensures
            match target_of(uri@) {
                Some((scheme, authority)) => r.spec_uri() is Some && target_is(
                    r.spec_uri()->Some_0,
                    scheme,
                    authority,
                ),
                None => r.spec_uri() is None,
            },
            r.spec_credentials() is None,
            !r.spec_insecure(),
            !r.spec_allow_downgrade(),
            !r.spec_disable_mdns(),
            !r.spec_disable_webrtc(),
    {
        DialBuilder {
            state: WantsCredentials(()),
            config: DialOptions {
                credentials: None,
                webrtc_options: None,
                uri: uri_parts_with_defaults(uri),
                disable_mdns: false,
                allow_downgrade: false,
                insecure: false,
            },
        }
    }
}

impl DialBuilder<WantsCredentials> {
    /// Connects without credentials.
    pub fn without_credentials(self) -> (r: DialBuilder<WithoutCredentials>)
        ensures
            r.spec_uri() == self.spec_uri(),
            r.spec_credentials() is None,
            !r.spec_insecure(),
            !r.spec_allow_downgrade(),
            !r.spec_disable_mdns(),
            !r.spec_disable_webrtc(),
    {
        DialBuilder {
            state: WithoutCredentials(()),
            config: DialOptions {
                credentials: None,
                webrtc_options: None,
                uri: self.config.uri,
                disable_mdns: false,
                allow_downgrade: false,
                insecure: false,
            },
        }
    }

    /// Connects with these credentials.
    pub fn with_credentials(self, creds: RPCCredentials) -> (r: DialBuilder<WithCredentials>)
        ensures
            r.spec_uri() == self.spec_uri(),
            r.spec_credentials() == Some(creds),
            !r.spec_insecure(),
            !r.spec_allow_downgrade(),
            !r.spec_disable_mdns(),
            !r.spec_disable_webrtc(),
    {
        DialBuilder {
            state: WithCredentials(()),
            config: DialOptions {
                credentials: Some(creds),
                webrtc_options: None,
                uri: self.config.uri,
                disable_mdns: false,
                allow_downgrade: false,
                insecure: false,
            },
        }
    }
}

impl<T: AuthMethod> DialBuilder<T> {
    /// Connects over a plain transport.
    pub fn insecure(self) -> (r: Self)
        ensures
            r.spec_insecure(),
            r.spec_uri() == self.spec_uri(),
            r.spec_credentials() == self.spec_credentials(),
            r.spec_allow_downgrade() == self.spec_allow_downgrade(),
            r.spec_disable_mdns() == self.spec_disable_mdns(),
            r.spec_disable_webrtc() == self.spec_disable_webrtc(),
            r.spec_disable_trickle_ice() == self.spec_disable_trickle_ice(),
    {
        let mut b = self;
        b.config.insecure = true;
        b
    }

    /// Retries a failed secure connection over a plain transport.
    pub fn allow_downgrade(self) -> (r: Self)
        ensures
            r.spec_allow_downgrade(),
            r.spec_uri() == self.spec_uri(),
            r.spec_credentials() == self.spec_credentials(),
            r.spec_insecure() == self.spec_insecure(),
            r.spec_disable_mdns() == self.spec_disable_mdns(),
            r.spec_disable_webrtc() == self.spec_disable_webrtc(),
            r.spec_disable_trickle_ice() == self.spec_disable_trickle_ice(),
    {
        let mut b = self;
        b.config.allow_downgrade = true;
        b
    }

    /// Skips the mDNS lookup.
    pub fn disable_mdns(self) -> (r: Self)
        ensures
            r.spec_disable_mdns(),
            r.spec_uri() == self.spec_uri(),
            r.spec_credentials() == self.spec_credentials(),
            r.spec_insecure() == self.spec_insecure(),
            r.spec_allow_downgrade() == self.spec_allow_downgrade(),
            r.spec_disable_webrtc() == self.spec_disable_webrtc(),
            r.spec_disable_trickle_ice() == self.spec_disable_trickle_ice(),
    {
        let mut b = self;
        b.config.disable_mdns = true;
        b
    }

    /// Connects directly, never over WebRTC.
    pub fn disable_webrtc(self) -> (r: Self)
        ensures
            r.spec_disable_webrtc(),
            !r.spec_disable_trickle_ice(),
            r.spec_uri() == self.spec_uri(),
            r.spec_credentials() == self.spec_credentials(),
            r.spec_insecure() == self.spec_insecure(),
            r.spec_allow_downgrade() == self.spec_allow_downgrade(),
            r.spec_disable_mdns() == self.spec_disable_mdns(),
    {
        let mut b = self;
        b.config.webrtc_options = Some(WebRtcOptions { disable_webrtc: true, disable_trickle_ice: false });
        b
    }

    /// The mDNS query to make before dialling, with the host names an answer
    /// may carry; none when mDNS is disabled or the builder has no target.
    pub fn mdns_query(&self) -> (r: Option<(String, Vec<String>)>)
        ensures
            match r {
                Some((q, c)) => {
                    &&& !self.spec_disable_mdns()
                    &&& self.spec_uri() is Some
                    &&& q@ == self.spec_uri()->Some_0.authority@ + "."@ + SERVICE_NAME@
                    &&& c@.len() == 2
                    &&& c@[0]@ == crate::text::dots_to_dashes_spec(self.spec_uri()->Some_0.authority@)
                    &&& c@[1]@ == self.spec_uri()->Some_0.authority@
                },
                None => self.spec_disable_mdns() || self.spec_uri() is None,
            },
    {
        if self.config.disable_mdns {
            return None;
        }
        match &self.config.uri {
            Some(t) => Some((mdns_query_name(t.authority.as_str()), mdns_candidates(t.authority.as_str()))),
            None => None,
        }
    }
}


/// Where a dial stands.
#[derive(Debug, Clone, Copy, PartialEq, Eq, Structural)]
pub enum DialPhase {
    /// Nothing attempted yet.
    Idle,
    /// Connecting to the mDNS address under TLS.
    MdnsSecure,
    /// Connecting to the mDNS address without TLS.
    MdnsPlain,
    /// Connecting to the target.
    Primary,
    /// Connecting to the target without TLS.
    PrimaryPlain,
    /// Acquiring a bearer token.
    Authenticating,
    /// Establishing the WebRTC channel.
    Negotiating,
    /// The dial has produced its result.
    Finished,
}

/// Why a dial failed.
#[derive(Debug, Clone, Copy, PartialEq, Eq, Structural)]
pub enum DialError {
    /// The builder was given no usable URI.
    NoUri,
    /// No transport could be opened.
    Transport,
    /// The credentials were refused.
    Auth,
    /// An outcome was reported that the dial was not waiting for.
    OutOfOrder,
}

/// What the driver of a dial is to do next.
#[derive(Debug)]
pub enum DialStep {
    /// Open a direct transport to `target`; with `tls_domain`, under TLS with
    /// that server name. Report whether it opened.
    Connect { target: Target, tls_domain: Option<String> },
    /// Exchange the credentials for a bearer token. Report the outcome.
    Authenticate { entity: String, credential_type: String, payload: String },
    /// Establish a WebRTC channel through the signalling service on the
    /// direct transport. Report the outcome.
    NegotiateWebRtc { disable_trickle_ice: bool },
    /// The dial is done: the result is the direct transport.
    ReturnDirect,
    /// The dial is done: the result is the WebRTC channel.
    ReturnWebRtc,
    /// The dial failed.
    Fail(DialError),
}

/// `r` asks to connect to this scheme and authority, with this TLS server
/// name.
pub open spec fn is_connect(r: DialStep, scheme: Scheme, authority: Seq<char>, tls: Option<Seq<char>>) -> bool {
    match r {
        DialStep::Connect { target, tls_domain } => target_is(target, scheme, authority) && opt_view(
            tls_domain,
        ) == tls,
        _ => false,
    }
}

/// The decisions of one dial.
pub struct Dialer {
    target: Target,
    rpc_host: String,
    mdns_authority: Option<String>,
    allow_downgrade: bool,
    credentials: Option<RPCCredentials>,
    disable_webrtc: bool,
    disable_trickle_ice: bool,
    phase: DialPhase,
}

impl<T: AuthMethod> DialBuilder<T> {
    /// The decisions of a dial with this configuration, given the address that
    /// mDNS found, if any. Fails with `NoUri` when the builder has no target.
    /// With `insecure` the target's scheme becomes plain.
    pub fn into_dialer(self, mdns_authority: Option<String>) -> (r: Result<Dialer, DialError>)
        ensures
            match self.spec_uri() {
                None => r == Err::<Dialer, DialError>(DialError::NoUri),
                Some(t) => match r {
                    Ok(d) => {
                        &&& d.spec_phase() == DialPhase::Idle
                        &&& target_is(
                            d.spec_target(),
                            if self.spec_insecure() {
                                Scheme::Plain
                            } else {
                                t.scheme
                            },
                            t.authority@,
                        )
                        &&& d.spec_rpc_host() == amended_domain(t.authority@)
                        &&& d.spec_mdns() == opt_view(mdns_authority)
                        &&& d.spec_allow_downgrade() == self.spec_allow_downgrade()
                        &&& d.spec_credentials() == self.spec_credentials()
                        &&& d.spec_disable_webrtc() == self.spec_disable_webrtc()
                        &&& d.spec_disable_trickle_ice() == self.spec_disable_trickle_ice()
                    },
                    Err(_) => false,
                },
            },
    {
        let disable_webrtc = match &self.config.webrtc_options {
            Some(o) => o.disable_webrtc,
            None => false,
        };
        let disable_trickle_ice = match &self.config.webrtc_options {
            Some(o) => o.disable_trickle_ice,
            None => false,
        };
        let insecure = self.config.insecure;
        let allow_downgrade = self.config.allow_downgrade;
        let target = match self.config.uri {
            Some(t) => t,
            None => {
                return Err(DialError::NoUri);
            },
        };
        let rpc_host = amend_domain_if_local(target.authority.as_str()).to_string();
        let scheme = if insecure {
            Scheme::Plain
        } else {
            target.scheme
        };
        Ok(
            Dialer {
                target: Target { scheme, authority: target.authority },
                rpc_host,
                mdns_authority,
                allow_downgrade,
                credentials: self.config.credentials,
                disable_webrtc,
                disable_trickle_ice,
                phase: DialPhase::Idle,
            },
        )
    }
}

impl Dialer {
    pub closed spec fn spec_phase(&self) -> DialPhase {
        self.phase
    }

    pub closed spec fn spec_target(&self) -> Target {
        self.target
    }

    pub closed spec fn spec_rpc_host(&self) -> Seq<char> {
        self.rpc_host@
    }

    pub closed spec fn spec_mdns(&self) -> Option<Seq<char>> {
        opt_view(self.mdns_authority)
    }

    pub closed spec fn spec_allow_downgrade(&self) -> bool {
        self.allow_downgrade
    }

    pub closed spec fn spec_credentials(&self) -> Option<RPCCredentials> {
        self.credentials
    }

    pub closed spec fn spec_disable_webrtc(&self) -> bool {
        self.disable_webrtc
    }

    pub closed spec fn spec_disable_trickle_ice(&self) -> bool {
        self.disable_trickle_ice
    }

    /// The configuration of `d2` is that of `d1`.
    pub open spec fn same_config(d1: Dialer, d2: Dialer) -> bool {
        &&& d2.spec_target() == d1.spec_target()
        &&& d2.spec_rpc_host() == d1.spec_rpc_host()
        &&& d2.spec_mdns() == d1.spec_mdns()
        &&& d2.spec_allow_downgrade() == d1.spec_allow_downgrade()
        &&& d2.spec_credentials() == d1.spec_credentials()
        &&& d2.spec_disable_webrtc() == d1.spec_disable_webrtc()
        &&& d2.spec_disable_trickle_ice() == d1.spec_disable_trickle_ice()
    }

    /// The phase is one of those in which a transport is being opened.
    pub open spec fn connecting(p: DialPhase) -> bool {
        p == DialPhase::MdnsSecure || p == DialPhase::MdnsPlain || p == DialPhase::Primary || p
            == DialPhase::PrimaryPlain
    }

    /// The step after a transport opened, taken from `d` to `d2`: with
    /// credentials, authenticate as their entity or else as the authority;
    /// without, negotiate WebRTC unless it is disabled, which returns the
    /// direct transport.
    pub open spec fn transport_ready(d: Dialer, d2: Dialer, r: DialStep) -> bool {
        match d.spec_credentials() {
            Some(c) => {
                &&& d2.spec_phase() == DialPhase::Authenticating
                &&& match r {
                    DialStep::Authenticate { entity, credential_type, payload } => {
                        &&& entity@ == match c.spec_entity() {
                            Some(e) => e@,
                            None => d.spec_target().authority@,
                        }
                        &&& credential_type == c.spec_credentials().credential_type
                        &&& payload == c.spec_credentials().payload
                    },
                    _ => false,
                }
            },
            None => Self::webrtc_or_direct(d, d2, r),
        }
    }

    /// With WebRTC disabled the dial returns the direct transport; otherwise
    /// it negotiates WebRTC.
    pub open spec fn webrtc_or_direct(d: Dialer, d2: Dialer, r: DialStep) -> bool {
        if d.spec_disable_webrtc() {
            d2.spec_phase() == DialPhase::Finished && r is ReturnDirect
        } else {
            &&& d2.spec_phase() == DialPhase::Negotiating
            &&& r == DialStep::NegotiateWebRtc { disable_trickle_ice: d.spec_disable_trickle_ice() }
        }
    }

    pub fn phase(&self) -> (r: DialPhase)
        ensures
            r == self.spec_phase(),
    {
        self.phase
    }

    /// The `rpc-host` header for every request of this dial.
    pub fn rpc_host(&self) -> (r: &String)
        ensures
            r@ == self.spec_rpc_host(),
    {
        &self.rpc_host
    }

    fn out_of_order(&mut self) -> (r: DialStep)
        ensures
            Self::same_config(*old(self), *final(self)),
            final(self).spec_phase() == DialPhase::Finished,
            r == DialStep::Fail(DialError::OutOfOrder),
    {
        self.phase = DialPhase::Finished;
        DialStep::Fail(DialError::OutOfOrder)
    }

    fn primary(&mut self) -> (r: DialStep)
        ensures
            Self::same_config(*old(self), *final(self)),
            final(self).spec_phase() == DialPhase::Primary,
            is_connect(r, old(self).spec_target().scheme, old(self).spec_target().authority@, None),
    {
        self.phase = DialPhase::Primary;
        DialStep::Connect {
            target: Target { scheme: self.target.scheme, authority: self.target.authority.clone() },
            tls_domain: None,
        }
    }

    fn webrtc_or_direct_step(&mut self) -> (r: DialStep)
        ensures
            Self::same_config(*old(self), *final(self)),
            Self::webrtc_or_direct(*old(self), *final(self), r),
    {
        if self.disable_webrtc {
            self.phase = DialPhase::Finished;
            DialStep::ReturnDirect
        } else {
            self.phase = DialPhase::Negotiating;
            DialStep::NegotiateWebRtc { disable_trickle_ice: self.disable_trickle_ice }
        }
    }

    /// The first step: the mDNS address under TLS, named as the rpc host,
    /// when mDNS found one; the target otherwise.
    pub fn start(&mut self) -> (r: DialStep)
        ensures
            Self::same_config(*old(self), *final(self)),
            if old(self).spec_phase() != DialPhase::Idle {
                final(self).spec_phase() == DialPhase::Finished && r == DialStep::Fail(
                    DialError::OutOfOrder,
                )
            } else {
                match old(self).spec_mdns() {
                    Some(a) => final(self).spec_phase() == DialPhase::MdnsSecure && is_connect(
                        r,
                        Scheme::Plain,
                        a,
                        Some(old(self).spec_rpc_host()),
                    ),
                    None => final(self).spec_phase() == DialPhase::Primary && is_connect(
                        r,
                        old(self).spec_target().scheme,
                        old(self).spec_target().authority@,
                        None,
                    ),
                }
            },
    {
        if !matches!(self.phase, DialPhase::Idle) {
            return self.out_of_order();
        }
        match &self.mdns_authority {
            Some(a) => {
                let authority = a.clone();
                self.phase = DialPhase::MdnsSecure;
                DialStep::Connect {
                    target: Target { scheme: Scheme::Plain, authority },
                    tls_domain: Some(self.rpc_host.clone()),
                }
            },
            None => self.primary(),
        }
    }

    /// The transport opened.
    pub fn on_connected(&mut self) -> (r: DialStep)
        ensures
            Self::same_config(*old(self), *final(self)),
            if Self::connecting(old(self).spec_phase()) {
                Self::transport_ready(*old(self), *final(self), r)
            } else {
                final(self).spec_phase() == DialPhase::Finished && r == DialStep::Fail(
                    DialError::OutOfOrder,
                )
            },
    {
        if !matches!(
            self.phase,
            DialPhase::MdnsSecure | DialPhase::MdnsPlain | DialPhase::Primary | DialPhase::PrimaryPlain
        ) {
            return self.out_of_order();
        }
        match &self.credentials {
            Some(c) => {
                let entity = match &c.entity {
                    Some(e) => e.clone(),
                    None => self.target.authority.clone(),
                };
                let credential_type = c.credentials.credential_type.clone();
                let payload = c.credentials.payload.clone();
                self.phase = DialPhase::Authenticating;
                DialStep::Authenticate { entity, credential_type, payload }
            },
            None => self.webrtc_or_direct_step(),
        }
    }

    /// The transport did not open. A failed mDNS attempt is retried without
    /// TLS when downgrading is allowed, and then gives way to the target; the
    /// target is retried over a plain transport when downgrading is allowed;
    /// past that the dial fails.
    pub fn on_connect_failed(&mut self) -> (r: DialStep)
        ensures
            Self::same_config(*old(self), *final(self)),
            match old(self).spec_phase() {
                DialPhase::MdnsSecure => if old(self).spec_allow_downgrade() && old(
                    self,
                ).spec_mdns() is Some {
                    final(self).spec_phase() == DialPhase::MdnsPlain && is_connect(
                        r,
                        Scheme::Plain,
                        old(self).spec_mdns()->Some_0,
                        None,
                    )
                } else {
                    final(self).spec_phase() == DialPhase::Primary && is_connect(
                        r,
                        old(self).spec_target().scheme,
                        old(self).spec_target().authority@,
                        None,
                    )
                },
                DialPhase::MdnsPlain => final(self).spec_phase() == DialPhase::Primary && is_connect(
                    r,
                    old(self).spec_target().scheme,
                    old(self).spec_target().authority@,
                    None,
                ),
                DialPhase::Primary => if old(self).spec_allow_downgrade() {
                    final(self).spec_phase() == DialPhase::PrimaryPlain && is_connect(
                        r,
                        Scheme::Plain,
                        old(self).spec_target().authority@,
                        None,
                    )
                } else {
                    final(self).spec_phase() == DialPhase::Finished && r == DialStep::Fail(
                        DialError::Transport,
                    )
                },
                DialPhase::PrimaryPlain => final(self).spec_phase() == DialPhase::Finished && r
                    == DialStep::Fail(DialError::Transport),
                _ => final(self).spec_phase() == DialPhase::Finished && r == DialStep::Fail(
                    DialError::OutOfOrder,
                ),
            },
    {
        match self.phase {
            DialPhase::MdnsSecure => {
                if self.allow_downgrade {
                    match &self.mdns_authority {
                        Some(a) => {
                            let authority = a.clone();
                            self.phase = DialPhase::MdnsPlain;
                            DialStep::Connect {
                                target: Target { scheme: Scheme::Plain, authority },
                                tls_domain: None,
                            }
                        },
                        None => self.primary(),
                    }
                } else {
                    self.primary()
                }
            },
            DialPhase::MdnsPlain => self.primary(),
            DialPhase::Primary => {
                if self.allow_downgrade {
                    self.phase = DialPhase::PrimaryPlain;
                    DialStep::Connect {
                        target: Target { scheme: Scheme::Plain, authority: self.target.authority.clone() },
                        tls_domain: None,
                    }
                } else {
                    self.phase = DialPhase::Finished;
                    DialStep::Fail(DialError::Transport)
                }
            },
            DialPhase::PrimaryPlain => {
                self.phase = DialPhase::Finished;
                DialStep::Fail(DialError::Transport)
            },
            _ => self.out_of_order(),
        }
    }

    /// The outcome of the token exchange: on success the dial goes on to
    /// WebRTC, or returns the direct transport when WebRTC is disabled; on
    /// failure it fails.
    pub fn on_auth_result(&mut self, ok: bool) -> (r: DialStep)
        ensures
            Self::same_config(*old(self), *final(self)),
            if old(self).spec_phase() != DialPhase::Authenticating {
                final(self).spec_phase() == DialPhase::Finished && r == DialStep::Fail(
                    DialError::OutOfOrder,
                )
            } else if ok {
                Self::webrtc_or_direct(*old(self), *final(self), r)
            } else {
                final(self).spec_phase() == DialPhase::Finished && r == DialStep::Fail(
                    DialError::Auth,
                )
            },
    {
        if !matches!(self.phase, DialPhase::Authenticating) {
            return self.out_of_order();
        }
        if ok {
            self.webrtc_or_direct_step()
        } else {
            self.phase = DialPhase::Finished;
            DialStep::Fail(DialError::Auth)
        }
    }

    /// The outcome of the WebRTC negotiation: its channel on success, the
    /// direct transport on failure.
    pub fn on_webrtc_result(&mut self, ok: bool) -> (r: DialStep)
        ensures
            Self::same_config(*old(self), *final(self)),
            final(self).spec_phase() == DialPhase::Finished,
            if old(self).spec_phase() != DialPhase::Negotiating {
                r == DialStep::Fail(DialError::OutOfOrder)
            } else if ok {
                r is ReturnWebRtc
            } else {
                r is ReturnDirect
            },
    {
        if !matches!(self.phase, DialPhase::Negotiating) {
            return self.out_of_order();
        }
        self.phase = DialPhase::Finished;
        if ok {
            DialStep::ReturnWebRtc
        } else {
            DialStep::ReturnDirect
        }
    }
}

} // verus!
