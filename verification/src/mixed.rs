//! A listener that takes SOCKS5, HTTP proxy requests and redirected
//! connections on one port.

use std::sync::Arc;
use vstd::prelude::*;
use vstd::slice::*;
use vstd::utf8::*;

use crate::accept::AcceptLoop;
use crate::addr::SocketAddr;
use crate::request_line::is_http_proxy_request;
use crate::session::ListenerKind;

verus! {

/// Default cap on in-flight inbound connections per listener.
/// `0` means no cap: the listener accepts as many concurrent connections as
/// the system can hold. A positive value back-pressures the TCP listen queue
/// and bounds memory under burst load.
pub const DEFAULT_MAX_CONNECTIONS: usize = 0;

/// How many bytes of a new connection are looked at, without taking them, to
/// tell its protocol: enough for a request line with a long target.
pub const PEEK_LEN: usize = 8192;

/// The first byte of a SOCKS5 greeting.
pub const SOCKS5_VERSION: u8 = 0x05;

/// A sniffer for host names, with the switch that turns it on.
#[derive(Debug)]
pub struct SnifferRuntime<S> {
    pub enabled: bool,
    pub engine: S,
}

impl<S> SnifferRuntime<S> {
    pub fn is_enabled(&self) -> (r: bool)
        ensures
            r == self.enabled,
    {
        self.enabled
    }
}

/// A user that may use a listener.
#[derive(Debug)]
pub struct Credential {
    pub username: String,
    pub password: String,
}

/// Who may use a listener.
#[derive(Debug)]
pub struct AuthConfig {
    pub credentials: Vec<Credential>,
}

/// The mixed listener: `T` is the tunnel that its connections go through, `S`
/// the sniffer's engine.
pub struct MixedListener<T, S> {
    pub tunnel: T,
    pub listen_addr: SocketAddr,
    pub sniffer: Option<Arc<SnifferRuntime<S>>>,
    pub name: String,
    pub auth: Option<Arc<AuthConfig>>,
    pub max_connections: usize,
}

impl<T, S> MixedListener<T, S> {
    pub fn new(tunnel: T, listen_addr: SocketAddr, name: String) -> (listener: Self)
        ensures
            listener.max_connections == 0,
            listener == (MixedListener::<T, S> {
                tunnel,
                listen_addr,
                sniffer: None,
                name,
                auth: None,
                max_connections: DEFAULT_MAX_CONNECTIONS,
            }),
    {
        MixedListener {
            tunnel,
            listen_addr,
            sniffer: None,
            name,
            auth: None,
            max_connections: DEFAULT_MAX_CONNECTIONS,
        }
    }

    /// Override the cap on in-flight inbound connections (default
    /// [`DEFAULT_MAX_CONNECTIONS`]). `0` disables the cap.
    pub fn with_max_connections(self, max: usize) -> (listener: Self)
        ensures
            listener == (MixedListener { max_connections: max, ..self }),
    {
        MixedListener { max_connections: max, ..self }
    }

    /// A sniffer that is switched off is not taken on.
    pub fn with_sniffer(self, sniffer: Arc<SnifferRuntime<S>>) -> (listener: Self)
        ensures
            sniffer.enabled ==> listener == (MixedListener { sniffer: Some(sniffer), ..self }),
            !sniffer.enabled ==> listener == self,
    {
        if sniffer.is_enabled() {
            MixedListener { sniffer: Some(sniffer), ..self }
        } else {
            self
        }
    }

    /// An authentication without any user is not taken on.
    pub fn with_auth(self, auth: Arc<AuthConfig>) -> (listener: Self)
        ensures
            auth.credentials@.len() > 0 ==> listener == (MixedListener { auth: Some(auth), ..self }),
            auth.credentials@.len() == 0 ==> listener == self,
    {
        if auth.credentials.len() > 0 {
            MixedListener { auth: Some(auth), ..self }
        } else {
            self
        }
    }

    /// The loop that accepts this listener's connections.
    pub fn accept_loop(&self) -> (r: AcceptLoop)
        ensures
            r == AcceptLoop::spec_start(ListenerKind::Mixed, self.max_connections),
            r.kind == ListenerKind::Mixed,
            r.max_connections == self.max_connections,
            r.phase == crate::accept::LoopPhase::Bind,
    {
        AcceptLoop::start(ListenerKind::Mixed, self.max_connections)
    }
}

/// The protocols that the mixed listener tells apart.
#[derive(Debug, Clone, Copy, PartialEq, Eq, Structural)]
pub enum Protocol {
    Socks5,
    /// HTTP proxy (`CONNECT` or `GET http://host/path`).
    HttpProxy,
    /// Anything else: TLS, bare HTTP, or other TCP that was redirected here.
    Transparent,
}

/// The protocol of a connection that starts with these bytes; none where the
/// client sent nothing.
pub open spec fn protocol_of(peek: Seq<u8>) -> Option<Protocol> {
    if peek.len() == 0 {
        None
    } else if peek[0] == SOCKS5_VERSION {
        Some(Protocol::Socks5)
    } else if crate::request_line::is_request(peek) {
        Some(Protocol::HttpProxy)
    } else {
        Some(Protocol::Transparent)
    }
}

/// Tells the protocol of a connection from its first bytes.
pub fn detect_protocol(peek: &[u8]) -> (protocol: Option<Protocol>)
    ensures
        protocol == protocol_of(peek@),
        protocol is None <==> peek@.len() == 0,
        protocol == Some(Protocol::Socks5) <==> peek@.len() > 0 && peek@[0] == 0x05,
        peek@.len() > 0 && peek@[0] != SOCKS5_VERSION ==> (protocol == Some(Protocol::HttpProxy)
            <==> crate::request_line::is_proxy_request(crate::request_line::lossy_text(peek@))),
{
    if peek.len() == 0 {
        None
    } else if peek[0] == SOCKS5_VERSION {
        Some(Protocol::Socks5)
    } else if is_http_proxy_request(peek) {
        Some(Protocol::HttpProxy)
    } else {
        Some(Protocol::Transparent)
    }
}

/// The part of the waiting bytes that is looked at.
pub open spec fn looked_at(waiting: Seq<u8>) -> Seq<u8> {
    if waiting.len() <= PEEK_LEN {
        waiting
    } else {
        waiting.take(PEEK_LEN as int)
    }
}

/// Tells the protocol of a connection from the bytes that wait on it, of which
/// it looks at the first [`PEEK_LEN`].
///
/// `CONNECT` and requests for an absolute URI go to the HTTP proxy handler.
pub fn detect_waiting(waiting: &[u8]) -> (p: Option<Protocol>)
    ensures
        p == protocol_of(looked_at(waiting@)),
        p is None <==> waiting@.len() == 0,
        p == Some(Protocol::Socks5) <==> waiting@.len() > 0 && waiting@[0] == 0x05,
        waiting@.len() <= 8192 ==> p == protocol_of(waiting@),
{
    if waiting.len() <= PEEK_LEN {
        detect_protocol(waiting)
    } else {
        let peek = slice_subrange(waiting, 0, PEEK_LEN);
        assert(peek@ =~= waiting@.take(PEEK_LEN as int));
        detect_protocol(peek)
    }
}

/// A client whose first line is a `CONNECT` request, or a request for an
/// absolute `http` or `https` URI, is an HTTP proxy client, as long as the line
/// fits in the bytes that are looked at. Whatever follows the line does not
/// matter.
pub proof fn lemma_request_is_http(
    method: Seq<char>,
    target: Seq<char>,
    version: Seq<char>,
    tail: Seq<u8>,
)
    requires
        crate::request_line::is_word(method),
        crate::request_line::is_word(target),
        crate::request_line::is_word(version),
        crate::request_line::is_method(method),
        method == "CONNECT"@ || crate::request_line::has_prefix(target, "http://"@)
            || crate::request_line::has_prefix(target, "https://"@),
        crate::request_line::ends_line_bytes(tail),
        encode_utf8(crate::request_line::request_line(method, target, version)).len() <= 8192,
    ensures
        protocol_of(
            looked_at(
                encode_utf8(crate::request_line::request_line(method, target, version)) + tail,
            ),
        ) == Some(Protocol::HttpProxy),
{
    let line = crate::request_line::request_line(method, target, version);
    let head = encode_utf8(line);
    let waiting = head + tail;
    let peek = looked_at(waiting);
    let seen = if waiting.len() <= PEEK_LEN {
        tail
    } else {
        tail.take(PEEK_LEN - head.len())
    };
    assert(peek =~= head + seen);
    assert(crate::request_line::ends_line_bytes(seen));
    crate::request_line::lemma_request_line_bytes(method, target, version, seen);
    let first = line[0] as u32;
    assert(line[0] == method[0]);
    assert(first <= 0x7f ==> (first & 0x7f) as u8 == first) by (bit_vector);
    assert(encode_scalar(first) == seq![first as u8]);
    assert(head[0] == first);
    assert(peek[0] == head[0]);
}

/// The protocols are told apart by what the bytes are, however many there are:
/// none where there are none; SOCKS5 exactly if the first byte is 5, whatever
/// follows; of the rest HTTP exactly if the first line is a proxy request; and
/// transparent otherwise.
pub proof fn lemma_protocols(peek: Seq<u8>)
    ensures
        protocol_of(peek) is None <==> peek.len() == 0,
        protocol_of(peek) == Some(Protocol::Socks5) <==> peek.len() > 0 && peek[0] == 0x05,
        protocol_of(peek) == Some(Protocol::HttpProxy) <==> peek.len() > 0 && peek[0] != 0x05
            && crate::request_line::is_request(peek),
        protocol_of(peek) == Some(Protocol::Transparent) <==> peek.len() > 0 && peek[0] != 0x05
            && !crate::request_line::is_request(peek),
{
}

/// A SOCKS5 client is told by its first byte alone: whatever else waits, and
/// however much of it, changes nothing; and no other client is taken for one.
pub proof fn lemma_socks5_first_byte(first: u8, rest: Seq<u8>)
    ensures
        protocol_of(looked_at(seq![first] + rest)) == Some(Protocol::Socks5) <==> first == 5,
{
    let waiting = seq![first] + rest;
    assert(looked_at(waiting)[0] == waiting[0]);
}

/// What is looked at is the start of what waits: all of it up to 8192 bytes, and
/// the first 8192 of more.
pub proof fn lemma_looked_at(waiting: Seq<u8>)
    ensures
        looked_at(waiting).len() == (if waiting.len() <= 8192 {
            waiting.len()
        } else {
            8192
        }),
        forall|i: int|
            0 <= i < looked_at(waiting).len() ==> #[trigger] looked_at(waiting)[i] == waiting[i],
{
}

/// Of clients that are not SOCKS5 only the first line counts: two that agree on
/// it are told to be the same, whatever comes after it.
pub proof fn lemma_line_tells(line: Seq<u8>, a: Seq<u8>, b: Seq<u8>)
    requires
        line.len() > 0,
    ensures
        protocol_of(line + seq![0x0au8] + a) == protocol_of(line + seq![0x0au8] + b),
        protocol_of(line + seq![0x0au8] + a) == protocol_of(line),
{
    crate::request_line::lemma_first_line_decides(line, a);
    crate::request_line::lemma_first_line_decides(line, b);
    assert((line + seq![0x0au8] + a)[0] == line[0]);
    assert((line + seq![0x0au8] + b)[0] == line[0]);
}

/// A listener is what it was built with: the cap that was set, the sniffer
/// exactly if it is switched on, the authentication exactly if it has a user, and
/// tunnel, address and name unchanged.
pub proof fn lemma_built<T, S>(
    tunnel: T,
    listen_addr: SocketAddr,
    name: String,
    max: usize,
    sniffer: Arc<SnifferRuntime<S>>,
    auth: Arc<AuthConfig>,
    plain: MixedListener<T, S>,
    capped: MixedListener<T, S>,
    sniffing: MixedListener<T, S>,
    guarded: MixedListener<T, S>,
)
    requires
        call_ensures(MixedListener::<T, S>::new, (tunnel, listen_addr, name), plain),
        call_ensures(MixedListener::<T, S>::with_max_connections, (plain, max), capped),
        call_ensures(MixedListener::<T, S>::with_sniffer, (capped, sniffer), sniffing),
        call_ensures(MixedListener::<T, S>::with_auth, (sniffing, auth), guarded),
    ensures
        plain.max_connections == 0,
        plain.sniffer is None,
        plain.auth is None,
        guarded.tunnel == tunnel,
        guarded.listen_addr == listen_addr,
        guarded.name == name,
        guarded.max_connections == max,
        guarded.sniffer == (if sniffer.enabled {
            Some(sniffer)
        } else {
            None
        }),
        guarded.auth == (if auth.credentials@.len() > 0 {
            Some(auth)
        } else {
            None
        }),
{
}

} // verus!
