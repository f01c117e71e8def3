//! A connection that was redirected to the proxy without the client's
//! knowledge: its original destination is recovered, its host name is found,
//! and it is relayed through the proxy that the rules choose.
//!
//! A [`Session`] holds what has been decided so far. The caller performs the
//! [`Action`] it asks for and hands back the [`Event`] that came of it.

use vstd::prelude::*;

use crate::addr::{IpAddr, SocketAddr};
use crate::metadata::{ConnType, Metadata, Network};

verus! {

/// The listener that accepted the connection.
#[derive(Debug, Clone, Copy, PartialEq, Eq, Structural)]
pub enum ListenerKind {
    Mixed,
    Redir,
}

/// What the session waits for.
#[derive(Debug, Clone, Copy, PartialEq, Eq, Structural)]
pub enum Phase {
    /// The original destination.
    Recover,
    /// What the sniffer finds in the first bytes.
    Sniff,
    /// The name that the resolver has for the destination's address.
    Lookup,
    /// The rules' choice of a proxy.
    Resolve,
    /// A connection through that proxy.
    Dial,
    /// The end of the relay.
    Relay,
    /// Nothing more.
    Closed,
}

/// How many bytes a relay carried each way.
#[derive(Debug, Clone, Copy, PartialEq, Eq, Structural)]
pub struct Traffic {
    pub up: u64,
    pub down: u64,
}

/// The proxy that the rules chose, by name, and the rule that chose it.
#[derive(Debug)]
pub struct Route {
    pub proxy: String,
    pub rule_name: String,
    pub rule_payload: String,
}

/// Under what a dialled connection is tracked.
#[derive(Debug)]
pub struct Tracking {
    pub rule_name: String,
    pub rule_payload: String,
    /// The names of the proxies that the connection goes through.
    pub chain: Vec<String>,
}

/// What a [`Tracking`] says.
#[verifier::ext_equal]
pub struct TrackingModel {
    pub rule_name: Seq<char>,
    pub rule_payload: Seq<char>,
    pub chain: Seq<Seq<char>>,
}

impl View for Route {
    type V = TrackingModel;

    /// A connection along this route goes through the one proxy.
    open spec fn view(&self) -> TrackingModel {
        TrackingModel {
            rule_name: self.rule_name@,
            rule_payload: self.rule_payload@,
            chain: seq![self.proxy@],
        }
    }
}

impl View for Tracking {
    type V = TrackingModel;

    open spec fn view(&self) -> TrackingModel {
        TrackingModel {
            rule_name: self.rule_name@,
            rule_payload: self.rule_payload@,
            chain: self.chain@.map_values(|name: String| name@),
        }
    }
}

/// What came of an action.
pub enum Event {
    /// The original destination, or `None` where it could not be recovered.
    OriginalDst(Option<SocketAddr>),
    /// The connection's metadata as the sniffer left it.
    Sniffed(Metadata),
    /// The name that belongs to the address, if one is known.
    LookedUp(Option<String>),
    /// The rules' choice, or `None` where no rule matched.
    Resolved(Option<Route>),
    /// Whether the proxy could be dialled.
    Dialed(bool),
    /// What the relay carried, or `None` where the relay failed.
    Relayed(Option<Traffic>),
}

/// Why a session ended before anything was relayed.
#[derive(Debug, Clone, Copy, PartialEq, Eq, Structural)]
pub enum Refusal {
    /// The original destination could not be recovered.
    NoOriginalDst,
    /// The client addressed the listener itself.
    OwnAddress,
    /// No rule matched.
    NoRule,
    /// The proxy could not be dialled.
    DialFailed,
}

/// What the caller is to do next.
#[derive(Debug, Clone, Copy, PartialEq, Eq, Structural)]
pub enum Action {
    /// Sniff the first bytes and let the sniffer edit the metadata.
    Sniff,
    /// Look up the name that belongs to this address.
    ReverseLookup(IpAddr),
    /// Let the rules choose a proxy for the metadata.
    Resolve,
    /// Track the connection and dial the chosen proxy.
    Dial,
    /// Copy bytes both ways until one side ends.
    Relay,
    /// Close the connection.
    Close(Refusal),
    /// The relay is over; add this traffic to the connection's record, if any.
    Finish(Option<Traffic>),
}

/// What an [`Event`] says.
pub enum EventModel {
    OriginalDst(Option<SocketAddr>),
    Sniffed(crate::metadata::Facts),
    LookedUp(Option<Seq<char>>),
    Resolved(Option<TrackingModel>),
    Dialed(bool),
    Relayed(Option<Traffic>),
}

impl View for Event {
    type V = EventModel;

    open spec fn view(&self) -> EventModel {
        match *self {
            Event::OriginalDst(dst) => EventModel::OriginalDst(dst),
            Event::Sniffed(metadata) => EventModel::Sniffed(metadata@),
            Event::LookedUp(Some(name)) => EventModel::LookedUp(Some(name@)),
            Event::LookedUp(None) => EventModel::LookedUp(None),
            Event::Resolved(Some(route)) => EventModel::Resolved(Some(route@)),
            Event::Resolved(None) => EventModel::Resolved(None),
            Event::Dialed(connected) => EventModel::Dialed(connected),
            Event::Relayed(traffic) => EventModel::Relayed(traffic),
        }
    }
}

/// What a [`Session`] holds.
#[verifier::ext_equal]
pub struct SessionModel {
    pub kind: ListenerKind,
    /// The address that the client's connection arrived at.
    pub listen_addr: SocketAddr,
    /// Whether a sniffer is to be asked.
    pub sniffing: bool,
    pub phase: Phase,
    /// The original destination, once it is known.
    pub orig_dst: Option<SocketAddr>,
    pub facts: crate::metadata::Facts,
    /// Under what the connection is tracked, once a rule matched.
    pub tracking: Option<TrackingModel>,
}

/// The facts of a redirected connection before its destination is known.
pub open spec fn inbound_facts(
    src_addr: SocketAddr,
    name: Seq<char>,
    in_port: u16,
) -> crate::metadata::Facts {
    crate::metadata::Facts {
        network: Network::Tcp,
        conn_type: ConnType::TProxy,
        src_ip: Some(src_addr.spec_ip()),
        src_port: src_addr.spec_port(),
        dst_ip: None,
        dst_port: 0,
        host: Seq::empty(),
        sniff_host: Seq::empty(),
        in_name: name,
        in_port,
    }
}

/// The same facts with the destination.
pub open spec fn with_dst(
    facts: crate::metadata::Facts,
    dst: SocketAddr,
) -> crate::metadata::Facts {
    crate::metadata::Facts { dst_ip: Some(dst.spec_ip()), dst_port: dst.spec_port(), ..facts }
}

/// The same facts with the destination's name.
pub open spec fn with_host(
    facts: crate::metadata::Facts,
    host: Seq<char>,
) -> crate::metadata::Facts {
    crate::metadata::Facts { host, ..facts }
}

impl SessionModel {
    /// A session that waits for the original destination.
    pub open spec fn start(
        kind: ListenerKind,
        listen_addr: SocketAddr,
        sniffing: bool,
        facts: crate::metadata::Facts,
    ) -> SessionModel {
        SessionModel {
            kind,
            listen_addr,
            sniffing,
            phase: Phase::Recover,
            orig_dst: None,
            facts,
            tracking: None,
        }
    }

    /// Past the first phase of an open session the destination is known, and it
    /// is not the listener itself. Without a sniffer the metadata holds that
    /// destination. Once the host is settled, a sniffed name is the host. A
    /// connection is tracked when it is dialled or relayed, and not before a rule
    /// matched.
    pub open spec fn wf(self) -> bool {
        &&& self.phase == Phase::Recover ==> {
            &&& self.orig_dst is None
            &&& self.facts.sniff_host.len() == 0
        }
        &&& self.phase != Phase::Recover && self.phase != Phase::Closed ==> {
            &&& self.orig_dst is Some
            &&& self.orig_dst != Some(self.listen_addr)
        }
        &&& self.phase == Phase::Sniff ==> self.sniffing
        &&& !self.sniffing && self.orig_dst is Some ==> {
            &&& self.facts == with_dst(self.facts, self.orig_dst->0)
            &&& self.facts.sniff_host.len() == 0
        }
        &&& self.phase == Phase::Lookup ==> self.facts.sniff_host.len() == 0
        &&& (self.phase == Phase::Resolve || self.phase == Phase::Dial || self.phase
            == Phase::Relay) && self.facts.sniff_host.len() > 0 ==> self.facts.host
            == self.facts.sniff_host
        &&& self.phase == Phase::Dial || self.phase == Phase::Relay ==> self.tracking is Some
        &&& self.phase.rank() <= Phase::Resolve.rank() ==> self.tracking is None
    }

    /// The events that can come of the action last asked for.
    pub open spec fn expects(self, event: EventModel) -> bool {
        match event {
            EventModel::OriginalDst(_) => self.phase == Phase::Recover,
            EventModel::Sniffed(_) => self.phase == Phase::Sniff,
            EventModel::LookedUp(_) => self.phase == Phase::Lookup,
            EventModel::Resolved(_) => self.phase == Phase::Resolve,
            EventModel::Dialed(_) => self.phase == Phase::Dial,
            EventModel::Relayed(_) => self.phase == Phase::Relay,
        }
    }

    /// The session ends.
    pub open spec fn close(self, reason: Refusal) -> (SessionModel, Action) {
        (SessionModel { phase: Phase::Closed, ..self }, Action::Close(reason))
    }

    /// A sniffed name is the host; without one the resolver is asked for the
    /// name of the original destination's address.
    pub open spec fn find_host(self) -> (SessionModel, Action) {
        if self.facts.sniff_host.len() > 0 {
            self.settle_host(self.facts.sniff_host)
        } else {
            (
                SessionModel { phase: Phase::Lookup, ..self },
                Action::ReverseLookup((self.orig_dst->0).spec_ip()),
            )
        }
    }

    /// The host is known, or known to be unknown: the rules are asked.
    pub open spec fn settle_host(self, host: Seq<char>) -> (SessionModel, Action) {
        (
            SessionModel { phase: Phase::Resolve, facts: with_host(self.facts, host), ..self },
            Action::Resolve,
        )
    }

    /// The next state and the next action.
    pub open spec fn step(self, event: EventModel) -> (SessionModel, Action) {
        match event {
            EventModel::OriginalDst(None) => self.close(Refusal::NoOriginalDst),
            EventModel::OriginalDst(Some(dst)) => if dst == self.listen_addr {
                self.close(Refusal::OwnAddress)
            } else {
                let known = SessionModel {
                    orig_dst: Some(dst),
                    facts: with_dst(self.facts, dst),
                    ..self
                };
                if self.sniffing {
                    (SessionModel { phase: Phase::Sniff, ..known }, Action::Sniff)
                } else {
                    known.find_host()
                }
            },
            EventModel::Sniffed(facts) => (SessionModel { facts, ..self }).find_host(),
            EventModel::LookedUp(Some(name)) => self.settle_host(name),
            EventModel::LookedUp(None) => self.settle_host(Seq::empty()),
            EventModel::Resolved(Some(tracking)) => (
                SessionModel { phase: Phase::Dial, tracking: Some(tracking), ..self },
                Action::Dial,
            ),
            EventModel::Resolved(None) => self.close(Refusal::NoRule),
            EventModel::Dialed(connected) => if connected {
                (SessionModel { phase: Phase::Relay, ..self }, Action::Relay)
            } else {
                self.close(Refusal::DialFailed)
            },
            EventModel::Relayed(traffic) => (
                SessionModel { phase: Phase::Closed, ..self },
                Action::Finish(
                    match (self.kind, traffic) {
                        (ListenerKind::Mixed, _) => None,
                        (ListenerKind::Redir, Some(counts)) => Some(counts),
                        (ListenerKind::Redir, None) => Some(Traffic { up: 0, down: 0 }),
                    },
                ),
            ),
        }
    }
}

impl Phase {
    /// The order in which a session passes its phases.
    pub open spec fn rank(self) -> nat {
        match self {
            Phase::Recover => 0,
            Phase::Sniff => 1,
            Phase::Lookup => 2,
            Phase::Resolve => 3,
            Phase::Dial => 4,
            Phase::Relay => 5,
            Phase::Closed => 6,
        }
    }
}

impl SessionModel {
    /// The state after a series of events.
    pub open spec fn run(self, events: Seq<EventModel>) -> SessionModel
        decreases events.len(),
    {
        if events.len() == 0 {
            self
        } else {
            self.run(events.drop_last()).step(events.last()).0
        }
    }

    /// Each event of the series can come of the action that was asked for.
    pub open spec fn in_order(self, events: Seq<EventModel>) -> bool
        decreases events.len(),
    {
        events.len() > 0 ==> {
            &&& self.in_order(events.drop_last())
            &&& self.run(events.drop_last()).expects(events.last())
        }
    }
}

/// A step keeps a session well-formed, keeps what the listener fixed, and leads
/// to a later phase.
pub proof fn lemma_step(session: SessionModel, event: EventModel)
    requires
        session.wf(),
        session.expects(event),
    ensures
        session.step(event).0.wf(),
        session.step(event).0.phase.rank() > session.phase.rank(),
        session.step(event).0.kind == session.kind,
        session.step(event).0.listen_addr == session.listen_addr,
        session.step(event).0.sniffing == session.sniffing,
        session.orig_dst is Some ==> session.step(event).0.orig_dst == session.orig_dst,
{
}

/// Every session ends after at most six events. Until then it waits for a
/// destination that is known and is not the listener's own address. A sniffed
/// name is the host that the rules see and that is dialled. Without a sniffer
/// the metadata is what the listener knew, with the destination and the host
/// added.
pub proof fn lemma_run(
    kind: ListenerKind,
    listen_addr: SocketAddr,
    sniffing: bool,
    src_addr: SocketAddr,
    name: Seq<char>,
    in_port: u16,
    events: Seq<EventModel>,
)
    requires
        SessionModel::start(
            kind,
            listen_addr,
            sniffing,
            inbound_facts(src_addr, name, in_port),
        ).in_order(events),
    ensures
        ({
            let inbound = inbound_facts(src_addr, name, in_port);
            let session = SessionModel::start(kind, listen_addr, sniffing, inbound).run(events);
            &&& events.len() <= session.phase.rank() <= 6
            &&& session.wf()
            &&& session.kind == kind
            &&& session.listen_addr == listen_addr
            &&& session.sniffing == sniffing
            &&& session.orig_dst is None ==> session.facts == inbound
            &&& session.orig_dst matches Some(dst) ==> {
                &&& events[0] == EventModel::OriginalDst(Some(dst))
                &&& dst != listen_addr
                &&& !sniffing ==> session.facts == with_host(
                    with_dst(inbound, dst),
                    session.facts.host,
                )
            }
        }),
    decreases events.len(),
{
    let inbound = inbound_facts(src_addr, name, in_port);
    let start = SessionModel::start(kind, listen_addr, sniffing, inbound);
    if events.len() > 0 {
        let init = events.drop_last();
        lemma_run(kind, listen_addr, sniffing, src_addr, name, in_port, init);
        lemma_step(start.run(init), events.last());
        if init.len() > 0 {
            assert(init[0] == events[0]);
        }
    }
}

/// The two kinds of session act alike: for the same client, listener and events
/// they reach the same phase, destination, metadata and tracking, and wait for
/// the same events. Only what they do with the traffic of a relay differs.
pub proof fn lemma_kinds_alike(
    listen_addr: SocketAddr,
    sniffing: bool,
    facts: crate::metadata::Facts,
    events: Seq<EventModel>,
)
    ensures
        ({
            let mixed = SessionModel::start(ListenerKind::Mixed, listen_addr, sniffing, facts);
            let redir = SessionModel::start(ListenerKind::Redir, listen_addr, sniffing, facts);
            &&& redir.run(events) == (SessionModel {
                kind: ListenerKind::Redir,
                ..mixed.run(events)
            })
            &&& mixed.run(events).kind == ListenerKind::Mixed
            &&& mixed.in_order(events) == redir.in_order(events)
            &&& forall|event: EventModel|
                !(event is Relayed) ==> (#[trigger] mixed.run(events).step(event)).1 == redir.run(
                    events,
                ).step(event).1
        }),
    decreases events.len(),
{
    if events.len() > 0 {
        lemma_kinds_alike(listen_addr, sniffing, facts, events.drop_last());
    }
}

/// A session whose destination is unknown, or is the listener itself, is closed
/// at once, and no event follows.
pub proof fn lemma_refused(session: SessionModel, dst: Option<SocketAddr>, event: EventModel)
    requires
        session.phase == Phase::Recover,
        dst is None || dst == Some(session.listen_addr),
    ensures
        session.step(EventModel::OriginalDst(dst)).1 is Close,
        !session.step(EventModel::OriginalDst(dst)).0.expects(event),
{
}

/// Without a sniffer, a connection to another address for which a rule is found
/// is dialled under the name that the resolver has for the address, or under no
/// name, and is tracked under that rule.
pub proof fn lemma_dial(
    session: SessionModel,
    dst: SocketAddr,
    name: Option<Seq<char>>,
    route: TrackingModel,
)
    requires
        session.wf(),
        session.phase == Phase::Recover,
        !session.sniffing,
        dst != session.listen_addr,
    ensures
        ({
            let asked = session.step(EventModel::OriginalDst(Some(dst)));
            let named = asked.0.step(EventModel::LookedUp(name));
            let ready = named.0.step(EventModel::Resolved(Some(route)));
            &&& asked.1 == Action::ReverseLookup(dst.spec_ip())
            &&& named.1 == Action::Resolve
            &&& ready.1 == Action::Dial
            &&& ready.0.tracking == Some(route)
            &&& ready.0.facts == with_host(
                with_dst(session.facts, dst),
                match name {
                    Some(name) => name,
                    None => Seq::empty(),
                },
            )
        }),
{
}

/// With a sniffer, the connection is dialled with the metadata that the sniffer
/// left and under the name that it found; where it found none, under the name
/// that the resolver has for the original destination, or under no name. It is
/// tracked under the rule that was found.
pub proof fn lemma_sniffed_dial(
    session: SessionModel,
    dst: SocketAddr,
    sniffed: crate::metadata::Facts,
    name: Option<Seq<char>>,
    route: TrackingModel,
)
    requires
        session.wf(),
        session.phase == Phase::Recover,
        session.sniffing,
        dst != session.listen_addr,
    ensures
        ({
            let asked = session.step(EventModel::OriginalDst(Some(dst)));
            let found = asked.0.step(EventModel::Sniffed(sniffed));
            let named = if sniffed.sniff_host.len() > 0 {
                found
            } else {
                found.0.step(EventModel::LookedUp(name))
            };
            let ready = named.0.step(EventModel::Resolved(Some(route)));
            &&& asked.1 == Action::Sniff
            &&& asked.0.facts == with_dst(session.facts, dst)
            &&& sniffed.sniff_host.len() == 0 ==> found.1 == Action::ReverseLookup(dst.spec_ip())
            &&& named.1 == Action::Resolve
            &&& ready.1 == Action::Dial
            &&& ready.0.tracking == Some(route)
            &&& ready.0.facts == with_host(
                sniffed,
                if sniffed.sniff_host.len() > 0 {
                    sniffed.sniff_host
                } else {
                    match name {
                        Some(name) => name,
                        None => Seq::empty(),
                    }
                },
            )
        }),
{
}

/// A redirected connection on its way through the proxy.
pub struct Session {
    kind: ListenerKind,
    listen_addr: SocketAddr,
    sniffing: bool,
    phase: Phase,
    orig_dst: Option<SocketAddr>,
    metadata: Metadata,
    tracking: Option<Tracking>,
}

impl View for Session {
    type V = SessionModel;

    closed spec fn view(&self) -> SessionModel {
        SessionModel {
            kind: self.kind,
            listen_addr: self.listen_addr,
            sniffing: self.sniffing,
            phase: self.phase,
            orig_dst: self.orig_dst,
            facts: self.metadata@,
            tracking: match self.tracking {
                Some(tracking) => Some(tracking@),
                None => None,
            },
        }
    }
}

impl Session {
    fn start(
        kind: ListenerKind,
        src_addr: SocketAddr,
        listen_addr: SocketAddr,
        name: String,
        in_port: u16,
        sniffing: bool,
    ) -> (session: Session)
        ensures
            session@ == SessionModel::start(
                kind,
                listen_addr,
                sniffing,
                inbound_facts(src_addr, name@, in_port),
            ),
    {
        let metadata = Metadata {
            network: Network::Tcp,
            conn_type: ConnType::TProxy,
            src_ip: Some(src_addr.ip()),
            src_port: src_addr.port(),
            dst_ip: None,
            dst_port: 0,
            host: String::new(),
            sniff_host: String::new(),
            in_name: name,
            in_port,
        };
        Session {
            kind,
            listen_addr,
            sniffing,
            phase: Phase::Recover,
            orig_dst: None,
            metadata,
            tracking: None,
        }
    }

    /// A transparent connection on a mixed listener. Where the local address of
    /// the connection is not known, `0.0.0.0` with the listener's port stands
    /// for it.
    pub fn transparent(
        src_addr: SocketAddr,
        local_addr: Option<SocketAddr>,
        name: String,
        in_port: u16,
        sniffing: bool,
    ) -> (session: Session)
        ensures
            session@ == SessionModel::start(
                ListenerKind::Mixed,
                match local_addr {
                    Some(addr) => addr,
                    None => SocketAddr::spec_any(in_port),
                },
                sniffing,
                inbound_facts(src_addr, name@, in_port),
            ),
            session@.wf(),
            local_addr matches Some(addr) ==> session@.listen_addr == addr,
            local_addr is None ==> session@.listen_addr == (SocketAddr::V4 {
                ipv4: 0,
                port: in_port,
            }),
            session@.facts.in_port == in_port,
            session@.facts.in_name == name@,
            session@.sniffing == sniffing,
    {
        let listen_addr: SocketAddr = match local_addr {
            Some(addr) => addr,
            None => SocketAddr::any(in_port),
        };
        Session::start(ListenerKind::Mixed, src_addr, listen_addr, name, in_port, sniffing)
    }

    /// A connection on a redirect listener.
    pub fn redir(
        src_addr: SocketAddr,
        listen_addr: SocketAddr,
        name: String,
        sniffing: bool,
    ) -> (session: Session)
        ensures
            session@ == SessionModel::start(
                ListenerKind::Redir,
                listen_addr,
                sniffing,
                inbound_facts(src_addr, name@, listen_addr.spec_port()),
            ),
            session@.wf(),
            session@.listen_addr == listen_addr,
            session@.facts.in_port == (match listen_addr {
                SocketAddr::V4 { port, .. } => port,
                SocketAddr::V6 { port, .. } => port,
            }),
            session@.facts.in_name == name@,
            session@.sniffing == sniffing,
    {
        let in_port: u16 = listen_addr.port();
        Session::start(ListenerKind::Redir, src_addr, listen_addr, name, in_port, sniffing)
    }

    /// The address to recover the original destination for.
    pub fn listen_addr(&self) -> (addr: SocketAddr)
        ensures
            addr == self@.listen_addr,
    {
        self.listen_addr
    }

    /// The connection as the rules see it.
    pub fn metadata(&self) -> (metadata: &Metadata)
        ensures
            metadata@ == self@.facts,
    {
        &self.metadata
    }

    /// Under what the connection is tracked, once a rule matched.
    pub fn tracking(&self) -> (tracking: Option<&Tracking>)
        ensures
            match tracking {
                Some(tracking) => self@.tracking == Some(tracking@),
                None => self@.tracking is None,
            },
    {
        self.tracking.as_ref()
    }

    /// Whether this event can come of the action last asked for.
    pub fn accepts(&self, event: &Event) -> (r: bool)
        ensures
            r == self@.expects(event@),
    {
        match event {
            Event::OriginalDst(_) => self.phase == Phase::Recover,
            Event::Sniffed(_) => self.phase == Phase::Sniff,
            Event::LookedUp(_) => self.phase == Phase::Lookup,
            Event::Resolved(_) => self.phase == Phase::Resolve,
            Event::Dialed(_) => self.phase == Phase::Dial,
            Event::Relayed(_) => self.phase == Phase::Relay,
        }
    }

    fn close(&mut self, reason: Refusal) -> (action: Action)
        ensures
            (final(self)@, action) == old(self)@.close(reason),
    {
        self.phase = Phase::Closed;
        Action::Close(reason)
    }

    fn find_host(&mut self, orig_dst: SocketAddr) -> (action: Action)
        requires
            old(self)@.orig_dst == Some(orig_dst),
        ensures
            (final(self)@, action) == old(self)@.find_host(),
    {
        let name = self.metadata.sniff_host.clone();
        if name.as_str().is_empty() {
            self.phase = Phase::Lookup;
            Action::ReverseLookup(orig_dst.ip())
        } else {
            self.settle_host(name)
        }
    }

    fn settle_host(&mut self, host: String) -> (action: Action)
        ensures
            (final(self)@, action) == old(self)@.settle_host(host@),
    {
        self.metadata.host = host;
        self.phase = Phase::Resolve;
        Action::Resolve
    }

    fn track(&mut self, route: Route)
        ensures
            final(self)@ == (SessionModel { tracking: Some(route@), ..old(self)@ }),
    {
        let mut chain: Vec<String> = Vec::new();
        chain.push(route.proxy);
        let tracking = Tracking {
            rule_name: route.rule_name,
            rule_payload: route.rule_payload,
            chain,
        };
        assert(tracking@.chain =~= route@.chain);
        self.tracking = Some(tracking);
    }

    /// Takes in what came of the last action and says what to do next.
    pub fn step(&mut self, event: Event) -> (action: Action)
        requires
            old(self)@.wf(),
            old(self)@.expects(event@),
        ensures
            (final(self)@, action) == old(self)@.step(event@),
            final(self)@.wf(),
    {
        match event {
            Event::OriginalDst(None) => self.close(Refusal::NoOriginalDst),
            Event::OriginalDst(Some(dst)) => if dst == self.listen_addr {
                self.close(Refusal::OwnAddress)
            } else {
                self.orig_dst = Some(dst);
                self.metadata.dst_ip = Some(dst.ip());
                self.metadata.dst_port = dst.port();
                if self.sniffing {
                    self.phase = Phase::Sniff;
                    Action::Sniff
                } else {
                    self.find_host(dst)
                }
            },
            Event::Sniffed(metadata) => {
                self.metadata = metadata;
                let dst = self.orig_dst.unwrap();
                self.find_host(dst)
            },
            Event::LookedUp(Some(name)) => self.settle_host(name),
            Event::LookedUp(None) => self.settle_host(String::new()),
            Event::Resolved(Some(route)) => {
                self.track(route);
                self.phase = Phase::Dial;
                Action::Dial
            },
            Event::Resolved(None) => self.close(Refusal::NoRule),
            Event::Dialed(connected) => if connected {
                self.phase = Phase::Relay;
                Action::Relay
            } else {
                self.close(Refusal::DialFailed)
            },
            Event::Relayed(traffic) => {
                self.phase = Phase::Closed;
                match self.kind {
                    ListenerKind::Mixed => Action::Finish(None),
                    ListenerKind::Redir => match traffic {
                        Some(counts) => Action::Finish(Some(counts)),
                        None => Action::Finish(Some(Traffic { up: 0, down: 0 })),
                    },
                }
            },
        }
    }
}

/// A session starts by waiting for the original destination, with what the
/// listener knows and nothing more: the client's address, the listener's name
/// and port, and neither a destination nor a name for it.
pub proof fn lemma_start(
    kind: ListenerKind,
    listen_addr: SocketAddr,
    sniffing: bool,
    src_addr: SocketAddr,
    name: Seq<char>,
    in_port: u16,
)
    ensures
        ({
            let inbound = inbound_facts(src_addr, name, in_port);
            let session = SessionModel::start(kind, listen_addr, sniffing, inbound);
            &&& session.kind == kind
            &&& session.listen_addr == listen_addr
            &&& session.sniffing == sniffing
            &&& session.phase == Phase::Recover
            &&& session.orig_dst is None
            &&& session.tracking is None
            &&& session.facts == inbound
            &&& inbound.network == Network::Tcp
            &&& inbound.conn_type == ConnType::TProxy
            &&& src_addr matches SocketAddr::V4 { ipv4, port } ==> inbound.src_ip == Some(
                IpAddr::V4(ipv4),
            ) && inbound.src_port == port
            &&& src_addr matches SocketAddr::V6 { ipv6, port, .. } ==> inbound.src_ip == Some(
                IpAddr::V6(ipv6),
            ) && inbound.src_port == port
            &&& inbound.dst_ip is None
            &&& inbound.dst_port == 0
            &&& inbound.host.len() == 0
            &&& inbound.sniff_host.len() == 0
            &&& inbound.in_name == name
            &&& inbound.in_port == in_port
        }),
{
}

/// In each phase a session takes the events of one sort, whatever they carry,
/// and no others; once closed it takes none.
pub proof fn lemma_awaited(session: SessionModel, event: EventModel)
    ensures
        session.phase == Phase::Recover ==> (session.expects(event) <==> event is OriginalDst),
        session.phase == Phase::Sniff ==> (session.expects(event) <==> event is Sniffed),
        session.phase == Phase::Lookup ==> (session.expects(event) <==> event is LookedUp),
        session.phase == Phase::Resolve ==> (session.expects(event) <==> event is Resolved),
        session.phase == Phase::Dial ==> (session.expects(event) <==> event is Dialed),
        session.phase == Phase::Relay ==> (session.expects(event) <==> event is Relayed),
        session.phase == Phase::Closed ==> !session.expects(event),
{
}

/// The original destination is entered in the metadata by its address and its
/// port, each as it came, for IPv4 and IPv6 alike, and no other fact changes.
/// With a sniffer the first bytes are sniffed next; without one the name of that
/// very address is looked up.
pub proof fn lemma_destination_recorded(session: SessionModel, dst: SocketAddr)
    requires
        session.facts.sniff_host.len() == 0,
        dst != session.listen_addr,
    ensures
        ({
            let (next, action) = session.step(EventModel::OriginalDst(Some(dst)));
            let (ip, port) = match dst {
                SocketAddr::V4 { ipv4, port } => (IpAddr::V4(ipv4), port),
                SocketAddr::V6 { ipv6, port, .. } => (IpAddr::V6(ipv6), port),
            };
            &&& next.facts == (crate::metadata::Facts {
                dst_ip: Some(ip),
                dst_port: port,
                ..session.facts
            })
            &&& next == (SessionModel {
                phase: if session.sniffing {
                    Phase::Sniff
                } else {
                    Phase::Lookup
                },
                orig_dst: Some(dst),
                facts: next.facts,
                ..session
            })
            &&& action == if session.sniffing {
                Action::Sniff
            } else {
                Action::ReverseLookup(ip)
            }
        }),
{
}

/// Only two things refuse a connection before its name is found, and they are
/// told apart: a destination that is not known, and one that is the listener's
/// own address. The session is closed and keeps all else.
pub proof fn lemma_destination_refused(session: SessionModel, dst: Option<SocketAddr>)
    requires
        session.phase == Phase::Recover,
    ensures
        ({
            let (next, action) = session.step(EventModel::OriginalDst(dst));
            &&& action == Action::Close(Refusal::NoOriginalDst) <==> dst is None
            &&& action == Action::Close(Refusal::OwnAddress) <==> dst == Some(session.listen_addr)
            &&& action is Close <==> dst is None || dst == Some(session.listen_addr)
            &&& action is Close ==> next == (SessionModel { phase: Phase::Closed, ..session })
        }),
{
}

/// After sniffing the metadata is what the sniffer left. A name that it found
/// becomes the host, and the rules are asked; where it found none the name of the
/// original destination's address is looked up, and the host is left alone.
pub proof fn lemma_sniffed(
    session: SessionModel,
    dst: SocketAddr,
    sniffed: crate::metadata::Facts,
)
    requires
        session.orig_dst == Some(dst),
    ensures
        ({
            let (next, action) = session.step(EventModel::Sniffed(sniffed));
            &&& sniffed.sniff_host.len() > 0 ==> {
                &&& action == Action::Resolve
                &&& next == (SessionModel {
                    phase: Phase::Resolve,
                    facts: crate::metadata::Facts { host: sniffed.sniff_host, ..sniffed },
                    ..session
                })
            }
            &&& sniffed.sniff_host.len() == 0 ==> {
                &&& action == Action::ReverseLookup(
                    match dst {
                        SocketAddr::V4 { ipv4, .. } => IpAddr::V4(ipv4),
                        SocketAddr::V6 { ipv6, .. } => IpAddr::V6(ipv6),
                    },
                )
                &&& next == (SessionModel { phase: Phase::Lookup, facts: sniffed, ..session })
            }
        }),
{
}

/// The name that the resolver has becomes the host, letter for letter; where it
/// has none the host is empty. Nothing else of the metadata changes, and the
/// rules are asked either way.
pub proof fn lemma_looked_up(session: SessionModel, name: Seq<char>)
    ensures
        session.step(EventModel::LookedUp(Some(name))) == (
            SessionModel {
                phase: Phase::Resolve,
                facts: crate::metadata::Facts { host: name, ..session.facts },
                ..session
            },
            Action::Resolve,
        ),
        session.step(EventModel::LookedUp(None)) == (
            SessionModel {
                phase: Phase::Resolve,
                facts: crate::metadata::Facts { host: Seq::empty(), ..session.facts },
                ..session
            },
            Action::Resolve,
        ),
{
}

/// A connection for which a rule is found is dialled and tracked under that
/// rule; one for which none is found is closed. The metadata is kept.
pub proof fn lemma_resolved(session: SessionModel, tracking: TrackingModel)
    ensures
        session.step(EventModel::Resolved(Some(tracking))) == (
            SessionModel { phase: Phase::Dial, tracking: Some(tracking), ..session },
            Action::Dial,
        ),
        session.step(EventModel::Resolved(None)) == (
            SessionModel { phase: Phase::Closed, ..session },
            Action::Close(Refusal::NoRule),
        ),
{
}

/// A proxy that could be dialled is relayed to; one that could not closes the
/// session. All else is kept.
pub proof fn lemma_dialed(session: SessionModel)
    ensures
        session.step(EventModel::Dialed(true)) == (
            SessionModel { phase: Phase::Relay, ..session },
            Action::Relay,
        ),
        session.step(EventModel::Dialed(false)) == (
            SessionModel { phase: Phase::Closed, ..session },
            Action::Close(Refusal::DialFailed),
        ),
{
}

/// The end of a relay closes the session. A redirect listener records the bytes
/// that the relay counted, each way as it counted them, and none if it failed; a
/// mixed listener records nothing.
pub proof fn lemma_relayed(session: SessionModel, up: u64, down: u64)
    ensures
        session.step(EventModel::Relayed(None)).0 == (SessionModel {
            phase: Phase::Closed,
            ..session
        }),
        session.step(EventModel::Relayed(Some(Traffic { up, down }))).0 == (SessionModel {
            phase: Phase::Closed,
            ..session
        }),
        session.kind == ListenerKind::Mixed ==> {
            &&& session.step(EventModel::Relayed(None)).1 == Action::Finish(None)
            &&& session.step(EventModel::Relayed(Some(Traffic { up, down }))).1 == Action::Finish(
                None,
            )
        },
        session.kind == ListenerKind::Redir ==> {
            &&& session.step(EventModel::Relayed(None)).1 == Action::Finish(
                Some(Traffic { up: 0, down: 0 }),
            )
            &&& session.step(EventModel::Relayed(Some(Traffic { up, down }))).1 == Action::Finish(
                Some(Traffic { up, down }),
            )
        },
{
}

/// An event says what it carries.
pub proof fn lemma_event(event: Event)
    ensures
        event matches Event::OriginalDst(dst) ==> event@ == EventModel::OriginalDst(dst),
        event matches Event::Sniffed(metadata) ==> event@ == EventModel::Sniffed(metadata@),
        event matches Event::LookedUp(Some(name)) ==> event@ == EventModel::LookedUp(Some(name@)),
        event matches Event::LookedUp(None) ==> event@ == EventModel::LookedUp(None),
        event matches Event::Resolved(Some(route)) ==> event@ == EventModel::Resolved(
            Some(route@),
        ),
        event matches Event::Resolved(None) ==> event@ == EventModel::Resolved(None),
        event matches Event::Dialed(connected) ==> event@ == EventModel::Dialed(connected),
        event matches Event::Relayed(traffic) ==> event@ == EventModel::Relayed(traffic),
{
}

/// A route is tracked under its rule's name and payload, with its proxy as the
/// whole chain; and a tracking record says so name by name.
pub proof fn lemma_tracked(route: Route, tracking: Tracking)
    ensures
        route@.rule_name == route.rule_name@,
        route@.rule_payload == route.rule_payload@,
        route@.chain.len() == 1,
        route@.chain[0] == route.proxy@,
        tracking@.rule_name == tracking.rule_name@,
        tracking@.rule_payload == tracking.rule_payload@,
        tracking@.chain.len() == tracking.chain@.len(),
        forall|i: int|
            0 <= i < tracking.chain@.len() ==> #[trigger] tracking@.chain[i]
                == tracking.chain@[i]@,
{
}

/// A step closes a session exactly if it refuses the connection or finishes it.
/// Only the end of a relay finishes it, only a rule that was found leads to
/// dialling, and only a proxy that was dialled is relayed to.
pub proof fn lemma_closing(session: SessionModel, event: EventModel)
    requires
        session.wf(),
        session.expects(event),
    ensures
        session.step(event).0.phase == Phase::Closed <==> session.step(event).1 is Close
            || session.step(event).1 is Finish,
        session.step(event).1 is Finish <==> event is Relayed,
        session.step(event).1 is Dial <==> event is Resolved && event != EventModel::Resolved(
            None,
        ),
        session.step(event).1 == Action::Relay <==> event == EventModel::Dialed(true),
{
}

} // verus!
