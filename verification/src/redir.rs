//! A listener for connections that the packet filter redirected.

use std::sync::Arc;
use vstd::prelude::*;

use crate::accept::AcceptLoop;
use crate::addr::SocketAddr;
use crate::mixed::SnifferRuntime;
use crate::session::ListenerKind;

verus! {

/// The redirect listener: `T` is the tunnel that its connections go through,
/// `S` the sniffer's engine.
pub struct RedirListener<T, S> {
    pub tunnel: T,
    pub listen_addr: SocketAddr,
    pub sniffer: Option<Arc<SnifferRuntime<S>>>,
    pub name: String,
}

impl<T, S> RedirListener<T, S> {
    pub fn new(
        tunnel: T,
        listen_addr: SocketAddr,
        sniffer: Option<Arc<SnifferRuntime<S>>>,
        name: String,
    ) -> (listener: Self)
        ensures
            listener == (RedirListener { tunnel, listen_addr, sniffer, name }),
    {
        RedirListener { tunnel, listen_addr, sniffer, name }
    }

    /// The loop that accepts this listener's connections. It has no cap, and it
    /// ends when a connection cannot be accepted.
    pub fn accept_loop(&self) -> (r: AcceptLoop)
        ensures
            r == AcceptLoop::spec_start(ListenerKind::Redir, 0),
            r.kind == ListenerKind::Redir,
            r.max_connections == 0,
            r.phase == crate::accept::LoopPhase::Bind,
    {
        AcceptLoop::start(ListenerKind::Redir, 0)
    }
}

} // verus!
