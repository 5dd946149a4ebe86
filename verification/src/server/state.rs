//! What the handlers of the server share.

use vstd::prelude::*;

use crate::server::config::Config;
use crate::text_map::TextMap;

verus! {

/// State shared by the handlers of the server, over its database, its compute
/// driver, its index of sandboxes and its two notification buses.
#[derive(Debug)]
pub struct ServerState<Store, Compute, Index, WatchBus, LogBus> {
    pub config: Config,
    pub store: Store,
    pub compute: Compute,
    pub sandbox_index: Index,
    pub sandbox_watch_bus: WatchBus,
    pub tracing_log_bus: LogBus,
    /// Open SSH tunnels by session token.
    pub ssh_connections_by_token: TextMap<u32>,
    /// Open SSH tunnels by sandbox id.
    pub ssh_connections_by_sandbox: TextMap<u32>,
}

impl<Store, Compute, Index, WatchBus, LogBus> ServerState<Store, Compute, Index, WatchBus, LogBus> {
    /// The state of a server that has just started: no tunnel is open.
    pub fn new(
        config: Config,
        store: Store,
        compute: Compute,
        sandbox_index: Index,
        sandbox_watch_bus: WatchBus,
        tracing_log_bus: LogBus,
    ) -> (s: Self)
        ensures
            s.config == config,
            s.store == store,
            s.compute == compute,
            s.sandbox_index == sandbox_index,
            s.sandbox_watch_bus == sandbox_watch_bus,
            s.tracing_log_bus == tracing_log_bus,
            s.ssh_connections_by_token@ == Map::<Seq<char>, u32>::empty(),
            s.ssh_connections_by_sandbox@ == Map::<Seq<char>, u32>::empty(),
    {
        ServerState {
            config,
            store,
            compute,
            sandbox_index,
            sandbox_watch_bus,
            tracing_log_bus,
            ssh_connections_by_token: TextMap::new(),
            ssh_connections_by_sandbox: TextMap::new(),
        }
    }
}

} // verus!
