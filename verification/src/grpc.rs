//! Services that other processes reach through gRPC. Each holds the handle of
//! the server it serves; the transport lives with the program.
use vstd::prelude::*;

verus! {

/// Creates rooms and registers members for the factory and the matchmaking.
pub struct RelayGRPCService<M> {
    pub relay_server: M,
}

impl<M> RelayGRPCService<M> {
    pub fn new(relay_server: M) -> (r: Self)
        ensures
            r.relay_server == relay_server,
    {
        RelayGRPCService { relay_server }
    }
}

/// Lists the rooms of the server for administrators.
pub struct RelayAdminGRPCService<M> {
    pub manager: M,
}

impl<M> RelayAdminGRPCService<M> {
    pub fn new(manager: M) -> (r: Self)
        ensures
            r.manager == manager,
    {
        RelayAdminGRPCService { manager }
    }
}

/// Serves the command tracer of the rooms to administrators.
pub struct CommandTracerGRPCService<M> {
    pub manager: M,
}

impl<M> CommandTracerGRPCService<M> {
    pub fn new(relay_server: M) -> (r: Self)
        ensures
            r.manager == relay_server,
    {
        CommandTracerGRPCService { manager: relay_server }
    }
}

} // verus!
