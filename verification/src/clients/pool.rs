//! The client pool: which peers have a connection pool, each pool's bound,
//! and the leader that each contacted address last reported.

use vstd::prelude::*;
use dashmap::DashMap;
use crate::base::concurrent_map::{
    bound_entries, bound_map_get, bound_map_insert, bound_map_with_capacity, no_bounds, no_texts,
    text_entries, text_map_get, text_map_insert, text_map_with_capacity,
};
use crate::base::error::CommonError;
use crate::clients::placement::{OpenRaftServiceManager, PlacementServiceManager};

verus! {

/// What a caller needs to check a connection out of one peer's pool.
#[derive(Debug)]
pub struct PoolTicket<M> {
    /// The connector that dials the peer.
    pub manager: M,
    /// The most connections the pool may hold open.
    pub max_open: u64,
    /// Whether this request was the first for the address, so that the pool
    /// is to be built now.
    pub created: bool,
}

/// The pools of one service after a request for `addr`: a pool bounded by
/// `max_open` is added where the address had none.
pub open spec fn pools_after_request(
    pools: Map<Seq<char>, u64>,
    addr: Seq<char>,
    max_open: u64,
) -> Map<Seq<char>, u64> {
    if pools.contains_key(addr) {
        pools
    } else {
        pools.insert(addr, max_open)
    }
}

pub struct ClientPool {
    max_open_connection: u64,
    placement_center_leader_addr_caches: DashMap<String, String>,
    placement_center_inner_pools: DashMap<String, u64>,
    placement_center_openraft_service_pools: DashMap<String, u64>,
    placement_center_kv_service_pools: DashMap<String, u64>,
}

impl ClientPool {
    /// The bound given to every pool that is built from now on.
    pub closed spec fn max_open(&self) -> u64 {
        self.max_open_connection
    }

    /// The leader hints: contacted address to reported leader.
    pub closed spec fn leader_cache(&self) -> Map<Seq<char>, Seq<char>> {
        text_entries(self.placement_center_leader_addr_caches)
    }

    /// The pools of the placement service: address to bound.
    pub closed spec fn inner_pools(&self) -> Map<Seq<char>, u64> {
        bound_entries(self.placement_center_inner_pools)
    }

    /// The pools of the consensus service: address to bound.
    pub closed spec fn openraft_pools(&self) -> Map<Seq<char>, u64> {
        bound_entries(self.placement_center_openraft_service_pools)
    }

    /// The pools of the key/value service: address to bound.
    pub closed spec fn kv_pools(&self) -> Map<Seq<char>, u64> {
        bound_entries(self.placement_center_kv_service_pools)
    }

    /// A pool set without pools and without leader hints.
    pub fn new(max_open_connection: u64) -> (pool: Self)
        ensures
            pool.max_open() == max_open_connection,
            pool.leader_cache() == no_texts(),
            pool.inner_pools() == no_bounds(),
            pool.openraft_pools() == no_bounds(),
            pool.kv_pools() == no_bounds(),
    {
        Self {
            max_open_connection,
            placement_center_leader_addr_caches: text_map_with_capacity(2),
            placement_center_inner_pools: bound_map_with_capacity(2),
            placement_center_openraft_service_pools: bound_map_with_capacity(2),
            placement_center_kv_service_pools: bound_map_with_capacity(2),
        }
    }

    /// Asks for a client of the placement service at `addr`. The first
    /// request for an address registers its pool, bounded by `max_open()`;
    /// later requests find the pool and its bound.
    pub fn placement_center_inner_service_client(&mut self, addr: &str) -> (ticket: PoolTicket<
        PlacementServiceManager,
    >)
        ensures
            final(self).inner_pools() == pools_after_request(
                old(self).inner_pools(),
                addr@,
                old(self).max_open(),
            ),
            final(self).max_open() == old(self).max_open(),
            final(self).leader_cache() == old(self).leader_cache(),
            final(self).openraft_pools() == old(self).openraft_pools(),
            final(self).kv_pools() == old(self).kv_pools(),
            ticket.manager.addr@ == addr@,
            ticket.created == !old(self).inner_pools().contains_key(addr@),
            ticket.max_open == final(self).inner_pools()[addr@],
    {
        let manager: PlacementServiceManager = PlacementServiceManager::new(addr.to_owned());
        match bound_map_get(&self.placement_center_inner_pools, addr) {
            Some(max_open) => PoolTicket { manager, max_open, created: false },
            None => {
                bound_map_insert(
                    &mut self.placement_center_inner_pools,
                    addr.to_owned(),
                    self.max_open_connection,
                );
                PoolTicket { manager, max_open: self.max_open_connection, created: true }
            },
        }
    }

    /// Asks for a client of the consensus service at `addr`. The first
    /// request for an address registers its pool, bounded by `max_open()`;
    /// later requests find the pool and its bound.
    pub fn placement_center_openraft_service_client(&mut self, addr: &str) -> (ticket: PoolTicket<
        OpenRaftServiceManager,
    >)
        ensures
            final(self).openraft_pools() == pools_after_request(
                old(self).openraft_pools(),
                addr@,
                old(self).max_open(),
            ),
            final(self).max_open() == old(self).max_open(),
            final(self).leader_cache() == old(self).leader_cache(),
            final(self).inner_pools() == old(self).inner_pools(),
            final(self).kv_pools() == old(self).kv_pools(),
            ticket.manager.addr@ == addr@,
            ticket.created == !old(self).openraft_pools().contains_key(addr@),
            ticket.max_open == final(self).openraft_pools()[addr@],
    {
        let manager: OpenRaftServiceManager = OpenRaftServiceManager::new(addr.to_owned());
        match bound_map_get(&self.placement_center_openraft_service_pools, addr) {
            Some(max_open) => PoolTicket { manager, max_open, created: false },
            None => {
                bound_map_insert(
                    &mut self.placement_center_openraft_service_pools,
                    addr.to_owned(),
                    self.max_open_connection,
                );
                PoolTicket { manager, max_open: self.max_open_connection, created: true }
            },
        }
    }

    /// The leader that `addr` last reported, if it reported one.
    pub fn get_leader_addr(&self, addr: &str) -> (leader: Option<String>)
        ensures
            leader is Some == self.leader_cache().contains_key(addr@),
            leader is Some ==> leader->0@ == self.leader_cache()[addr@],
    {
        text_map_get(&self.placement_center_leader_addr_caches, addr)
    }

    /// Records that `addr` reported `leader_addr` as the leader.
    pub fn set_leader_addr(&mut self, addr: String, leader_addr: String)
        ensures
            final(self).leader_cache() == old(self).leader_cache().insert(addr@, leader_addr@),
            final(self).max_open() == old(self).max_open(),
            final(self).inner_pools() == old(self).inner_pools(),
            final(self).openraft_pools() == old(self).openraft_pools(),
            final(self).kv_pools() == old(self).kv_pools(),
    {
        text_map_insert(&mut self.placement_center_leader_addr_caches, addr, leader_addr);
    }
}

/// The error of a checkout that failed: it names the service and the cause.
pub fn no_available_connection(service: &str, cause: String) -> (e: CommonError)
    ensures
        e == CommonError::NoAvailableGrpcConnection(e->NoAvailableGrpcConnection_0, cause),
        e->NoAvailableGrpcConnection_0@ == service@,
{
    CommonError::NoAvailableGrpcConnection(service.to_owned(), cause)
}

} // verus!
