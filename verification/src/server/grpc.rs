//! The gRPC front end: where it listens, and the key/value service it
//! offers.

use vstd::prelude::*;
use dashmap::DashMap;
use crate::base::text::{concat2, decimal, u64_to_string};
use crate::base::concurrent_map::{
    no_texts, text_entries, text_map_contains, text_map_get, text_map_insert, text_map_remove,
    text_map_with_capacity,
};

verus! {

/// The gRPC server.
#[derive(Debug, Clone, Copy, PartialEq, Eq, Structural)]
pub struct GrpcServer {
    port: usize,
}

impl GrpcServer {
    /// The port on which the server listens.
    pub closed spec fn port(&self) -> usize {
        self.port
    }

    pub fn new(port: u32) -> (server: Self)
        ensures
            server.port() == port,
    {
        Self { port: port as usize }
    }

    /// The address on which the server listens: every interface, at its
    /// port.
    pub fn listen_addr(&self) -> (addr: String)
        ensures
            addr@ == "0.0.0.0:"@ + decimal(self.port() as nat),
    {
        let port: String = u64_to_string(self.port as u64);
        concat2("0.0.0.0:", port.as_str())
    }
}

/// The key/value service of the front end, kept in memory.
pub struct GrpcBrokerServices {
    data: DashMap<String, String>,
}

impl GrpcBrokerServices {
    /// What the service holds: key to value.
    pub closed spec fn entries(&self) -> Map<Seq<char>, Seq<char>> {
        text_entries(self.data)
    }

    pub fn new() -> (services: Self)
        ensures
            services.entries() == no_texts(),
    {
        GrpcBrokerServices { data: text_map_with_capacity(8) }
    }

    /// Sets `key` to `value`.
    pub fn set(&mut self, key: String, value: String)
        ensures
            final(self).entries() == old(self).entries().insert(key@, value@),
    {
        text_map_insert(&mut self.data, key, value);
    }

    /// Removes `key`.
    pub fn delete(&mut self, key: &str)
        ensures
            final(self).entries() == old(self).entries().remove(key@),
    {
        text_map_remove(&mut self.data, key);
    }

    /// The value of `key`; the empty text where the key is absent.
    pub fn get(&self, key: &str) -> (value: String)
        ensures
            self.entries().contains_key(key@) ==> value@ == self.entries()[key@],
            !self.entries().contains_key(key@) ==> value@ == Seq::<char>::empty(),
    {
        match text_map_get(&self.data, key) {
            Some(value) => value,
            None => String::new(),
        }
    }

    /// Whether `key` is present.
    pub fn exist(&self, key: &str) -> (flag: bool)
        ensures
            flag == self.entries().contains_key(key@),
    {
        text_map_contains(&self.data, key)
    }
}

} // verus!
