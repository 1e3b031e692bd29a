//! The handle that an election-provider RPC endpoint keeps on its client.
use std::marker::PhantomData;
use std::sync::Arc;
use vstd::prelude::*;

verus! {

/// An election-provider RPC endpoint over a shared client `C` for blocks `B`.
pub struct EpmRpc<C, B> {
    client: Arc<C>,
    _marker: PhantomData<B>,
}

impl<C, B> EpmRpc<C, B> {
    /// The client the endpoint serves.
    pub closed spec fn client_of(&self) -> Arc<C> {
        self.client
    }

    /// A new endpoint over `client`.
    pub fn new(client: Arc<C>) -> (r: Self)
        ensures
            r.client_of() == client,
    {
        EpmRpc { client, _marker: PhantomData }
    }

    /// The client the endpoint serves.
    pub fn client(&self) -> (r: &Arc<C>)
        ensures
            *r == self.client_of(),
    {
        &self.client
    }
}

} // verus!
