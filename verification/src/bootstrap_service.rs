//! The prefill bootstrap state as several parties share it.
use std::sync::Arc;
use std::sync::Mutex;

use vstd::prelude::*;

use crate::bootstrap_state::PrefillBootstrapState;

verus! {

/// std's `Mutex`, carried through as it is.
#[verifier::external_type_specification]
#[verifier::external_body]
#[verifier::reject_recursive_types(T)]
pub struct ExMutex<T: ?Sized>(Mutex<T>);

/// The shared state of a prefill bootstrap server.
#[derive(Clone, Debug)]
pub struct PrefillBootstrapService {
    state: Arc<Mutex<PrefillBootstrapState>>,
}

impl PrefillBootstrapService {
    /// The state that is shared.
    pub closed spec fn shared(self) -> Arc<Mutex<PrefillBootstrapState>> {
        self.state
    }

    /// A service around a state.
    pub fn new(state: Arc<Mutex<PrefillBootstrapState>>) -> (service: Self)
        ensures
            service.shared() == state,
    {
        PrefillBootstrapService { state }
    }

    /// The state that is shared.
    pub fn state(&self) -> (state: &Arc<Mutex<PrefillBootstrapState>>)
        ensures
            *state == self.shared(),
    {
        &self.state
    }
}

/// How long a transfer waits for a room's layouts, in nanoseconds.
pub const DEFAULT_METADATA_WAIT_TIMEOUT_NANOS: u128 = 5_000_000_000;

/// How long a transfer waits before it asks again for a room's layouts, in nanoseconds.
pub const DEFAULT_METADATA_POLL_INTERVAL_NANOS: u128 = 2_000_000;

/// A transfer executor that first learns from the bootstrap state where the pages go.
pub struct MooncakeBootstrapKvCacheTransferExecutor<E> {
    bootstrap_service: PrefillBootstrapService,
    inner: E,
    metadata_wait_timeout_nanos: u128,
    metadata_poll_interval_nanos: u128,
}

/// What a [`MooncakeBootstrapKvCacheTransferExecutor`] holds.
pub struct BootstrapExecutor<E> {
    pub bootstrap_service: PrefillBootstrapService,
    pub inner: E,
    pub wait_timeout_nanos: nat,
    pub poll_interval_nanos: nat,
}

impl<E> View for MooncakeBootstrapKvCacheTransferExecutor<E> {
    type V = BootstrapExecutor<E>;

    closed spec fn view(&self) -> BootstrapExecutor<E> {
        BootstrapExecutor {
            bootstrap_service: self.bootstrap_service,
            inner: self.inner,
            wait_timeout_nanos: self.metadata_wait_timeout_nanos as nat,
            poll_interval_nanos: self.metadata_poll_interval_nanos as nat,
        }
    }
}

impl<E> MooncakeBootstrapKvCacheTransferExecutor<E> {
    /// An executor that waits five seconds for a room's layouts and asks every two milliseconds.
    pub fn new(bootstrap_service: PrefillBootstrapService, inner: E) -> (executor: Self)
        ensures
            executor@ == (BootstrapExecutor {
                bootstrap_service,
                inner,
                wait_timeout_nanos: 5_000_000_000,
                poll_interval_nanos: 2_000_000,
            }),
    {
        MooncakeBootstrapKvCacheTransferExecutor {
            bootstrap_service,
            inner,
            metadata_wait_timeout_nanos: DEFAULT_METADATA_WAIT_TIMEOUT_NANOS,
            metadata_poll_interval_nanos: DEFAULT_METADATA_POLL_INTERVAL_NANOS,
        }
    }

    /// The bootstrap service.
    pub fn bootstrap_service(&self) -> (service: &PrefillBootstrapService)
        ensures
            *service == self@.bootstrap_service,
    {
        &self.bootstrap_service
    }

    /// The executor that does the transfers.
    pub fn inner(&self) -> (inner: &E)
        ensures
            *inner == self@.inner,
    {
        &self.inner
    }

    /// The executor that does the transfers.
    pub fn inner_mut(&mut self) -> (inner: &mut E)
        ensures
            *inner == old(self)@.inner,
            final(self)@ == (BootstrapExecutor { inner: *final(inner), ..old(self)@ }),
    {
        &mut self.inner
    }

    /// Sets how long a transfer waits for a room's layouts, in nanoseconds.
    pub fn with_metadata_wait_timeout(self, timeout_nanos: u128) -> (executor: Self)
        ensures
            executor@ == (BootstrapExecutor { wait_timeout_nanos: timeout_nanos as nat, ..self@ }),
    {
        let mut executor = self;
        executor.metadata_wait_timeout_nanos = timeout_nanos;
        executor
    }

    /// How long a transfer waits for a room's layouts, in nanoseconds.
    pub fn metadata_wait_timeout(&self) -> (nanos: u128)
        ensures
            nanos == self@.wait_timeout_nanos,
    {
        self.metadata_wait_timeout_nanos
    }

    /// How long a transfer waits before it asks again, in nanoseconds.
    pub fn metadata_poll_interval(&self) -> (nanos: u128)
        ensures
            nanos == self@.poll_interval_nanos,
    {
        self.metadata_poll_interval_nanos
    }
}

} // verus!
