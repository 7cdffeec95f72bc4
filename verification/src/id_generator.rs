//! Where the identifiers of traces and spans come from.

use crate::basetypes::{SpanID, TraceID};
use rand_core::{RngCore, SeedableRng};
use rand_xoshiro::Xoshiro256Plus;
use std::sync::{Arc, Mutex};
use vstd::prelude::*;

verus! {

/// `rand_xoshiro::Xoshiro256Plus`, a pseudo-random generator. Nothing of its
/// state is seen here.
#[verifier::external_type_specification]
#[verifier::external_body]
pub struct ExXoshiro256Plus(Xoshiro256Plus);

/// `std::sync::Mutex`. Nothing of what it guards is seen here.
#[verifier::external_type_specification]
#[verifier::external_body]
#[verifier::reject_recursive_types(T)]
pub struct ExMutex<T: ?Sized>(Mutex<T>);

/// A source of identifiers. Nothing is asked of the identifiers but that
/// they are unlikely to repeat; a generator may be shared between threads.
pub trait IDGenerator {
    fn new_trace_id(&self) -> TraceID;

    fn new_span_id(&self) -> SpanID;
}

impl<G: IDGenerator> IDGenerator for Arc<G> {
    fn new_trace_id(&self) -> TraceID {
        (**self).new_trace_id()
    }

    fn new_span_id(&self) -> SpanID {
        (**self).new_span_id()
    }
}

/// The generator that is used where no other is chosen: a pseudo-random
/// sequence behind a lock. It is not fit to make secrets.
pub struct DefaultIDGenerator {
    source: Mutex<Xoshiro256Plus>,
}

/// `rand_core::SeedableRng::seed_from_u64` for
/// `rand_xoshiro::Xoshiro256Plus`. Nothing is claimed of the generator that
/// it makes.
#[verifier::external_body]
fn seed_from_u64(seed: u64) -> Xoshiro256Plus {
    Xoshiro256Plus::seed_from_u64(seed)
}

/// `std::sync::Mutex::new`. Nothing is claimed of the lock.
pub assume_specification<T>[ Mutex::<T>::new ](t: T) -> Mutex<T>;

/// `rand_core::RngCore::fill_bytes` of the generator behind `source`, on `N`
/// bytes, with the lock held. Nothing is claimed of the bytes. A lock that a
/// panic has poisoned is used like any other.
#[verifier::external_body]
fn next_bytes<const N: usize>(source: &Mutex<Xoshiro256Plus>) -> [u8; N] {
    let mut bytes = [0u8; N];
    let mut generator = match source.lock() {
        Ok(guard) => guard,
        Err(poisoned) => poisoned.into_inner(),
    };
    generator.fill_bytes(&mut bytes);
    bytes
}

impl DefaultIDGenerator {
    fn new() -> Self {
        DefaultIDGenerator { source: Mutex::new(seed_from_u64(0)) }
    }
}

impl IDGenerator for DefaultIDGenerator {
    fn new_trace_id(&self) -> TraceID {
        TraceID(next_bytes::<16>(&self.source))
    }

    fn new_span_id(&self) -> SpanID {
        SpanID(next_bytes::<8>(&self.source))
    }
}

/// A generator of the default kind, at the start of its sequence.
pub fn default_id_generator() -> DefaultIDGenerator {
    DefaultIDGenerator::new()
}

} // verus!
