//! Handles by which the surrounding program shares nodes of the status graph
//! between its tasks: reference-counted nodes, and nodes behind a
//! reader-writer lock.

use vstd::prelude::*;
use std::collections::{HashMap, HashSet};
use std::sync::{Arc, RwLock};

verus! {

/// `std::sync::RwLock`, carried as an opaque value.
#[verifier::external_type_specification]
#[verifier::external_body]
#[verifier::reject_recursive_types(T)]
pub struct ExRwLock<T: ?Sized>(RwLock<T>);

/// `std::sync::RwLock::new`: a fresh, unlocked lock around `t`. What a lock
/// holds can change behind a shared reference, so nothing is stated of it.
pub assume_specification<T>[ RwLock::<T>::new ](t: T) -> (lock: RwLock<T>)
;

/// A shared node.
#[derive(Debug)]
pub struct ArcWrapper<T>(pub Arc<T>);

impl<T> ArcWrapper<T> {
    /// Wraps a shared node.
    pub fn new(inner: Arc<T>) -> (r: Self)
        ensures
            r.0 == inner,
    {
        Self(inner)
    }

    /// The shared node.
    pub fn inner(&self) -> (r: &Arc<T>)
        ensures
            *r == self.0,
    {
        &self.0
    }
}

impl<T> Clone for ArcWrapper<T> {
    /// Another handle to the same node.
    fn clone(&self) -> (r: Self)
        ensures
            r.0 == self.0,
    {
        Self(self.0.clone())
    }
}

/// A list of shared nodes.
#[derive(Debug)]
pub struct VecArcWrapper<T>(pub Vec<Arc<T>>);

impl<T> VecArcWrapper<T> {
    /// Wraps a list of shared nodes.
    pub fn new(inner: Vec<Arc<T>>) -> (r: Self)
        ensures
            r.0 == inner,
    {
        Self(inner)
    }

    /// The list of shared nodes.
    pub fn inner(&self) -> (r: &Vec<Arc<T>>)
        ensures
            *r == self.0,
    {
        &self.0
    }
}

impl<T> Default for VecArcWrapper<T> {
    /// The empty list.
    fn default() -> (r: Self)
        ensures
            r.0@.len() == 0,
    {
        Self(Vec::new())
    }
}

/// A set of shared nodes behind a lock.
#[derive(Debug)]
#[verifier::reject_recursive_types(T)]
pub struct RwLockHashSetArcWrapper<T>(pub RwLock<HashSet<Arc<T>>>);

impl<T> RwLockHashSetArcWrapper<T> {
    /// Wraps a locked set of shared nodes.
    pub fn new(inner: RwLock<HashSet<Arc<T>>>) -> (r: Self)
        ensures
            r.0 == inner,
    {
        Self(inner)
    }

    /// The locked set.
    pub fn inner(&self) -> (r: &RwLock<HashSet<Arc<T>>>)
        ensures
            *r == self.0,
    {
        &self.0
    }
}

/// A list of shared nodes behind a lock.
#[derive(Debug)]
#[verifier::reject_recursive_types(T)]
pub struct RwLockVecArcWrapper<T>(pub RwLock<Vec<Arc<T>>>);

impl<T> RwLockVecArcWrapper<T> {
    /// Wraps a locked list of shared nodes.
    pub fn new(inner: RwLock<Vec<Arc<T>>>) -> (r: Self)
        ensures
            r.0 == inner,
    {
        Self(inner)
    }

    /// The locked list.
    pub fn inner(&self) -> (r: &RwLock<Vec<Arc<T>>>)
        ensures
            *r == self.0,
    {
        &self.0
    }
}

/// A value behind a lock.
#[derive(Debug)]
#[verifier::reject_recursive_types(T)]
pub struct RwLockWrapper<T>(pub RwLock<T>);

impl<T> From<RwLock<T>> for RwLockWrapper<T> {
    /// Wraps a lock.
    fn from(value: RwLock<T>) -> (r: Self) {
        Self(value)
    }
}

impl<T> vstd::std_specs::convert::FromSpecImpl<RwLock<T>> for RwLockWrapper<T> {
    open spec fn obeys_from_spec() -> bool {
        true
    }

    open spec fn from_spec(v: RwLock<T>) -> Self {
        RwLockWrapper(v)
    }
}

impl<T> RwLockWrapper<T> {
    /// Puts `inner` behind a fresh lock. The lock is an opaque value whose
    /// content can change behind a shared reference, so the wrapper that
    /// comes back is described no further.
    pub fn new(inner: T) -> (r: Self) {
        Self::from(RwLock::new(inner))
    }

    /// The lock.
    pub fn inner(&self) -> (r: &RwLock<T>)
        ensures
            *r == self.0,
    {
        &self.0
    }
}

/// Shared nodes by name, behind a lock.
#[derive(Debug)]
#[verifier::reject_recursive_types(T)]
pub struct RwLockHashMapArc<T>(pub RwLock<HashMap<String, Arc<T>>>);

impl<T> RwLockHashMapArc<T> {
    /// Wraps a locked map of shared nodes.
    pub fn new(inner: RwLock<HashMap<String, Arc<T>>>) -> (r: Self)
        ensures
            r.0 == inner,
    {
        Self(inner)
    }

    /// The locked map.
    pub fn inner(&self) -> (r: &RwLock<HashMap<String, Arc<T>>>)
        ensures
            *r == self.0,
    {
        &self.0
    }
}

} // verus!
