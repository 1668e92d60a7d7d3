//! Surface data shared by many surfaces, behind a lock.

use vstd::prelude::*;
use std::sync::{Arc, Mutex, MutexGuard};
use crate::surface::SurfaceData;

verus! {

/// Declares `std::sync::Mutex`, carried as an opaque value.
#[verifier::external_type_specification]
#[verifier::external_body]
#[verifier::reject_recursive_types(T)]
pub struct ExMutex<T: ?Sized>(Mutex<T>);

/// Declares `std::sync::MutexGuard`, carried as an opaque value.
#[verifier::external_type_specification]
#[verifier::external_body]
#[verifier::reject_recursive_types(T)]
pub struct ExMutexGuard<'a, T: ?Sized + 'a>(MutexGuard<'a, T>);

/// Relies on `Deref` of `std::sync::MutexGuard`: the data behind a held lock.
#[verifier::external_body]
fn read_guard<'a>(guard: &'a MutexGuard<'_, SurfaceData>) -> (r: &'a SurfaceData)
{
    &**guard
}

/// Surface data shared across surfaces. Clones share one storage; equality is by
/// storage, not by contents.
pub struct SurfaceSharedData {
    inner: Arc<Mutex<SurfaceData>>,
    /// Stands for the address of the shared storage.
    id: Ghost<int>,
}

/// Relies on `std::sync::Arc::ptr_eq`: whether both handles share one storage.
#[verifier::external_body]
fn same_storage(a: &SurfaceSharedData, b: &SurfaceSharedData) -> (r: bool)
    ensures
        r == (a.storage() == b.storage()),
{
    Arc::ptr_eq(&a.inner, &b.inner)
}

/// Relies on `std::sync::Arc::new` and `std::sync::Mutex::new`: a new storage
/// holding `data`. It is allocated while `other` lives, so it is not `other`'s.
#[verifier::external_body]
fn wrap_apart(data: SurfaceData, other: &SurfaceSharedData) -> (r: SurfaceSharedData)
    ensures
        r.storage() != other.storage(),
{
    let inner = Arc::new(Mutex::new(data));
    let id = Arc::as_ptr(&inner) as usize;
    SurfaceSharedData { inner, id: Ghost(id as int) }
}

impl SurfaceSharedData {
    /// The storage this handle refers to.
    pub closed spec fn storage(&self) -> int {
        self.id@
    }

    /// Relies on `std::sync::Arc::new` and `std::sync::Mutex::new`: wraps `data` in
    /// a new storage of its own.
    #[verifier::external_body]
    pub fn new(data: SurfaceData) -> (r: SurfaceSharedData)
    {
        let inner = Arc::new(Mutex::new(data));
        let id = Arc::as_ptr(&inner) as usize;
        SurfaceSharedData { inner, id: Ghost(id as int) }
    }

    /// Relies on `std::sync::Mutex::lock`: exclusive access to the data until the
    /// guard is dropped. A lock poisoned by a panic elsewhere still yields the data.
    /// Locking again from the thread that holds the guard does not return.
    #[verifier::external_body]
    pub fn lock(&self) -> (r: MutexGuard<'_, SurfaceData>)
    {
        match self.inner.lock() {
            Ok(guard) => guard,
            Err(poisoned) => poisoned.into_inner(),
        }
    }

    /// Relies on `std::sync::Arc::as_ptr`: the address of the storage, which the
    /// storage id stands for. It is unique while the storage lives and differs
    /// from run to run.
    #[verifier::external_body]
    pub fn key(&self) -> (r: u64)
        ensures
            r as int == self.storage(),
    {
        Arc::as_ptr(&self.inner) as usize as u64
    }

    /// A new storage holding a copy of the data; it shares nothing with `self`.
    pub fn deep_clone(&self) -> (r: SurfaceSharedData)
        ensures
            r.storage() != self.storage(),
    {
        let guard = self.lock();
        let data = read_guard(&guard).clone();
        wrap_apart(data, self)
    }

    /// Relies on `std::sync::Arc::strong_count`: how many handles share the storage;
    /// `self` is one of them.
    #[verifier::external_body]
    pub fn use_count(&self) -> (r: usize)
        ensures
            r >= 1,
    {
        Arc::strong_count(&self.inner)
    }
}

impl Clone for SurfaceSharedData {
    /// Relies on `std::sync::Arc::clone`: another handle to the same storage.
    #[verifier::external_body]
    fn clone(&self) -> (r: SurfaceSharedData)
        ensures
            r.storage() == self.storage(),
    {
        SurfaceSharedData { inner: Arc::clone(&self.inner), id: Ghost(self.id@) }
    }
}

/// Equality is by storage: two handles are equal when they share one storage,
/// whatever the contents.
impl PartialEq for SurfaceSharedData {
    fn eq(&self, other: &SurfaceSharedData) -> (r: bool)
    {
        same_storage(self, other)
    }
}

impl vstd::std_specs::cmp::PartialEqSpecImpl for SurfaceSharedData {
    open spec fn obeys_eq_spec() -> bool {
        true
    }

    open spec fn eq_spec(&self, other: &SurfaceSharedData) -> bool {
        self.storage() == other.storage()
    }
}

} // verus!
