//! Reader-writer locks, cache slots, handles and read guards.

use vstd::prelude::*;

verus! {

#[verifier::external_type_specification]
#[verifier::external_body]
#[verifier::reject_recursive_types(T)]
pub struct ExStdRwLock<T: ?Sized>(std::sync::RwLock<T>);

#[verifier::external_type_specification]
#[verifier::external_body]
#[verifier::reject_recursive_types(T)]
pub struct ExStdRwLockReadGuard<'a, T: ?Sized>(std::sync::RwLockReadGuard<'a, T>);

#[verifier::external_type_specification]
#[verifier::external_body]
#[verifier::reject_recursive_types(T)]
pub struct ExStdRwLockWriteGuard<'a, T: ?Sized + 'a>(std::sync::RwLockWriteGuard<'a, T>);

pub assume_specification<T>[ std::sync::RwLock::<T>::new ](t: T) -> std::sync::RwLock<T>;

/// Relies on std's RwLock::read: waits while a writer holds the lock. A lock
/// poisoned by a panicking holder still hands out its guard.
#[verifier::external_body]
fn std_read<T>(lock: &std::sync::RwLock<T>) -> std::sync::RwLockReadGuard<'_, T> {
    lock.read().unwrap_or_else(std::sync::PoisonError::into_inner)
}

/// Relies on std's RwLock::write: waits while readers or a writer hold the
/// lock. A lock poisoned by a panicking holder still hands out its guard.
#[verifier::external_body]
fn std_write<T>(lock: &std::sync::RwLock<T>) -> std::sync::RwLockWriteGuard<'_, T> {
    lock.write().unwrap_or_else(std::sync::PoisonError::into_inner)
}

/// Relies on std's RwLock::into_inner: the value of the consumed lock, also
/// where a panicking holder poisoned it.
#[verifier::external_body]
fn std_into_inner<T>(lock: std::sync::RwLock<T>) -> T {
    lock.into_inner().unwrap_or_else(std::sync::PoisonError::into_inner)
}

/// Relies on Deref of std's RwLockReadGuard: the value under the read lock.
#[verifier::external_body]
fn std_read_value<'b, 'a, T>(guard: &'b std::sync::RwLockReadGuard<'a, T>) -> &'b T {
    guard
}

/// Relies on Deref of std's RwLockWriteGuard: the value under the write lock.
#[verifier::external_body]
fn std_write_value<'b, 'a, T>(guard: &'b std::sync::RwLockWriteGuard<'a, T>) -> &'b T {
    guard
}

/// Relies on DerefMut of std's RwLockWriteGuard: stores `value` under the
/// write lock.
#[verifier::external_body]
fn std_write_set<'a, T>(guard: &mut std::sync::RwLockWriteGuard<'a, T>, value: T) {
    **guard = value;
}

/// Relies on std::ptr::eq, which compares addresses. A std lock is never
/// zero-sized, so two locks alive at once never share an address; a lock
/// cannot be copied or cloned, so equal lock values are one lock.
#[verifier::external_body]
fn same_lock<T>(a: &std::sync::RwLock<T>, b: &std::sync::RwLock<T>) -> (r: bool)
    ensures
        r == (*a == *b),
{
    std::ptr::eq(a, b)
}

/// A reader-writer lock: any number of readers may hold it at once, a writer
/// holds it alone. A holder that panics does not take the value down with
/// it: later readers and writers get the lock as usual.
#[verifier::reject_recursive_types(T)]
pub struct RwLock<T> {
    inner: std::sync::RwLock<T>,
}

impl<T> RwLock<T> {
    /// The lock itself, which tells one lock from another.
    pub closed spec fn id(&self) -> std::sync::RwLock<T> {
        self.inner
    }

    /// A lock holding `inner`.
    pub fn new(inner: T) -> Self {
        RwLock { inner: std::sync::RwLock::new(inner) }
    }

    /// Consumes the lock and returns the value it holds.
    pub fn into_inner(self) -> T {
        std_into_inner(self.inner)
    }

    /// Takes a read lock, held until the guard is dropped; waits while a
    /// writer holds the lock.
    pub fn read(&self) -> RwLockReadGuard<'_, T> {
        RwLockReadGuard { guard: std_read(&self.inner) }
    }

    /// Takes the write lock, held until the guard is dropped; waits while
    /// readers or another writer hold the lock.
    pub fn write(&self) -> RwLockWriteGuard<'_, T> {
        RwLockWriteGuard { guard: std_write(&self.inner) }
    }
}

/// A held read lock; dropping it releases the lock. The value it shows stays
/// fixed while it is held.
#[verifier::reject_recursive_types(T)]
pub struct RwLockReadGuard<'a, T> {
    guard: std::sync::RwLockReadGuard<'a, T>,
}

impl<'a, T> RwLockReadGuard<'a, T> {
    /// The value under the read lock.
    pub fn get(&self) -> &T {
        std_read_value(&self.guard)
    }
}

/// A held write lock; dropping it releases the lock.
#[verifier::reject_recursive_types(T)]
pub struct RwLockWriteGuard<'a, T> {
    guard: std::sync::RwLockWriteGuard<'a, T>,
}

impl<'a, T> RwLockWriteGuard<'a, T> {
    /// The value under the write lock.
    pub fn get(&self) -> &T {
        std_write_value(&self.guard)
    }

    /// Replaces the value under the write lock.
    pub fn set(&mut self, value: T) {
        std_write_set(&mut self.guard, value);
    }
}

/// A cache slot: one value behind a reader-writer lock.
///
/// The value type is part of the slot's type, so every accessor recovers it
/// with the type the slot was made with. A reload replaces the value in
/// place, under the same lock: handles taken before it see the new value on
/// their next read.
#[verifier::reject_recursive_types(T)]
pub struct CacheEntry<T> {
    lock: RwLock<T>,
}

impl<T> CacheEntry<T> {
    /// The lock of this slot, which all its handles point to.
    pub closed spec fn lock(&self) -> std::sync::RwLock<T> {
        self.lock.id()
    }

    /// A slot holding `asset`.
    pub fn new(asset: T) -> Self {
        CacheEntry { lock: RwLock::new(asset) }
    }

    /// A handle to this slot; it takes no lock.
    pub fn get_ref(&self) -> (r: AssetRef<'_, T>)
        ensures
            r.lock() == self.lock(),
    {
        AssetRef { data: &self.lock.inner }
    }

    /// Replaces the value under the write lock, then returns a handle to this
    /// slot. The lock is not replaced, so handles taken before see `asset` on
    /// their next read.
    pub fn write(&self, asset: T) -> (r: AssetRef<'_, T>)
        ensures
            r.lock() == self.lock(),
    {
        let mut guard = self.lock.write();
        guard.set(asset);
        self.get_ref()
    }

    /// Consumes the slot and returns its value.
    pub fn into_inner(self) -> T {
        self.lock.into_inner()
    }
}

/// A handle to a slot: a borrowed, copyable reference to its lock.
#[verifier::reject_recursive_types(A)]
pub struct AssetRef<'a, A> {
    data: &'a std::sync::RwLock<A>,
}

impl<'a, A> AssetRef<'a, A> {
    /// The lock this handle points to, which tells one slot from another.
    pub closed spec fn lock(&self) -> std::sync::RwLock<A> {
        *self.data
    }

    /// Takes a read lock on the slot, held until the guard is dropped.
    pub fn read(&self) -> AssetGuard<'a, A> {
        AssetGuard { guard: std_read(self.data) }
    }

    /// Whether the two handles point to the same slot.
    pub fn ptr_eq(&self, other: &Self) -> (r: bool)
        ensures
            r == (self.lock() == other.lock()),
    {
        same_lock(self.data, other.data)
    }

    /// A clone of the value the slot holds now, taken under a read lock.
    pub fn cloned(self) -> A where A: Clone {
        let guard = self.read();
        guard.get().clone()
    }
}

impl<'a, A> Clone for AssetRef<'a, A> {
    fn clone(&self) -> (r: Self)
        ensures
            r.lock() == self.lock(),
    {
        AssetRef { data: self.data }
    }
}

impl<'a, A> Copy for AssetRef<'a, A> {}

/// A held read lock on a slot; dropping it releases the lock. The value it
/// shows stays fixed while it is held.
#[verifier::reject_recursive_types(A)]
pub struct AssetGuard<'a, A> {
    guard: std::sync::RwLockReadGuard<'a, A>,
}

impl<'a, A> AssetGuard<'a, A> {
    /// The value under the read lock.
    pub fn get(&self) -> &A {
        std_read_value(&self.guard)
    }
}

} // verus!
