//! Local state of views: values that persist between updates of a presenter, and a shared
//! flag that records whether any of them changed.
use vstd::prelude::*;

use std::any::Any;
use std::marker::PhantomData;
use std::sync::atomic::AtomicBool;
use std::sync::atomic::Ordering;
use std::sync::Arc;
use std::sync::Mutex;

use crate::sharing::share_arc;

verus! {

/// `std::sync::Mutex`, whose contents Verus does not see.
#[verifier::external_type_specification]
#[verifier::external_body]
#[verifier::reject_recursive_types(T)]
pub struct ExMutex<T: ?Sized>(Mutex<T>);

/// `Mutex::new`: a new lock around `value`. Verus does not see the contents of a lock, so
/// nothing is stated of the result.
#[verifier::external_body]
fn new_lock<T>(value: T) -> Mutex<T> {
    Mutex::new(value)
}

/// The local slots of a view: each slot is a shared lock around a value of some type. The
/// list is held where Verus does not look, as Verus does not take its element type (a trait
/// object of `Any`).
#[verifier::external_body]
pub struct SlotList {
    slots: Vec<Arc<dyn Any + Send + Sync>>,
}

/// The number of slots in a list.
pub uninterp spec fn slot_count(slots: SlotList) -> nat;

/// `Vec::new`: a list with no slots.
#[verifier::external_body]
fn new_slots() -> (r: SlotList)
    ensures
        slot_count(r) == 0,
{
    SlotList { slots: Vec::new() }
}

/// `Vec::len`: the number of slots.
#[verifier::external_body]
fn slots_len(slots: &SlotList) -> (r: usize)
    ensures
        r == slot_count(*slots),
{
    slots.slots.len()
}

/// `Vec::push` of an `Arc::clone` of a typed slot, converted to an untyped one that refers
/// to the same lock: the list grows by one slot at its end, and the slots before it stay.
/// The slots themselves are not named, so that they stay is not stated.
#[verifier::external_body]
fn push_slot<T: Send + Sync + 'static>(slots: &mut SlotList, slot: &Arc<Mutex<T>>)
    ensures
        slot_count(*final(slots)) == slot_count(*old(slots)) + 1,
{
    slots.slots.push(Arc::clone(slot) as Arc<dyn Any + Send + Sync>);
}

/// `Arc::downcast` of a clone of slot `index`: the typed slot when the lock holds a `T`,
/// otherwise `None`. Which of the two comes back depends on what the slot was made with,
/// which Verus does not see.
#[verifier::external_body]
fn typed_slot<T: Send + Sync + 'static>(slots: &SlotList, index: usize) -> Option<Arc<Mutex<T>>>
    requires
        index < slot_count(*slots),
{
    Arc::clone(&slots.slots[index]).downcast::<Mutex<T>>().ok()
}

/// `Mutex::lock`, then `Clone::clone` of the value. The value may be changed through any
/// other handle of the lock, so nothing is stated of it. A poisoned lock (another thread
/// panicked while it held it) is read all the same, through `PoisonError::into_inner`.
#[verifier::external_body]
fn read_lock<T: Clone>(slot: &Mutex<T>) -> T {
    match slot.lock() {
        Ok(guard) => guard.clone(),
        Err(poisoned) => poisoned.into_inner().clone(),
    }
}

/// `Mutex::lock`, then an assignment of `value` to the value held. A poisoned lock is
/// written all the same, through `PoisonError::into_inner`.
#[verifier::external_body]
fn write_lock<T>(slot: &Mutex<T>, value: T) {
    match slot.lock() {
        Ok(mut guard) => *guard = value,
        Err(poisoned) => *poisoned.into_inner() = value,
    }
}

/// A handle to one local value of a view, shared with the view's [`TrackedLocals`].
#[verifier::reject_recursive_types(T)]
pub struct LocalData<T: Send + Sync + 'static> {
    changed: Arc<AtomicBool>,
    data: Arc<Mutex<T>>,
    marker: PhantomData<T>,
}

impl<T: Send + Sync + 'static> LocalData<T> {
    /// The flag that this handle sets when its value changes.
    pub closed spec fn flag(&self) -> AtomicBool {
        *self.changed
    }
}

impl<T: Send + Sync + 'static + Clone + PartialEq> LocalData<T> {
    /// Get the value of the Local. Other handles of the same local may change it at any
    /// time, so nothing is stated of the result.
    pub fn get(&self) -> T {
        read_lock(&self.data)
    }

    /// Set the value of the Local. When the new value differs from the current one, the
    /// shared change flag is raised and the value stored; otherwise nothing happens.
    pub fn set(&mut self, value: T)
        ensures
            final(self).flag() == old(self).flag(),
    {
        let current = read_lock(&self.data);
        if current != value {
            self.changed.store(true, Ordering::Relaxed);
            write_lock(&self.data, value);
        }
    }

    /// Return whether the value has been changed. The flag is shared, so nothing is stated
    /// of the result.
    pub fn is_changed(&self) -> bool {
        self.changed.load(Ordering::Relaxed)
    }
}

impl<T: Send + Sync + 'static + Clone> Clone for LocalData<T> {
    /// Another handle to the same local value, sharing the same change flag.
    fn clone(&self) -> (r: Self)
        ensures
            r.flag() == self.flag(),
    {
        LocalData {
            changed: share_arc(&self.changed),
            data: share_arc(&self.data),
            marker: PhantomData,
        }
    }
}

/// Tracks local vars used by each View tree entity.
pub struct TrackedLocals {
    changed: Arc<AtomicBool>,
    locals: SlotList,
}

impl TrackedLocals {
    /// The local slots.
    pub closed spec fn slots(&self) -> SlotList {
        self.locals
    }

    /// The shared change flag.
    pub closed spec fn flag(&self) -> AtomicBool {
        *self.changed
    }

    /// No slots, and a fresh flag that is not raised.
    pub fn new() -> (r: Self)
        ensures
            slot_count(r.slots()) == 0,
    {
        TrackedLocals { changed: Arc::new(AtomicBool::new(false)), locals: new_slots() }
    }

    /// The handle of local slot `index`. A slot that exists is reused, and `None` comes back
    /// when it holds a value of another type than `T`; when `index` is past the last slot, a
    /// new slot is appended, holding `init()`. The handle shares this tracker's change flag.
    pub fn get<T: Send + Sync + 'static + Clone + PartialEq, F: FnOnce() -> T>(
        &mut self,
        index: usize,
        init: F,
    ) -> (r: Option<LocalData<T>>)
        requires
            init.requires(()),
        ensures
            index < slot_count(old(self).slots()) ==> final(self).slots() == old(self).slots(),
            index >= slot_count(old(self).slots()) ==> {
                &&& slot_count(final(self).slots()) == slot_count(old(self).slots()) + 1
                &&& r is Some
            },
            final(self).flag() == old(self).flag(),
            r matches Some(d) ==> d.flag() == old(self).flag(),
    {
        if index < slots_len(&self.locals) {
            match typed_slot::<T>(&self.locals, index) {
                Some(data) => Some(
                    LocalData::<T> {
                        changed: share_arc(&self.changed),
                        data,
                        marker: PhantomData,
                    },
                ),
                None => None,
            }
        } else {
            let value = init();
            let data = Arc::new(new_lock(value));
            push_slot(&mut self.locals, &data);
            Some(LocalData::<T> { changed: share_arc(&self.changed), data, marker: PhantomData })
        }
    }

    /// Return whether this resource has been changed, and also atomically set it to unchanged.
    /// The flag is shared, so nothing is stated of the result.
    pub fn cas(&self) -> bool {
        self.changed.swap(false, Ordering::Relaxed)
    }

    /// Return whether this resource has been changed. The flag is shared, so nothing is
    /// stated of the result.
    pub fn is_changed(&self) -> bool {
        self.changed.load(Ordering::Relaxed)
    }

    /// Reset the 'changed' bit.
    pub fn reset_changed(&mut self)
        ensures
            final(self).slots() == old(self).slots(),
            final(self).flag() == old(self).flag(),
    {
        self.changed.store(false, Ordering::Relaxed);
    }
}

} // verus!
