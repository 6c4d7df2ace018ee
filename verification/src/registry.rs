//! Where the daemon pins its eBPF objects, and the single owner of each.
use vstd::prelude::*;

verus! {

/// The directory in the BPF file system under which the objects are pinned.
pub const ZIOFA_EBPF_PATH: &'static str = "/sys/fs/bpf/ziofa";

/// The pin path of the object `name`: the pin directory, a slash, the name.
pub fn path(name: &str) -> (p: String)
    ensures
        p@ == ZIOFA_EBPF_PATH@ + "/"@ + name@,
{
    let mut p = String::from_str(ZIOFA_EBPF_PATH);
    p.append("/");
    p.append(name);
    p
}

/// Why an object could not be taken from the registry.
#[derive(Debug, Clone, Copy, PartialEq, Eq, Structural)]
pub enum TakeError {
    /// Another owner holds it.
    AlreadyTaken,
}

/// An object of the registry with at most one owner at a time: it sits in
/// its slot until it is taken, and goes back when its owner releases it.
pub struct RegistryItem<T> {
    slot: Option<T>,
}

/// The owner's hold on an object taken from the registry.
pub struct RegistryGuard<T> {
    inner: T,
}

/// The slot and the outcome after a take: the object leaves a full slot;
/// an empty slot refuses.
pub open spec fn spec_try_take<T>(slot: Option<T>) -> (Option<T>, Result<T, TakeError>) {
    match slot {
        Some(v) => (None, Ok(v)),
        None => (None, Err(TakeError::AlreadyTaken)),
    }
}

/// The slot after the owner gives `v` back.
pub open spec fn spec_release<T>(slot: Option<T>, v: T) -> Option<T> {
    Some(v)
}

impl<T> RegistryItem<T> {
    /// What the slot holds.
    pub closed spec fn slot(&self) -> Option<T> {
        self.slot
    }

    /// An item whose slot holds `value`.
    pub fn new(value: T) -> (item: Self)
        ensures
            item.slot() == Some(value),
    {
        RegistryItem { slot: Some(value) }
    }

    /// Takes the object, unless another owner holds it.
    pub fn try_take(&mut self) -> (r: Result<RegistryGuard<T>, TakeError>)
        ensures
            final(self).slot() == spec_try_take(old(self).slot()).0,
            match spec_try_take(old(self).slot()).1 {
                Ok(v) => r matches Ok(g) && g.value() == v,
                Err(e) => r == Err::<RegistryGuard<T>, TakeError>(e),
            },
    {
        match self.slot.take() {
            Some(value) => Ok(RegistryGuard { inner: value }),
            None => Err(TakeError::AlreadyTaken),
        }
    }

    /// Takes the object, which no other owner may hold.
    pub fn take(&mut self) -> (g: RegistryGuard<T>)
        requires
            old(self).slot() is Some,
        ensures
            final(self).slot() is None,
            g.value() == old(self).slot()->Some_0,
    {
        let value = self.slot.take().unwrap();
        RegistryGuard { inner: value }
    }
}

impl<T> RegistryGuard<T> {
    /// The object held.
    pub closed spec fn value(&self) -> T {
        self.inner
    }

    /// The object held.
    pub fn get(&self) -> (r: &T)
        ensures
            *r == self.value(),
    {
        &self.inner
    }

    /// The object held, to change it; the changes stay with the guard and
    /// go back to the slot with it.
    pub fn get_mut(&mut self) -> (r: &mut T)
        ensures
            *r == old(self).value(),
            final(self).value() == *final(r),
    {
        &mut self.inner
    }

    /// Gives the object back to `item`, whose slot it came from.
    pub fn release(self, item: &mut RegistryItem<T>)
        ensures
            final(item).slot() == spec_release(old(item).slot(), self.value()),
    {
        item.slot = Some(self.inner);
    }
}

/// An object taken from a full slot can be taken by nobody else until it is
/// given back; then the slot holds it again, as before the take.
pub proof fn lemma_single_owner<T>(slot: Option<T>)
    requires
        slot is Some,
    ensures
        spec_try_take(slot).1 == Ok::<T, TakeError>(slot->Some_0),
        spec_try_take(spec_try_take(slot).0).1 == Err::<T, TakeError>(TakeError::AlreadyTaken),
        spec_release(spec_try_take(slot).0, slot->Some_0) == slot,
{
}

} // verus!
