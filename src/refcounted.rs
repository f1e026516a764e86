use vstd::prelude::*;

verus! {

/// The count after one `add_ref`.
pub open spec fn add_ref_spec(c: nat) -> nat {
    c + 1
}

/// The count after one `release`.
pub open spec fn release_spec(c: nat) -> nat {
    (c - 1) as nat
}

/// The count after `n` clones of a handle.
pub open spec fn after_clones(c: nat, n: nat) -> nat
    decreases n,
{
    if n == 0 {
        c
    } else {
        add_ref_spec(after_clones(c, (n - 1) as nat))
    }
}

/// The count after `n` handles are dropped.
pub open spec fn after_drops(c: nat, n: nat) -> nat
    decreases n,
{
    if n == 0 {
        c
    } else {
        release_spec(after_drops(c, (n - 1) as nat))
    }
}

/// The reference count at the head of a foreign object, as the foreign side
/// keeps it. The object is freed by the foreign side when the count reaches
/// zero; the adapter only adjusts the count.
pub struct RefCount {
    address: u64,
    count: u64,
}

impl RefCount {
    /// The identity of the object.
    pub closed spec fn address(&self) -> u64 {
        self.address
    }

    /// The current count.
    pub closed spec fn count(&self) -> nat {
        self.count as nat
    }

    /// A freshly created object at `address`, holding the one reference of
    /// its creator.
    pub fn new(address: u64) -> (r: RefCount)
        ensures
            r.address() == address,
            r.count() == 1,
    {
        RefCount { address, count: 1 }
    }

    /// The current count.
    pub fn get(&self) -> (r: u64)
        ensures
            r == self.count(),
    {
        self.count
    }

    /// Takes one more reference.
    pub fn add_ref(&mut self)
        requires
            old(self).count() < u64::MAX,
        ensures
            final(self).count() == add_ref_spec(old(self).count()),
            final(self).address() == old(self).address(),
    {
        self.count = self.count + 1;
    }

    /// Gives one reference back; returns true when it was the last one, so
    /// that the foreign side frees the object.
    pub fn release(&mut self) -> (freed: bool)
        requires
            old(self).count() > 0,
        ensures
            final(self).count() == release_spec(old(self).count()),
            final(self).address() == old(self).address(),
            freed == (final(self).count() == 0),
    {
        self.count = self.count - 1;
        self.count == 0
    }

    /// Whether exactly one reference is held.
    pub fn has_one_ref(&self) -> (r: bool)
        ensures
            r == (self.count() == 1),
    {
        self.count == 1
    }

    /// Whether no reference is held any more: the foreign side has freed
    /// the object.
    pub fn is_freed(&self) -> (r: bool)
        ensures
            r == (self.count() == 0),
    {
        self.count == 0
    }
}

/// A handle that holds exactly one reference of a foreign object.
/// Equality of handles is identity of the objects.
pub struct RefCountedPtr {
    address: u64,
}

impl RefCountedPtr {
    /// The identity of the object the handle refers to.
    pub closed spec fn address(&self) -> u64 {
        self.address
    }

    /// Takes over a reference that the caller already owns, as when the
    /// foreign side hands out a pointer with its reference.
    pub fn from_ptr_unchecked(object: &RefCount) -> (r: RefCountedPtr)
        ensures
            r.address() == object.address(),
    {
        RefCountedPtr { address: object.address }
    }

    /// Takes a new reference of `object`.
    pub fn from_ptr(object: &mut RefCount) -> (r: RefCountedPtr)
        requires
            old(object).count() < u64::MAX,
        ensures
            r.address() == old(object).address(),
            final(object).address() == old(object).address(),
            final(object).count() == add_ref_spec(old(object).count()),
    {
        object.add_ref();
        RefCountedPtr { address: object.address }
    }

    /// A second handle to the same object, which takes a reference of its
    /// own.
    pub fn clone_ref(&self, object: &mut RefCount) -> (r: RefCountedPtr)
        requires
            old(object).address() == self.address(),
            old(object).count() < u64::MAX,
        ensures
            r.address() == self.address(),
            final(object).address() == old(object).address(),
            final(object).count() == add_ref_spec(old(object).count()),
    {
        object.add_ref();
        RefCountedPtr { address: self.address }
    }

    /// Drops the handle, giving its reference back; returns true when that
    /// was the last reference.
    pub fn drop_ref(self, object: &mut RefCount) -> (freed: bool)
        requires
            old(object).address() == self.address(),
            old(object).count() > 0,
        ensures
            final(object).address() == old(object).address(),
            final(object).count() == release_spec(old(object).count()),
            freed == (final(object).count() == 0),
    {
        object.release()
    }

    /// Gives up the handle without releasing its reference: the reference
    /// now belongs to whoever receives the address.
    pub fn into_raw(self) -> (r: u64)
        ensures
            r == self.address(),
    {
        self.address
    }

    /// Whether two handles refer to the same object.
    pub fn ptr_eq(&self, other: &RefCountedPtr) -> (r: bool)
        ensures
            r == (self.address() == other.address()),
    {
        self.address == other.address
    }
}

proof fn lemma_after_clones(c: nat, n: nat)
    ensures
        after_clones(c, n) == c + n,
    decreases n,
{
    if n > 0 {
        lemma_after_clones(c, (n - 1) as nat);
    }
}

proof fn lemma_after_drops(c: nat, n: nat)
    requires
        n <= c,
    ensures
        after_drops(c, n) == c - n,
    decreases n,
{
    if n > 0 {
        lemma_after_drops(c, (n - 1) as nat);
    }
}

/// Cloning a handle `n` times and then dropping `n + 1` handles leaves the
/// foreign count one below where it was before the clones.
pub proof fn lemma_clone_then_drop(c: nat, n: nat)
    requires
        c >= 1,
    ensures
        after_drops(after_clones(c, n), n + 1) == c - 1,
{
    lemma_after_clones(c, n);
    lemma_after_drops(c + n, n + 1);
}

} // verus!
