//! The memory arena: sole owner of all native slots reachable from scripts.
//!
//! Scripts hold opaque integer handles, never addresses. Every operation is
//! validated against the live handle map before any storage is touched, so
//! use-after-free and double-free are unreachable by construction. Handle
//! issuance is monotonic: a freed handle is never reissued, so a stale
//! handle can never alias a later allocation.
use vstd::prelude::*;

use crate::kvmap;

verus! {

/// Why an arena operation was refused.
#[derive(Clone, Copy, PartialEq, Eq, Structural, Debug)]
pub enum ArenaError {
    /// The handle was never issued, or its slot was already freed.
    HandleNotFound,
    /// The slot is live but holds a value of another family.
    TypeMismatch,
}

/// One native slot: a tagged value owned exclusively by the arena.
///
/// A floating-point slot is carried as the raw bit pattern of the number;
/// the arena never computes on it, and the host converts at its edge.
pub enum Slot {
    Bytes([u8; 8]),
    Int(i64),
    FloatBits(u64),
    Text(String),
}

/// The mathematical value of a slot.
pub enum SlotModel {
    Bytes(Seq<u8>),
    Int(i64),
    FloatBits(u64),
    Text(Seq<char>),
}

impl View for Slot {
    type V = SlotModel;

    open spec fn view(&self) -> SlotModel {
        match self {
            Slot::Bytes(b) => SlotModel::Bytes(b@),
            Slot::Int(v) => SlotModel::Int(*v),
            Slot::FloatBits(v) => SlotModel::FloatBits(*v),
            Slot::Text(s) => SlotModel::Text(s@),
        }
    }
}

/// The arena: a map from live handle to slot, plus the monotonically
/// increasing issuance counter.
pub struct Arena {
    slots: Vec<(u64, Slot)>,
    next: u64,
}

impl View for Arena {
    type V = Map<u64, SlotModel>;

    closed spec fn view(&self) -> Map<u64, SlotModel> {
        kvmap::assoc_map(self.slots@)
    }
}

impl Arena {
    /// The next handle to be issued; strictly above every live handle.
    pub closed spec fn issued(&self) -> u64 {
        self.next
    }

    /// Well-formedness: live handles are pairwise distinct and all below
    /// the issuance counter.
    pub closed spec fn wf(&self) -> bool {
        &&& kvmap::distinct_keys(self.slots@)
        &&& forall|i: int| 0 <= i < self.slots@.len() ==> self.slots@[i].0 < self.next
    }

    /// What a read of each family returns on a given arena state.
    pub open spec fn spec_read_bytes(m: Map<u64, SlotModel>, h: u64) -> Result<
        Seq<u8>,
        ArenaError,
    > {
        if !m.dom().contains(h) {
            Err(ArenaError::HandleNotFound)
        } else {
            match m[h] {
                SlotModel::Bytes(b) => Ok(b),
                _ => Err(ArenaError::TypeMismatch),
            }
        }
    }

    pub open spec fn spec_read_int(m: Map<u64, SlotModel>, h: u64) -> Result<i64, ArenaError> {
        if !m.dom().contains(h) {
            Err(ArenaError::HandleNotFound)
        } else {
            match m[h] {
                SlotModel::Int(v) => Ok(v),
                _ => Err(ArenaError::TypeMismatch),
            }
        }
    }

    pub open spec fn spec_read_float_bits(m: Map<u64, SlotModel>, h: u64) -> Result<
        u64,
        ArenaError,
    > {
        if !m.dom().contains(h) {
            Err(ArenaError::HandleNotFound)
        } else {
            match m[h] {
                SlotModel::FloatBits(v) => Ok(v),
                _ => Err(ArenaError::TypeMismatch),
            }
        }
    }

    pub open spec fn spec_read_string(m: Map<u64, SlotModel>, h: u64) -> Result<
        Seq<char>,
        ArenaError,
    > {
        if !m.dom().contains(h) {
            Err(ArenaError::HandleNotFound)
        } else {
            match m[h] {
                SlotModel::Text(s) => Ok(s),
                _ => Err(ArenaError::TypeMismatch),
            }
        }
    }

    /// What a write of each family does: the new arena state, or the error
    /// that leaves the state unchanged.
    pub open spec fn spec_write_bytes(m: Map<u64, SlotModel>, h: u64, b: Seq<u8>) -> Result<
        Map<u64, SlotModel>,
        ArenaError,
    > {
        if !m.dom().contains(h) {
            Err(ArenaError::HandleNotFound)
        } else if !(m[h] is Bytes) {
            Err(ArenaError::TypeMismatch)
        } else {
            Ok(m.insert(h, SlotModel::Bytes(b)))
        }
    }

    pub open spec fn spec_write_int(m: Map<u64, SlotModel>, h: u64, v: i64) -> Result<
        Map<u64, SlotModel>,
        ArenaError,
    > {
        if !m.dom().contains(h) {
            Err(ArenaError::HandleNotFound)
        } else if !(m[h] is Int) {
            Err(ArenaError::TypeMismatch)
        } else {
            Ok(m.insert(h, SlotModel::Int(v)))
        }
    }

    pub open spec fn spec_write_float_bits(m: Map<u64, SlotModel>, h: u64, v: u64) -> Result<
        Map<u64, SlotModel>,
        ArenaError,
    > {
        if !m.dom().contains(h) {
            Err(ArenaError::HandleNotFound)
        } else if !(m[h] is FloatBits) {
            Err(ArenaError::TypeMismatch)
        } else {
            Ok(m.insert(h, SlotModel::FloatBits(v)))
        }
    }

    pub open spec fn spec_write_string(m: Map<u64, SlotModel>, h: u64, s: Seq<char>) -> Result<
        Map<u64, SlotModel>,
        ArenaError,
    > {
        if !m.dom().contains(h) {
            Err(ArenaError::HandleNotFound)
        } else if !(m[h] is Text) {
            Err(ArenaError::TypeMismatch)
        } else {
            Ok(m.insert(h, SlotModel::Text(s)))
        }
    }

    /// What a free does: removes the slot, or fails on a dead handle.
    pub open spec fn spec_free(m: Map<u64, SlotModel>, h: u64) -> Result<
        Map<u64, SlotModel>,
        ArenaError,
    > {
        if m.dom().contains(h) {
            Ok(m.remove(h))
        } else {
            Err(ArenaError::HandleNotFound)
        }
    }

    /// A fresh arena: no live slots, issuance starts at 1.
    pub fn new() -> (a: Arena)
        ensures
            a.wf(),
            a@ == Map::<u64, SlotModel>::empty(),
            a.issued() == 1,
    {
        Arena { slots: Vec::new(), next: 1 }
    }

    /// Whether another handle can still be issued; allocation on an
    /// exhausted handle space is the one fatal condition.
    pub fn handle_space_left(&self) -> (r: bool)
        ensures
            r == (self.issued() < u64::MAX),
    {
        self.next < u64::MAX
    }

    /// The position of a live handle among the stored slots, if any.
    fn find_index(&self, h: u64) -> (r: Option<usize>)
        ensures
            match r {
                Some(i) => i < self.slots@.len() && self.slots@[i as int].0 == h,
                None => !kvmap::has_key(self.slots@, h),
            },
    {
        let mut i: usize = 0;
        while i < self.slots.len()
            invariant
                i <= self.slots@.len(),
                forall|j: int| 0 <= j < i ==> self.slots@[j].0 != h,
            decreases self.slots@.len() - i,
        {
            if self.slots[i].0 == h {
                return Some(i);
            }
            i += 1;
        }
        None
    }

    /// The slot of a live handle, or `HandleNotFound`.
    fn slot_at(&self, h: u64) -> (r: Result<&Slot, ArenaError>)
        requires
            self.wf(),
        ensures
            match r {
                Ok(s) => self@.dom().contains(h) && s@ == self@[h],
                Err(e) => e == ArenaError::HandleNotFound && !self@.dom().contains(h),
            },
    {
        proof {
            kvmap::lemma_assoc_map_dom::<u64, Slot>(self.slots@);
        }
        match self.find_index(h) {
            Some(i) => {
                proof {
                    kvmap::lemma_assoc_map_index::<u64, Slot>(self.slots@, i as int);
                }
                Ok(&self.slots[i].1)
            },
            None => Err(ArenaError::HandleNotFound),
        }
    }

    /// Stores `slot` under a freshly issued handle.
    fn alloc_slot(&mut self, slot: Slot) -> (h: u64)
        requires
            old(self).wf(),
            old(self).issued() < u64::MAX,
        ensures
            final(self).wf(),
            h == old(self).issued(),
            !old(self)@.dom().contains(h),
            final(self)@ == old(self)@.insert(h, slot@),
            final(self).issued() == old(self).issued() + 1,
    {
        let h = self.next;
        proof {
            kvmap::lemma_assoc_map_dom::<u64, Slot>(self.slots@);
            kvmap::lemma_assoc_map_push(self.slots@, h, slot);
        }
        self.next = self.next + 1;
        self.slots.push((h, slot));
        h
    }

    /// Replaces the slot at position `i`, keeping its handle.
    fn put_slot(&mut self, i: usize, slot: Slot)
        requires
            old(self).wf(),
            i < old(self).slots@.len(),
        ensures
            final(self).wf(),
            final(self)@ == old(self)@.insert(old(self).slots@[i as int].0, slot@),
            final(self).issued() == old(self).issued(),
    {
        let ghost s0 = self.slots@;
        let ghost h0 = s0[i as int].0;
        let h = self.slots[i].0;
        self.slots.remove(i);
        let ghost s1 = self.slots@;
        self.slots.push((h, slot));
        proof {
            kvmap::lemma_assoc_map_remove::<u64, Slot>(s0, i as int);
            assert forall|j: int| 0 <= j < s1.len() implies s1[j].0 != h0 by {
                if j < i {
                    assert(s1[j] == s0[j]);
                } else {
                    assert(s1[j] == s0[j + 1]);
                }
            }
            assert(kvmap::distinct_keys(s1));
            kvmap::lemma_assoc_map_push(s1, h, slot);
            assert(kvmap::assoc_map(s0).remove(h0).insert(h0, slot@) =~= kvmap::assoc_map(
                s0,
            ).insert(h0, slot@));
            assert forall|j: int| 0 <= j < self.slots@.len() implies self.slots@[j].0
                < self.next by {
                if j < s1.len() {
                    assert(self.slots@[j] == s1[j]);
                }
            }
            assert(kvmap::distinct_keys(self.slots@));
        }
    }

    /// Creates a zeroed byte-block slot and returns its fresh handle.
    pub fn allocate_bytes(&mut self) -> (h: u64)
        requires
            old(self).wf(),
            old(self).issued() < u64::MAX,
        ensures
            final(self).wf(),
            h == old(self).issued(),
            !old(self)@.dom().contains(h),
            final(self)@ == old(self)@.insert(h, SlotModel::Bytes(seq![0u8; 8])),
            final(self).issued() == old(self).issued() + 1,
    {
        let block: [u8; 8] = [0u8, 0u8, 0u8, 0u8, 0u8, 0u8, 0u8, 0u8];
        let h = self.alloc_slot(Slot::Bytes(block));
        proof {
            assert(block@ =~= seq![0u8; 8]);
        }
        h
    }

    /// Creates a zero integer slot and returns its fresh handle.
    pub fn allocate_int(&mut self) -> (h: u64)
        requires
            old(self).wf(),
            old(self).issued() < u64::MAX,
        ensures
            final(self).wf(),
            h == old(self).issued(),
            !old(self)@.dom().contains(h),
            final(self)@ == old(self)@.insert(h, SlotModel::Int(0)),
            final(self).issued() == old(self).issued() + 1,
    {
        self.alloc_slot(Slot::Int(0))
    }

    /// Creates a floating-point slot holding positive zero (all bits clear)
    /// and returns its fresh handle.
    pub fn allocate_float(&mut self) -> (h: u64)
        requires
            old(self).wf(),
            old(self).issued() < u64::MAX,
        ensures
            final(self).wf(),
            h == old(self).issued(),
            !old(self)@.dom().contains(h),
            final(self)@ == old(self)@.insert(h, SlotModel::FloatBits(0)),
            final(self).issued() == old(self).issued() + 1,
    {
        self.alloc_slot(Slot::FloatBits(0))
    }

    /// Creates an empty string slot and returns its fresh handle.
    pub fn allocate_string(&mut self) -> (h: u64)
        requires
            old(self).wf(),
            old(self).issued() < u64::MAX,
        ensures
            final(self).wf(),
            h == old(self).issued(),
            !old(self)@.dom().contains(h),
            final(self)@ == old(self)@.insert(h, SlotModel::Text(Seq::empty())),
            final(self).issued() == old(self).issued() + 1,
    {
        self.alloc_slot(Slot::Text(String::new()))
    }

    /// Removes the slot of `h`; a dead handle is refused, so a free can
    /// never succeed twice on the same handle.
    pub fn free(&mut self, h: u64) -> (r: Result<(), ArenaError>)
        requires
            old(self).wf(),
        ensures
            final(self).wf(),
            final(self).issued() == old(self).issued(),
            Arena::spec_free(old(self)@, h) matches Ok(m2) ==> r is Ok && final(self)@ == m2,
            Arena::spec_free(old(self)@, h) matches Err(e) ==> r == Err::<(), ArenaError>(e)
                && final(self)@ == old(self)@,
    {
        proof {
            kvmap::lemma_assoc_map_dom::<u64, Slot>(self.slots@);
        }
        match self.find_index(h) {
            None => Err(ArenaError::HandleNotFound),
            Some(i) => {
                let ghost s0 = self.slots@;
                proof {
                    kvmap::lemma_assoc_map_remove::<u64, Slot>(s0, i as int);
                }
                self.slots.remove(i);
                proof {
                    assert forall|a: int, b: int|
                        0 <= a < b < self.slots@.len() implies self.slots@[a].0
                        != self.slots@[b].0 by {
                        assert(self.slots@[a] == if a < i {
                            s0[a]
                        } else {
                            s0[a + 1]
                        });
                        assert(self.slots@[b] == if b < i {
                            s0[b]
                        } else {
                            s0[b + 1]
                        });
                    }
                    assert forall|j: int| 0 <= j < self.slots@.len() implies self.slots@[j].0
                        < self.next by {
                        assert(self.slots@[j] == if j < i {
                            s0[j]
                        } else {
                            s0[j + 1]
                        });
                    }
                }
                Ok(())
            },
        }
    }

    /// Reads a copy of the byte block under `h`.
    pub fn read_bytes(&self, h: u64) -> (r: Result<[u8; 8], ArenaError>)
        requires
            self.wf(),
        ensures
            r matches Ok(b) ==> Arena::spec_read_bytes(self@, h) == Ok::<Seq<u8>, ArenaError>(b@),
            r matches Err(e) ==> Arena::spec_read_bytes(self@, h) == Err::<Seq<u8>, ArenaError>(e),
    {
        match self.slot_at(h) {
            Err(e) => Err(e),
            Ok(slot) => match slot {
                Slot::Bytes(b) => Ok(*b),
                _ => Err(ArenaError::TypeMismatch),
            },
        }
    }

    /// Reads a copy of the integer under `h`.
    pub fn read_int(&self, h: u64) -> (r: Result<i64, ArenaError>)
        requires
            self.wf(),
        ensures
            r == Arena::spec_read_int(self@, h),
    {
        match self.slot_at(h) {
            Err(e) => Err(e),
            Ok(slot) => match slot {
                Slot::Int(v) => Ok(*v),
                _ => Err(ArenaError::TypeMismatch),
            },
        }
    }

    /// Reads a copy of the floating-point bit pattern under `h`.
    pub fn read_float_bits(&self, h: u64) -> (r: Result<u64, ArenaError>)
        requires
            self.wf(),
        ensures
            r == Arena::spec_read_float_bits(self@, h),
    {
        match self.slot_at(h) {
            Err(e) => Err(e),
            Ok(slot) => match slot {
                Slot::FloatBits(v) => Ok(*v),
                _ => Err(ArenaError::TypeMismatch),
            },
        }
    }

    /// Reads a copy of the string under `h`.
    pub fn read_string(&self, h: u64) -> (r: Result<String, ArenaError>)
        requires
            self.wf(),
        ensures
            r matches Ok(s) ==> Arena::spec_read_string(self@, h) == Ok::<Seq<char>, ArenaError>(
                s@,
            ),
            r matches Err(e) ==> Arena::spec_read_string(self@, h) == Err::<Seq<char>, ArenaError>(
                e,
            ),
    {
        match self.slot_at(h) {
            Err(e) => Err(e),
            Ok(slot) => match slot {
                Slot::Text(s) => Ok(s.clone()),
                _ => Err(ArenaError::TypeMismatch),
            },
        }
    }

    /// Replaces the byte block under `h` in place.
    pub fn write_bytes(&mut self, h: u64, b: [u8; 8]) -> (r: Result<(), ArenaError>)
        requires
            old(self).wf(),
        ensures
            final(self).wf(),
            final(self).issued() == old(self).issued(),
            Arena::spec_write_bytes(old(self)@, h, b@) matches Ok(m2) ==> r is Ok && final(self)@ == m2,
            Arena::spec_write_bytes(old(self)@, h, b@) matches Err(e) ==> r == Err::<
                (),
                ArenaError,
            >(e) && final(self)@ == old(self)@,
    {
        proof {
            kvmap::lemma_assoc_map_dom::<u64, Slot>(self.slots@);
        }
        match self.find_index(h) {
            None => Err(ArenaError::HandleNotFound),
            Some(i) => {
                proof {
                    kvmap::lemma_assoc_map_index::<u64, Slot>(self.slots@, i as int);
                }
                let tag_ok = match &self.slots[i].1 {
                    Slot::Bytes(_) => true,
                    _ => false,
                };
                if !tag_ok {
                    return Err(ArenaError::TypeMismatch);
                }
                self.put_slot(i, Slot::Bytes(b));
                Ok(())
            },
        }
    }

    /// Replaces the integer under `h` in place.
    pub fn write_int(&mut self, h: u64, v: i64) -> (r: Result<(), ArenaError>)
        requires
            old(self).wf(),
        ensures
            final(self).wf(),
            final(self).issued() == old(self).issued(),
            Arena::spec_write_int(old(self)@, h, v) matches Ok(m2) ==> r is Ok && final(self)@ == m2,
            Arena::spec_write_int(old(self)@, h, v) matches Err(e) ==> r == Err::<(), ArenaError>(
                e,
            ) && final(self)@ == old(self)@,
    {
        proof {
            kvmap::lemma_assoc_map_dom::<u64, Slot>(self.slots@);
        }
        match self.find_index(h) {
            None => Err(ArenaError::HandleNotFound),
            Some(i) => {
                proof {
                    kvmap::lemma_assoc_map_index::<u64, Slot>(self.slots@, i as int);
                }
                let tag_ok = match &self.slots[i].1 {
                    Slot::Int(_) => true,
                    _ => false,
                };
                if !tag_ok {
                    return Err(ArenaError::TypeMismatch);
                }
                self.put_slot(i, Slot::Int(v));
                Ok(())
            },
        }
    }

    /// Replaces the floating-point bit pattern under `h` in place.
    pub fn write_float_bits(&mut self, h: u64, v: u64) -> (r: Result<(), ArenaError>)
        requires
            old(self).wf(),
        ensures
            final(self).wf(),
            final(self).issued() == old(self).issued(),
            Arena::spec_write_float_bits(old(self)@, h, v) matches Ok(m2) ==> r is Ok && final(self)@
                == m2,
            Arena::spec_write_float_bits(old(self)@, h, v) matches Err(e) ==> r == Err::<
                (),
                ArenaError,
            >(e) && final(self)@ == old(self)@,
    {
        proof {
            kvmap::lemma_assoc_map_dom::<u64, Slot>(self.slots@);
        }
        match self.find_index(h) {
            None => Err(ArenaError::HandleNotFound),
            Some(i) => {
                proof {
                    kvmap::lemma_assoc_map_index::<u64, Slot>(self.slots@, i as int);
                }
                let tag_ok = match &self.slots[i].1 {
                    Slot::FloatBits(_) => true,
                    _ => false,
                };
                if !tag_ok {
                    return Err(ArenaError::TypeMismatch);
                }
                self.put_slot(i, Slot::FloatBits(v));
                Ok(())
            },
        }
    }

    /// Replaces the string under `h` in place.
    pub fn write_string(&mut self, h: u64, s: String) -> (r: Result<(), ArenaError>)
        requires
            old(self).wf(),
        ensures
            final(self).wf(),
            final(self).issued() == old(self).issued(),
            Arena::spec_write_string(old(self)@, h, s@) matches Ok(m2) ==> r is Ok && final(self)@ == m2,
            Arena::spec_write_string(old(self)@, h, s@) matches Err(e) ==> r == Err::<
                (),
                ArenaError,
            >(e) && final(self)@ == old(self)@,
    {
        proof {
            kvmap::lemma_assoc_map_dom::<u64, Slot>(self.slots@);
        }
        match self.find_index(h) {
            None => Err(ArenaError::HandleNotFound),
            Some(i) => {
                proof {
                    kvmap::lemma_assoc_map_index::<u64, Slot>(self.slots@, i as int);
                }
                let tag_ok = match &self.slots[i].1 {
                    Slot::Text(_) => true,
                    _ => false,
                };
                if !tag_ok {
                    return Err(ArenaError::TypeMismatch);
                }
                self.put_slot(i, Slot::Text(s));
                Ok(())
            },
        }
    }
}

/// Law: allocating a byte-block slot and then writing `b` leaves a slot
/// from which a read returns exactly `b`.
pub proof fn lemma_allocate_write_read_bytes(m: Map<u64, SlotModel>, h: u64, b: Seq<u8>)
    ensures
        ({
            let allocated = m.insert(h, SlotModel::Bytes(seq![0u8; 8]));
            &&& Arena::spec_write_bytes(allocated, h, b) == Ok::<_, ArenaError>(
                allocated.insert(h, SlotModel::Bytes(b)),
            )
            &&& Arena::spec_read_bytes(allocated.insert(h, SlotModel::Bytes(b)), h) == Ok::<
                Seq<u8>,
                ArenaError,
            >(b)
        }),
{
}

/// Law: allocating an integer slot and then writing `v` leaves a slot
/// from which a read returns exactly `v`.
pub proof fn lemma_allocate_write_read_int(m: Map<u64, SlotModel>, h: u64, v: i64)
    ensures
        ({
            let allocated = m.insert(h, SlotModel::Int(0));
            &&& Arena::spec_write_int(allocated, h, v) == Ok::<_, ArenaError>(
                allocated.insert(h, SlotModel::Int(v)),
            )
            &&& Arena::spec_read_int(allocated.insert(h, SlotModel::Int(v)), h) == Ok::<
                i64,
                ArenaError,
            >(v)
        }),
{
}

/// Law: allocating a floating-point slot and then writing bits `v` leaves
/// a slot from which a read returns exactly `v`.
pub proof fn lemma_allocate_write_read_float_bits(m: Map<u64, SlotModel>, h: u64, v: u64)
    ensures
        ({
            let allocated = m.insert(h, SlotModel::FloatBits(0));
            &&& Arena::spec_write_float_bits(allocated, h, v) == Ok::<_, ArenaError>(
                allocated.insert(h, SlotModel::FloatBits(v)),
            )
            &&& Arena::spec_read_float_bits(allocated.insert(h, SlotModel::FloatBits(v)), h)
                == Ok::<u64, ArenaError>(v)
        }),
{
}

/// Law: allocating a string slot and then writing `s` leaves a slot from
/// which a read returns exactly `s`.
pub proof fn lemma_allocate_write_read_string(m: Map<u64, SlotModel>, h: u64, s: Seq<char>)
    ensures
        ({
            let allocated = m.insert(h, SlotModel::Text(Seq::empty()));
            &&& Arena::spec_write_string(allocated, h, s) == Ok::<_, ArenaError>(
                allocated.insert(h, SlotModel::Text(s)),
            )
            &&& Arena::spec_read_string(allocated.insert(h, SlotModel::Text(s)), h) == Ok::<
                Seq<char>,
                ArenaError,
            >(s)
        }),
{
}

/// Law: after a free of `h`, every read and every write on `h` fails with
/// `HandleNotFound`, whatever the slot family.
pub proof fn lemma_freed_handle_not_found(m: Map<u64, SlotModel>, h: u64)
    requires
        m.dom().contains(h),
    ensures
        Arena::spec_free(m, h) == Ok::<_, ArenaError>(m.remove(h)),
        Arena::spec_read_bytes(m.remove(h), h) == Err::<Seq<u8>, ArenaError>(
            ArenaError::HandleNotFound,
        ),
        Arena::spec_read_int(m.remove(h), h) == Err::<i64, ArenaError>(ArenaError::HandleNotFound),
        Arena::spec_read_float_bits(m.remove(h), h) == Err::<u64, ArenaError>(
            ArenaError::HandleNotFound,
        ),
        Arena::spec_read_string(m.remove(h), h) == Err::<Seq<char>, ArenaError>(
            ArenaError::HandleNotFound,
        ),
        forall|b: Seq<u8>| #[trigger] Arena::spec_write_bytes(m.remove(h), h, b) == Err::<
            Map<u64, SlotModel>,
            ArenaError,
        >(ArenaError::HandleNotFound),
        forall|v: i64| #[trigger] Arena::spec_write_int(m.remove(h), h, v) == Err::<
            Map<u64, SlotModel>,
            ArenaError,
        >(ArenaError::HandleNotFound),
        forall|v: u64| #[trigger] Arena::spec_write_float_bits(m.remove(h), h, v) == Err::<
            Map<u64, SlotModel>,
            ArenaError,
        >(ArenaError::HandleNotFound),
        forall|s: Seq<char>| #[trigger] Arena::spec_write_string(m.remove(h), h, s) == Err::<
            Map<u64, SlotModel>,
            ArenaError,
        >(ArenaError::HandleNotFound),
        Arena::spec_free(m.remove(h), h) == Err::<Map<u64, SlotModel>, ArenaError>(
            ArenaError::HandleNotFound,
        ),
{
}

/// Law: on a live slot, a read or write of any other family than the one
/// the slot holds fails with `TypeMismatch`.
pub proof fn lemma_wrong_family_mismatch(m: Map<u64, SlotModel>, h: u64)
    requires
        m.dom().contains(h),
    ensures
        !(m[h] is Bytes) ==> Arena::spec_read_bytes(m, h) == Err::<Seq<u8>, ArenaError>(
            ArenaError::TypeMismatch,
        ) && forall|b: Seq<u8>| #[trigger] Arena::spec_write_bytes(m, h, b) == Err::<
            Map<u64, SlotModel>,
            ArenaError,
        >(ArenaError::TypeMismatch),
        !(m[h] is Int) ==> Arena::spec_read_int(m, h) == Err::<i64, ArenaError>(
            ArenaError::TypeMismatch,
        ) && forall|v: i64| #[trigger] Arena::spec_write_int(m, h, v) == Err::<
            Map<u64, SlotModel>,
            ArenaError,
        >(ArenaError::TypeMismatch),
        !(m[h] is FloatBits) ==> Arena::spec_read_float_bits(m, h) == Err::<u64, ArenaError>(
            ArenaError::TypeMismatch,
        ) && forall|v: u64| #[trigger] Arena::spec_write_float_bits(m, h, v) == Err::<
            Map<u64, SlotModel>,
            ArenaError,
        >(ArenaError::TypeMismatch),
        !(m[h] is Text) ==> Arena::spec_read_string(m, h) == Err::<Seq<char>, ArenaError>(
            ArenaError::TypeMismatch,
        ) && forall|s: Seq<char>| #[trigger] Arena::spec_write_string(m, h, s) == Err::<
            Map<u64, SlotModel>,
            ArenaError,
        >(ArenaError::TypeMismatch),
{
}

} // verus!
