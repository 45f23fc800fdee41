//! A model of the named shared-memory fabric: fixed-size segments keyed by
//! a numeric instance id, attachable from several handles, with byte and
//! 32-bit-word views, a whole-segment advisory exclusive lock, and explicit
//! owning-versus-attaching cleanup.
//!
//! The namespace value stands for the operating system's shared-memory
//! name space: every handle opened under the same id reads and writes the
//! same bytes, which is what lets cooperating processes exchange frames.

use vstd::prelude::*;

verus! {

/// Why a shared-memory operation was refused.
#[derive(Clone, Copy, PartialEq, Eq, Structural, Debug)]
pub enum ShmError {
    /// `open` requires the segment to pre-exist, and it does not.
    NotFound,
    /// The segment exists with a different length than requested; a
    /// segment's length is fixed at creation and never resized.
    SizeMismatch,
    /// The name was already removed from the namespace.
    AlreadyUnlinked,
}

/// The mathematical value of one named segment: its bytes and its advisory
/// lock state.
#[verifier::ext_equal]
pub ghost struct SegmentModel {
    pub data: Seq<u8>,
    pub locked: bool,
}

struct ShmSegment {
    id: u32,
    data: Vec<u8>,
    locked: bool,
}

/// The shared-memory name space: the segments that currently exist, keyed
/// by instance id.
pub struct ShmNamespace {
    entries: Vec<ShmSegment>,
}

spec fn seg_model_of(e: ShmSegment) -> SegmentModel {
    SegmentModel { data: e.data@, locked: e.locked }
}

spec fn seg_lookup(entries: Seq<ShmSegment>, id: u32) -> Option<SegmentModel>
    decreases entries.len(),
{
    if entries.len() == 0 {
        None::<SegmentModel>
    } else if entries[0].id == id {
        Some(seg_model_of(entries[0]))
    } else {
        seg_lookup(entries.drop_first(), id)
    }
}

/// The first index holding `id`, if any.
spec fn seg_position(entries: Seq<ShmSegment>, id: u32) -> Option<int>
    decreases entries.len(),
{
    if entries.len() == 0 {
        None::<int>
    } else if entries[0].id == id {
        Some(0)
    } else {
        match seg_position(entries.drop_first(), id) {
            Some(i) => Some(i + 1),
            None => None,
        }
    }
}

proof fn lemma_seg_position_char(entries: Seq<ShmSegment>, id: u32)
    ensures
        match seg_position(entries, id) {
            Some(i) => {
                &&& 0 <= i < entries.len()
                &&& entries[i].id == id
                &&& forall|k: int| 0 <= k < i ==> (#[trigger] entries[k]).id != id
                &&& seg_lookup(entries, id) == Some(seg_model_of(entries[i]))
            },
            None => {
                &&& forall|k: int| 0 <= k < entries.len() ==> (#[trigger] entries[k]).id != id
                &&& seg_lookup(entries, id) is None
            },
        },
    decreases entries.len(),
{
    if entries.len() == 0 {
    } else if entries[0].id == id {
    } else {
        let rest = entries.drop_first();
        lemma_seg_position_char(rest, id);
        assert(seg_lookup(entries, id) == seg_lookup(rest, id));
        match seg_position(rest, id) {
            Some(i) => {
                assert(seg_position(entries, id) == Some(i + 1));
                assert(rest[i] == entries[i + 1]);
                assert forall|k: int| 0 <= k < i + 1 implies (#[trigger] entries[k]).id != id by {
                    if k > 0 {
                        assert(rest[k - 1] == entries[k]);
                        assert(rest[k - 1].id != id);
                    }
                }
            },
            None => {
                assert forall|k: int|
                    0 <= k < entries.len() implies (#[trigger] entries[k]).id != id by {
                    if k > 0 {
                        assert(rest[k - 1] == entries[k]);
                        assert(rest[k - 1].id != id);
                    }
                }
            },
        }
    }
}

/// Replacing the entry at the first position of `id` with another entry of
/// the same id changes only that id's lookup.
proof fn lemma_seg_replace(entries: Seq<ShmSegment>, id: u32, i: int, e: ShmSegment)
    requires
        seg_position(entries, id) == Some(i),
        e.id == id,
    ensures
        seg_lookup(entries.update(i, e), id) == Some(seg_model_of(e)),
        forall|other: u32| other != id ==> seg_lookup(entries.update(i, e), other) == seg_lookup(
            entries,
            other,
        ),
    decreases entries.len(),
{
    lemma_seg_position_char(entries, id);
    let u = entries.update(i, e);
    if i == 0 {
        assert(entries[0].id == id);
        assert(u[0] == e);
        assert(u.drop_first() =~= entries.drop_first());
        assert(seg_lookup(u, id) == Some(seg_model_of(e)));
        assert forall|other: u32| other != id implies seg_lookup(u, other) == seg_lookup(
            entries,
            other,
        ) by {
            assert(seg_lookup(u, other) == seg_lookup(u.drop_first(), other));
            assert(seg_lookup(entries, other) == seg_lookup(entries.drop_first(), other));
        }
    } else {
        assert(entries[0].id != id);
        assert(seg_position(entries.drop_first(), id) == Some(i - 1));
        lemma_seg_replace(entries.drop_first(), id, i - 1, e);
        assert(u[0] == entries[0]);
        assert(u.drop_first() =~= entries.drop_first().update(i - 1, e));
        assert(seg_lookup(u, id) == seg_lookup(u.drop_first(), id));
        assert forall|other: u32| other != id implies seg_lookup(u, other) == seg_lookup(
            entries,
            other,
        ) by {
            if u[0].id != other {
                assert(seg_lookup(u, other) == seg_lookup(u.drop_first(), other));
                assert(seg_lookup(entries, other) == seg_lookup(entries.drop_first(), other));
            }
        }
    }
}

/// Appending an entry under a fresh id adds that id and changes no other.
proof fn lemma_seg_append(entries: Seq<ShmSegment>, e: ShmSegment)
    requires
        seg_lookup(entries, e.id) is None,
    ensures
        seg_lookup(entries.push(e), e.id) == Some(seg_model_of(e)),
        forall|other: u32| other != e.id ==> seg_lookup(entries.push(e), other) == seg_lookup(
            entries,
            other,
        ),
    decreases entries.len(),
{
    lemma_seg_position_char(entries, e.id);
    let u = entries.push(e);
    if entries.len() == 0 {
        assert(u[0] == e);
        assert(seg_lookup(u, e.id) == Some(seg_model_of(e)));
        assert forall|other: u32| other != e.id implies seg_lookup(u, other) == seg_lookup(
            entries,
            other,
        ) by {
            assert(u.drop_first() =~= Seq::<ShmSegment>::empty());
            assert(seg_lookup(u, other) == seg_lookup(u.drop_first(), other));
        }
    } else {
        assert(entries[0].id != e.id);
        assert(seg_lookup(entries.drop_first(), e.id) is None);
        lemma_seg_append(entries.drop_first(), e);
        assert(u[0] == entries[0]);
        assert(u.drop_first() =~= entries.drop_first().push(e));
        assert(seg_lookup(u, e.id) == seg_lookup(u.drop_first(), e.id));
        assert forall|other: u32| other != e.id implies seg_lookup(u, other) == seg_lookup(
            entries,
            other,
        ) by {
            if u[0].id != other {
                assert(seg_lookup(u, other) == seg_lookup(u.drop_first(), other));
                assert(seg_lookup(entries, other) == seg_lookup(entries.drop_first(), other));
            }
        }
    }
}

/// Removing the first entry of `id` changes no other id's lookup.
proof fn lemma_seg_remove_first(entries: Seq<ShmSegment>, id: u32, i: int)
    requires
        seg_position(entries, id) == Some(i),
    ensures
        forall|other: u32| other != id ==> seg_lookup(entries.remove(i), other) == seg_lookup(
            entries,
            other,
        ),
    decreases entries.len(),
{
    lemma_seg_position_char(entries, id);
    let u = entries.remove(i);
    if i == 0 {
        assert(entries[0].id == id);
        assert(u =~= entries.drop_first());
        assert forall|other: u32| other != id implies seg_lookup(u, other) == seg_lookup(
            entries,
            other,
        ) by {
            assert(seg_lookup(entries, other) == seg_lookup(entries.drop_first(), other));
        }
    } else {
        assert(entries[0].id != id);
        assert(seg_position(entries.drop_first(), id) == Some(i - 1));
        lemma_seg_remove_first(entries.drop_first(), id, i - 1);
        assert(u[0] == entries[0]);
        assert(u.drop_first() =~= entries.drop_first().remove(i - 1));
        assert forall|other: u32| other != id implies seg_lookup(u, other) == seg_lookup(
            entries,
            other,
        ) by {
            if u[0].id != other {
                assert(seg_lookup(u, other) == seg_lookup(u.drop_first(), other));
                assert(seg_lookup(entries, other) == seg_lookup(entries.drop_first(), other));
            }
        }
    }
}

/// Removes every entry under `id`; this module's operations create at most
/// one, but the removal does not have to rely on that.
fn remove_name(ns: &mut ShmNamespace, id: u32)
    ensures
        final(ns).segment(id) is None,
        forall|other: u32| other != id ==> final(ns).segment(other) == old(ns).segment(other),
{
    loop
        invariant
            forall|other: u32| other != id ==> ns.segment(other) == old(ns).segment(other),
        ensures
            ns.segment(id) is None,
            forall|other: u32| other != id ==> ns.segment(other) == old(ns).segment(other),
        decreases ns.entries@.len(),
    {
        match ns.find(id) {
            Some(i) => {
                proof {
                    lemma_seg_position_char(ns.entries@, id);
                    lemma_seg_remove_first(ns.entries@, id, i as int);
                }
                let _ = ns.entries.remove(i);
            },
            None => {
                break ;
            },
        }
    }
}

impl ShmNamespace {
    /// What the namespace holds under `id`: the segment's current bytes and
    /// lock state, or nothing once the name is absent or unlinked.
    pub closed spec fn segment(&self, id: u32) -> Option<SegmentModel> {
        seg_lookup(self.entries@, id)
    }

    /// An empty name space: no segment exists under any id.
    pub fn new() -> (r: Self)
        ensures
            forall|id: u32| r.segment(id) is None,
    {
        let r = ShmNamespace { entries: Vec::new() };
        proof {
            assert forall|id: u32| r.segment(id) is None by {
                lemma_seg_position_char(r.entries@, id);
            }
        }
        r
    }

    /// The first index of `id` among the entries, if the id exists.
    fn find(&self, id: u32) -> (r: Option<usize>)
        ensures
            match r {
                Some(i) => seg_position(self.entries@, id) == Some(i as int),
                None => self.segment(id) is None,
            },
    {
        proof {
            lemma_seg_position_char(self.entries@, id);
        }
        for i in 0..self.entries.len()
            invariant
                forall|k: int| 0 <= k < i ==> (#[trigger] self.entries@[k]).id != id,
        {
            if self.entries[i].id == id {
                proof {
                    lemma_seg_position_char(self.entries@, id);
                    if seg_position(self.entries@, id) is None {
                        assert(self.entries@[i as int].id != id);
                    }
                    let p = seg_position(self.entries@, id)->Some_0;
                    if p < i {
                        assert(self.entries@[p].id != id);
                    }
                    if p > i {
                        assert(self.entries@[i as int].id != id);
                    }
                }
                return Some(i);
            }
        }
        None
    }
}

fn zero_vec(n: usize) -> (r: Vec<u8>)
    ensures
        r@ == Seq::new(n as nat, |i: int| 0u8),
{
    let mut r: Vec<u8> = Vec::new();
    for k in 0..n
        invariant
            r@.len() == k,
            forall|j: int| 0 <= j < k ==> r@[j] == 0u8,
    {
        r.push(0);
    }
    proof {
        assert(r@ =~= Seq::new(n as nat, |i: int| 0u8));
    }
    r
}

/// A handle attached to one named, fixed-size segment.  Whether the handle
/// owns the name (and so must eventually unlink it) is an explicit flag;
/// attaching handles never clean up.
pub struct SharedMemory {
    id: u32,
    data_size: usize,
    unlink_on_drop: bool,
}

impl SharedMemory {
    /// The instance id whose name this handle is attached to.
    pub closed spec fn id_spec(&self) -> u32 {
        self.id
    }

    /// The fixed byte length this handle was opened with.
    pub closed spec fn size_spec(&self) -> usize {
        self.data_size
    }

    /// The handle matches the namespace: its segment exists and has the
    /// length the handle was opened with.
    pub open spec fn attached(&self, ns: &ShmNamespace) -> bool {
        match ns.segment(self.id_spec()) {
            Some(m) => m.data.len() == self.size_spec(),
            None => false,
        }
    }

    /// Attaches to the segment named by `id`, creating it zero-filled when
    /// absent.  Fails only when the name exists with a different length.
    pub fn open_or_create(ns: &mut ShmNamespace, id: u32, data_size: usize) -> (r: Result<
        Self,
        ShmError,
    >)
        ensures
            match r {
                Ok(h) => {
                    &&& h.id_spec() == id
                    &&& h.size_spec() == data_size
                    &&& !h.unlink_on_drop_spec()
                    &&& h.attached(final(ns))
                    &&& (old(ns).segment(id) is Some ==> final(ns).segment(id) == old(
                        ns,
                    ).segment(id))
                    &&& (old(ns).segment(id) is None ==> final(ns).segment(id) == Some(
                        SegmentModel {
                            data: Seq::new(data_size as nat, |i: int| 0u8),
                            locked: false,
                        },
                    ))
                },
                Err(e) => {
                    &&& e == ShmError::SizeMismatch
                    &&& old(ns).segment(id) is Some
                    &&& old(ns).segment(id)->Some_0.data.len() != data_size
                    &&& *final(ns) == *old(ns)
                },
            },
            r is Ok <==> (old(ns).segment(id) is None || old(ns).segment(id)->Some_0.data.len()
                == data_size),
            forall|other: u32| other != id ==> final(ns).segment(other) == old(ns).segment(other),
    {
        match ns.find(id) {
            Some(i) => {
                proof {
                    lemma_seg_position_char(ns.entries@, id);
                }
                if ns.entries[i].data.len() == data_size {
                    Ok(SharedMemory { id, data_size, unlink_on_drop: false })
                } else {
                    Err(ShmError::SizeMismatch)
                }
            },
            None => {
                let seg = ShmSegment { id, data: zero_vec(data_size), locked: false };
                proof {
                    lemma_seg_append(ns.entries@, seg);
                }
                ns.entries.push(seg);
                Ok(SharedMemory { id, data_size, unlink_on_drop: false })
            },
        }
    }

    /// Attaches to the segment named by `id`, which must already exist
    /// with exactly the requested length; never creates.
    pub fn open(ns: &mut ShmNamespace, id: u32, data_size: usize) -> (r: Result<Self, ShmError>)
        ensures
            *final(ns) == *old(ns),
            match r {
                Ok(h) => {
                    &&& h.id_spec() == id
                    &&& h.size_spec() == data_size
                    &&& !h.unlink_on_drop_spec()
                    &&& h.attached(final(ns))
                },
                Err(e) => {
                    &&& (e == ShmError::NotFound <==> old(ns).segment(id) is None)
                    &&& (e == ShmError::SizeMismatch <==> (old(ns).segment(id) is Some && old(
                        ns,
                    ).segment(id)->Some_0.data.len() != data_size))
                },
            },
            r is Ok <==> (old(ns).segment(id) is Some && old(ns).segment(id)->Some_0.data.len()
                == data_size),
    {
        match ns.find(id) {
            Some(i) => {
                proof {
                    lemma_seg_position_char(ns.entries@, id);
                }
                if ns.entries[i].data.len() == data_size {
                    Ok(SharedMemory { id, data_size, unlink_on_drop: false })
                } else {
                    Err(ShmError::SizeMismatch)
                }
            },
            None => Err(ShmError::NotFound),
        }
    }

    /// Whether this handle owns the name and will remove it on `detach`.
    pub closed spec fn unlink_on_drop_spec(&self) -> bool {
        self.unlink_on_drop
    }

    pub fn unlink_on_drop(&self) -> (r: bool)
        ensures
            r == self.unlink_on_drop_spec(),
    {
        self.unlink_on_drop
    }

    pub fn set_unlink_on_drop(&mut self, value: bool)
        ensures
            final(self).unlink_on_drop_spec() == value,
            final(self).id_spec() == old(self).id_spec(),
            final(self).size_spec() == old(self).size_spec(),
    {
        self.unlink_on_drop = value;
    }

    /// The byte at `offset`, as any attachment to this name currently sees
    /// it.
    pub fn read_byte(&self, ns: &ShmNamespace, offset: usize) -> (r: u8)
        requires
            self.attached(ns),
            offset < self.size_spec(),
        ensures
            r == ns.segment(self.id_spec())->Some_0.data[offset as int],
    {
        let i = match ns.find(self.id) {
            Some(i) => i,
            None => {
                proof {
                    assert(false);
                }
                0
            },
        };
        proof {
            lemma_seg_position_char(ns.entries@, self.id);
        }
        ns.entries[i].data[offset]
    }

    /// Writes the byte at `offset`; every other attachment to this name
    /// sees the new value, every other byte and every other segment is
    /// unchanged.
    pub fn write_byte(&self, ns: &mut ShmNamespace, offset: usize, value: u8)
        requires
            self.attached(old(ns)),
            offset < self.size_spec(),
        ensures
            final(ns).segment(self.id_spec()) == Some(
                SegmentModel {
                    data: old(ns).segment(self.id_spec())->Some_0.data.update(
                        offset as int,
                        value,
                    ),
                    locked: old(ns).segment(self.id_spec())->Some_0.locked,
                },
            ),
            forall|other: u32| other != self.id_spec() ==> final(ns).segment(other) == old(
                ns,
            ).segment(other),
    {
        let i = match ns.find(self.id) {
            Some(i) => i,
            None => {
                proof {
                    assert(false);
                }
                0
            },
        };
        proof {
            lemma_seg_position_char(ns.entries@, self.id);
        }
        let ghost entries0 = ns.entries@;
        let mut seg = ns.entries.remove(i);
        seg.data.set(offset, value);
        ns.entries.insert(i, seg);
        proof {
            assert(ns.entries@ =~= entries0.update(i as int, ns.entries@[i as int]));
            assert(ns.entries@[i as int].id == self.id);
            assert(ns.entries@[i as int].data@ =~= entries0[i as int].data@.update(
                offset as int,
                value,
            ));
            assert(ns.entries@[i as int].locked == entries0[i as int].locked);
            lemma_seg_replace(entries0, self.id, i as int, ns.entries@[i as int]);
        }
    }

    /// The number of 32-bit words the word view holds.
    pub fn word_len(&self) -> (r: usize)
        ensures
            r == self.size_spec() / 4,
    {
        self.data_size / 4
    }

    /// The 32-bit word at word index `index`: four consecutive bytes in
    /// little-endian order, as the word view of the mapping shows them.
    pub fn read_word(&self, ns: &ShmNamespace, index: usize) -> (r: u32)
        requires
            self.attached(ns),
            index < self.size_spec() / 4,
        ensures
            r == word_at(ns.segment(self.id_spec())->Some_0.data, index as int),
    {
        let b0 = self.read_byte(ns, 4 * index);
        let b1 = self.read_byte(ns, 4 * index + 1);
        let b2 = self.read_byte(ns, 4 * index + 2);
        let b3 = self.read_byte(ns, 4 * index + 3);
        b0 as u32 + (b1 as u32) * 0x100 + (b2 as u32) * 0x1_0000 + (b3 as u32) * 0x100_0000
    }

    /// Writes the 32-bit word at word index `index` into its four bytes,
    /// little-endian; nothing else changes.
    pub fn write_word(&self, ns: &mut ShmNamespace, index: usize, value: u32)
        requires
            self.attached(old(ns)),
            index < self.size_spec() / 4,
        ensures
            final(ns).segment(self.id_spec()) == Some(
                SegmentModel {
                    data: old(ns).segment(self.id_spec())->Some_0.data.update(
                        4 * index as int,
                        (value % 0x100) as u8,
                    ).update(4 * index as int + 1, ((value / 0x100) % 0x100) as u8).update(
                        4 * index as int + 2,
                        ((value / 0x1_0000) % 0x100) as u8,
                    ).update(4 * index as int + 3, (value / 0x100_0000) as u8),
                    locked: old(ns).segment(self.id_spec())->Some_0.locked,
                },
            ),
            word_at(final(ns).segment(self.id_spec())->Some_0.data, index as int) == value,
            forall|other: u32| other != self.id_spec() ==> final(ns).segment(other) == old(
                ns,
            ).segment(other),
    {
        let b0 = (value % 0x100) as u8;
        let b1 = ((value / 0x100) % 0x100) as u8;
        let b2 = ((value / 0x1_0000) % 0x100) as u8;
        let b3 = (value / 0x100_0000) as u8;
        self.write_byte(ns, 4 * index, b0);
        self.write_byte(ns, 4 * index + 1, b1);
        self.write_byte(ns, 4 * index + 2, b2);
        self.write_byte(ns, 4 * index + 3, b3);
    }

    /// Takes the whole-segment advisory exclusive lock.  The lock is a
    /// convention, not an enforcement: it keeps no one from reading or
    /// writing without locking.  A call while the lock is held would block
    /// until the holder releases it, so the contract asks for it free.
    pub fn lock(&self, ns: &mut ShmNamespace)
        requires
            self.attached(old(ns)),
            !old(ns).segment(self.id_spec())->Some_0.locked,
        ensures
            final(ns).segment(self.id_spec()) == Some(
                with_lock_state(old(ns).segment(self.id_spec())->Some_0, true),
            ),
            forall|other: u32| other != self.id_spec() ==> final(ns).segment(other) == old(
                ns,
            ).segment(other),
    {
        self.set_locked(ns, true);
    }

    /// Releases the advisory lock, completing the critical section.
    pub fn unlock(&self, ns: &mut ShmNamespace)
        requires
            self.attached(old(ns)),
        ensures
            final(ns).segment(self.id_spec()) == Some(
                with_lock_state(old(ns).segment(self.id_spec())->Some_0, false),
            ),
            forall|other: u32| other != self.id_spec() ==> final(ns).segment(other) == old(
                ns,
            ).segment(other),
    {
        self.set_locked(ns, false);
    }

    fn set_locked(&self, ns: &mut ShmNamespace, value: bool)
        requires
            self.attached(old(ns)),
        ensures
            final(ns).segment(self.id_spec()) == Some(
                with_lock_state(old(ns).segment(self.id_spec())->Some_0, value),
            ),
            forall|other: u32| other != self.id_spec() ==> final(ns).segment(other) == old(
                ns,
            ).segment(other),
    {
        let i = match ns.find(self.id) {
            Some(i) => i,
            None => {
                proof {
                    assert(false);
                }
                0
            },
        };
        proof {
            lemma_seg_position_char(ns.entries@, self.id);
        }
        let ghost entries0 = ns.entries@;
        let mut seg = ns.entries.remove(i);
        seg.locked = value;
        ns.entries.insert(i, seg);
        proof {
            assert(ns.entries@ =~= entries0.update(i as int, ns.entries@[i as int]));
            assert(ns.entries@[i as int].id == self.id);
            assert(ns.entries@[i as int].data@ == entries0[i as int].data@);
            assert(ns.entries@[i as int].locked == value);
            lemma_seg_replace(entries0, self.id, i as int, ns.entries@[i as int]);
        }
    }

    /// Removes the name from the namespace; late-binding `open` callers
    /// fail afterwards.  Removing an already-removed name is the
    /// double-unlink programming error and is reported, not recovered.
    pub fn unlink(self, ns: &mut ShmNamespace) -> (r: Result<(), ShmError>)
        ensures
            r is Ok <==> old(ns).segment(self.id_spec()) is Some,
            r is Err ==> r == Result::<(), ShmError>::Err(ShmError::AlreadyUnlinked) && *final(ns)
                == *old(ns),
            final(ns).segment(self.id_spec()) is None,
            forall|other: u32| other != self.id_spec() ==> final(ns).segment(other) == old(
                ns,
            ).segment(other),
    {
        match ns.find(self.id) {
            Some(_) => {
                proof {
                    lemma_seg_position_char(ns.entries@, self.id);
                }
                remove_name(ns, self.id);
                Ok(())
            },
            None => Err(ShmError::AlreadyUnlinked),
        }
    }

    /// Ends this handle's attachment: an owning handle (its unlink flag
    /// set) removes the name, an attaching handle leaves it for the owner.
    /// Copies out the whole byte view, as the segment currently stands.
    pub fn read_bytes(&self, ns: &ShmNamespace) -> (r: Vec<u8>)
        requires
            self.attached(ns),
        ensures
            r@ == ns.segment(self.id_spec())->Some_0.data,
    {
        let mut r: Vec<u8> = Vec::new();
        let n = self.data_size;
        for k in 0..n
            invariant
                self.attached(ns),
                n == self.size_spec(),
                r@.len() == k,
                forall|j: int| 0 <= j < k ==> r@[j] == ns.segment(self.id_spec())->Some_0.data[j],
        {
            r.push(self.read_byte(ns, k));
        }
        proof {
            assert(r@ =~= ns.segment(self.id_spec())->Some_0.data);
        }
        r
    }

    /// Replaces the whole byte view with `src`, which must fill the
    /// segment exactly; the lock state is untouched.
    pub fn write_bytes(&self, ns: &mut ShmNamespace, src: &Vec<u8>)
        requires
            self.attached(old(ns)),
            src@.len() == self.size_spec(),
        ensures
            final(ns).segment(self.id_spec()) == Some(
                SegmentModel {
                    data: src@,
                    locked: old(ns).segment(self.id_spec())->Some_0.locked,
                },
            ),
            forall|other: u32| other != self.id_spec() ==> final(ns).segment(other) == old(
                ns,
            ).segment(other),
    {
        let n = self.data_size;
        let ghost orig = old(ns).segment(self.id_spec())->Some_0;
        for k in 0..n
            invariant
                n == self.size_spec(),
                src@.len() == n,
                self.attached(ns),
                ns.segment(self.id_spec()) matches Some(m) && m.locked == orig.locked && m.data.len()
                    == n && (forall|j: int| 0 <= j < k ==> m.data[j] == src@[j]) && (forall|j: int|
                    k <= j < n ==> m.data[j] == orig.data[j]),
                forall|other: u32| other != self.id_spec() ==> ns.segment(other) == old(
                    ns,
                ).segment(other),
        {
            self.write_byte(ns, k, src[k]);
        }
        proof {
            assert(ns.segment(self.id_spec())->Some_0.data =~= src@);
            assert(ns.segment(self.id_spec())->Some_0 =~= (SegmentModel {
                data: src@,
                locked: orig.locked,
            }));
        }
    }

    /// Copies out the whole word view: `size / 4` little-endian words.
    pub fn read_words(&self, ns: &ShmNamespace) -> (r: Vec<u32>)
        requires
            self.attached(ns),
        ensures
            r@.len() == self.size_spec() / 4,
            forall|i: int| 0 <= i < r@.len() ==> r@[i] == word_at(
                ns.segment(self.id_spec())->Some_0.data,
                i,
            ),
    {
        let mut r: Vec<u32> = Vec::new();
        let n = self.data_size / 4;
        for k in 0..n
            invariant
                self.attached(ns),
                n == self.size_spec() / 4,
                r@.len() == k,
                forall|j: int| 0 <= j < k ==> r@[j] == word_at(
                    ns.segment(self.id_spec())->Some_0.data,
                    j,
                ),
        {
            r.push(self.read_word(ns, k));
        }
        r
    }

    /// Replaces the whole word view with `words`, which must fill the
    /// segment exactly; the lock state is untouched.
    pub fn write_words(&self, ns: &mut ShmNamespace, words: &Vec<u32>)
        requires
            self.attached(old(ns)),
            4 * words@.len() == self.size_spec(),
        ensures
            final(ns).segment(self.id_spec()) == Some(
                SegmentModel {
                    data: words_to_bytes(words@),
                    locked: old(ns).segment(self.id_spec())->Some_0.locked,
                },
            ),
            forall|other: u32| other != self.id_spec() ==> final(ns).segment(other) == old(
                ns,
            ).segment(other),
    {
        let n = words.len();
        let ghost orig = old(ns).segment(self.id_spec())->Some_0;
        for k in 0..n
            invariant
                4 * n == self.size_spec(),
                words@.len() == n,
                self.attached(ns),
                ns.segment(self.id_spec()) matches Some(m) && m.locked == orig.locked && m.data.len()
                    == 4 * n && (forall|j: int| 0 <= j < 4 * k ==> m.data[j] == words_to_bytes(
                    words@,
                )[j]) && (forall|j: int| 4 * k <= j < 4 * n ==> m.data[j] == orig.data[j]),
                forall|other: u32| other != self.id_spec() ==> ns.segment(other) == old(
                    ns,
                ).segment(other),
        {
            self.write_word(ns, k, words[k]);
            proof {
                let m = ns.segment(self.id_spec())->Some_0;
                assert forall|j: int| 0 <= j < 4 * (k + 1) implies m.data[j] == words_to_bytes(
                    words@,
                )[j] by {
                    if 4 * k <= j {
                        assert(j / 4 == k as int) by (nonlinear_arith)
                            requires
                                4 * k <= j < 4 * (k + 1),
                        ;
                        assert(words_to_bytes(words@)[j] == word_byte(words@[k as int], j % 4));
                    }
                }
            }
        }
        proof {
            assert(ns.segment(self.id_spec())->Some_0.data =~= words_to_bytes(words@));
            assert(ns.segment(self.id_spec())->Some_0 =~= (SegmentModel {
                data: words_to_bytes(words@),
                locked: orig.locked,
            }));
        }
    }

    pub fn detach(self, ns: &mut ShmNamespace)
        requires
            self.unlink_on_drop_spec() ==> old(ns).segment(self.id_spec()) is Some,
        ensures
            self.unlink_on_drop_spec() ==> final(ns).segment(self.id_spec()) is None,
            !self.unlink_on_drop_spec() ==> *final(ns) == *old(ns),
            forall|other: u32| other != self.id_spec() ==> final(ns).segment(other) == old(
                ns,
            ).segment(other),
    {
        if self.unlink_on_drop {
            let _ = self.unlink(ns);
        }
    }
}

/// The 32-bit word a word view shows at word index `i`: the four bytes
/// `4*i .. 4*i + 4` in little-endian order.
pub open spec fn word_at(data: Seq<u8>, i: int) -> u32
    recommends
        0 <= i,
        4 * i + 4 <= data.len(),
{
    (data[4 * i] + data[4 * i + 1] * 0x100 + data[4 * i + 2] * 0x1_0000 + data[4 * i + 3]
        * 0x100_0000) as u32
}

/// Byte `j` (little-endian, `0 <= j < 4`) of a 32-bit word.
pub open spec fn word_byte(w: u32, j: int) -> u8 {
    if j == 0 {
        (w % 0x100) as u8
    } else if j == 1 {
        ((w / 0x100) % 0x100) as u8
    } else if j == 2 {
        ((w / 0x1_0000) % 0x100) as u8
    } else {
        (w / 0x100_0000) as u8
    }
}

/// The byte view that holds the given words: each word spread over four
/// consecutive little-endian bytes.
pub open spec fn words_to_bytes(words: Seq<u32>) -> Seq<u8> {
    Seq::new(4 * words.len(), |k: int| word_byte(words[k / 4], k % 4))
}

/// The word and byte views agree: reading word `i` of the byte view that
/// holds `words` gives back `words[i]`.
pub proof fn lemma_words_roundtrip(words: Seq<u32>, i: int)
    requires
        0 <= i < words.len(),
    ensures
        word_at(words_to_bytes(words), i) == words[i],
{
    let bs = words_to_bytes(words);
    let w = words[i];
    assert forall|j: int| 0 <= j < 4 implies bs[4 * i + j] == word_byte(w, j) by {
        assert((4 * i + j) / 4 == i && (4 * i + j) % 4 == j) by (nonlinear_arith)
            requires
                0 <= i,
                0 <= j < 4,
        ;
    }
    assert(word_at(bs, i) == (word_byte(w, 0) + word_byte(w, 1) * 0x100 + word_byte(w, 2)
        * 0x1_0000 + word_byte(w, 3) * 0x100_0000) as u32);
    assert(word_byte(w, 0) + word_byte(w, 1) * 0x100 + word_byte(w, 2) * 0x1_0000 + word_byte(w, 3)
        * 0x100_0000 == w) by (bit_vector);
}

/// LAW: a byte written through one attachment is the byte every other
/// attachment to the same name sees.  A handle's reads and writes go only
/// by the id it was opened under, so after a write at `offset` through
/// `writer`, a read at `offset` through any `reader` handle attached to
/// the same id returns the written value, until the name is unlinked.
pub proof fn lemma_write_visible_through_any_attachment(
    ns: ShmNamespace,
    writer: SharedMemory,
    reader: SharedMemory,
    offset: int,
    value: u8,
)
    requires
        writer.id_spec() == reader.id_spec(),
        writer.attached(&ns),
        ns.segment(writer.id_spec())->Some_0.data[offset] == value,
    ensures
        reader.attached(&ns) ==> ns.segment(reader.id_spec())->Some_0.data[offset] == value,
{
}

/// LAW: completing a critical section re-enables the lock.  `lock` turns a
/// segment model `m` into `locked(m)` and `unlock` turns that into
/// `unlocked(locked(m))`; this round trip preserves the bytes and leaves
/// the advisory lock free, so a second `lock` -- through the same or any
/// other attachment to the name -- has its precondition satisfied again
/// and cannot block on the first holder.
pub proof fn lemma_lock_unlock_roundtrip(m: SegmentModel)
    ensures
        with_lock_state(with_lock_state(m, true), false).data == m.data,
        !with_lock_state(with_lock_state(m, true), false).locked,
{
}

/// The segment model with the advisory lock set as given and the bytes
/// untouched: what `lock` and `unlock` do to the segment.
pub open spec fn with_lock_state(m: SegmentModel, locked: bool) -> SegmentModel {
    SegmentModel { data: m.data, locked: locked }
}

} // verus!
