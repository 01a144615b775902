//! The container: arenas, directory, insertion, access and teardown.

use vstd::prelude::*;
use core::mem::ManuallyDrop;
use crate::align::{align_class, class_of, supported_align, NUM_CLASSES};
use crate::arena::{splice, ArenaSet};
use crate::capability::{AnyTrait, TraitImpl};

verus! {

/// A vector of values of mixed concrete types, all reached through the
/// interface `Trait`.
///
/// The byte image of every value lies in the arena of its alignment class.
/// The directory keeps, per element and in insertion order, the arena, the
/// byte range inside it, and the interface that was captured when the value
/// was pushed.
#[verifier::reject_recursive_types(Trait)]
pub struct DstVec<Trait: ?Sized> {
    buffers: ArenaSet,
    buffer_ids: Vec<u8>,
    buffer_ranges: Vec<(usize, usize)>,
    converters: Vec<Box<Trait>>,
}

impl<Trait: ?Sized> View for DstVec<Trait> {
    type V = Seq<(Seq<u8>, Box<Trait>)>;

    /// The container as the sequence of its elements in insertion order, each
    /// one its current byte image together with its interface.
    open spec fn view(&self) -> Seq<(Seq<u8>, Box<Trait>)> {
        Seq::new(self.spec_len(), |i: int| (self.bytes(i), self.converter(i)))
    }
}

impl<Trait: ?Sized> DstVec<Trait> {
    /// The number of elements.
    pub closed spec fn spec_len(&self) -> nat {
        self.buffer_ids@.len()
    }

    /// The bytes of every arena, by alignment class.
    pub closed spec fn arenas(&self) -> Seq<Seq<u8>> {
        self.buffers@
    }

    /// The class of the arena that holds element `i`.
    pub closed spec fn bucket(&self, i: int) -> int {
        self.buffer_ids@[i] as int
    }

    /// The offsets at which element `i` starts and ends in its arena.
    pub closed spec fn range(&self, i: int) -> (int, int) {
        (self.buffer_ranges@[i].0 as int, self.buffer_ranges@[i].1 as int)
    }

    /// The interface that was captured for element `i`.
    pub closed spec fn converter(&self, i: int) -> Box<Trait> {
        self.converters@[i]
    }

    /// The current byte image of element `i`.
    pub open spec fn bytes(&self, i: int) -> Seq<u8> {
        self.arenas()[self.bucket(i)].subrange(self.range(i).0, self.range(i).1)
    }

    /// Element `i` lies in an arena that exists, inside the bytes it holds.
    pub open spec fn in_arena(&self, i: int) -> bool {
        &&& 0 <= self.bucket(i) < NUM_CLASSES
        &&& 0 <= self.range(i).0 <= self.range(i).1 <= self.arenas()[self.bucket(i)].len()
    }

    /// The container's invariant: the three directory sequences are equally
    /// long, every element lies inside its arena, and within one arena a later
    /// element starts where or after every earlier one ends.
    pub closed spec fn wf(&self) -> bool {
        &&& self.buffers.wf()
        &&& self.buffer_ranges@.len() == self.buffer_ids@.len()
        &&& self.converters@.len() == self.buffer_ids@.len()
        &&& forall|i: int| 0 <= i < self.spec_len() ==> #[trigger] self.in_arena(i)
        &&& forall|i: int, j: int|
            0 <= i < j < self.spec_len() && self.bucket(i) == self.bucket(j) ==> (
            #[trigger] self.range(i)).1 <= (#[trigger] self.range(j)).0
    }

    /// An empty container: no element, nothing in any arena.
    pub fn new() -> (made: Self)
        ensures
            made.wf(),
            made@ == Seq::<(Seq<u8>, Box<Trait>)>::empty(),
            made.spec_len() == 0,
            made.arenas().len() == NUM_CLASSES,
            forall|c: int| 0 <= c < NUM_CLASSES ==> #[trigger] made.arenas()[c] == Seq::<u8>::empty(),
    {
        DstVec {
            buffers: ArenaSet::new(),
            buffer_ids: Vec::new(),
            buffer_ranges: Vec::new(),
            converters: Vec::new(),
        }
    }

    /// Takes ownership of `obj` and stores it as the new last element.
    ///
    /// Its byte image is appended to the arena of its alignment class, and
    /// the directory records that arena, the range the bytes now occupy, and
    /// the interface of the concrete type. The value's own destructor is
    /// suppressed: from here on the container answers for the element. No
    /// earlier element moves or changes.
    pub fn push<Impl: TraitImpl<Trait>>(&mut self, obj: Impl)
        requires
            old(self).wf(),
            supported_align(obj.align_spec()),
        ensures
            final(self).wf(),
            final(self)@ == old(self)@.push((obj.raw_bytes_spec(), Impl::upcast_spec())),
            final(self).spec_len() == old(self).spec_len() + 1,
            final(self).bucket(old(self).spec_len() as int) == align_class(obj.align_spec()),
            final(self).range(old(self).spec_len() as int) == (
                old(self).arenas()[align_class(obj.align_spec()) as int].len() as int,
                (old(self).arenas()[align_class(obj.align_spec()) as int].len()
                    + obj.raw_bytes_spec().len()) as int,
            ),
            final(self).converter(old(self).spec_len() as int) == Impl::upcast_spec(),
            final(self).bytes(old(self).spec_len() as int) == obj.raw_bytes_spec(),
            final(self).arenas() == old(self).arenas().update(
                align_class(obj.align_spec()) as int,
                old(self).arenas()[align_class(obj.align_spec()) as int] + obj.raw_bytes_spec(),
            ),
            forall|i: int|
                0 <= i < old(self).spec_len() ==> #[trigger] final(self).bucket(i) == old(
                    self,
                ).bucket(i),
            forall|i: int|
                0 <= i < old(self).spec_len() ==> #[trigger] final(self).range(i) == old(
                    self,
                ).range(i),
            forall|i: int|
                0 <= i < old(self).spec_len() ==> #[trigger] final(self).converter(i) == old(
                    self,
                ).converter(i),
            forall|i: int|
                0 <= i < old(self).spec_len() ==> #[trigger] final(self).bytes(i) == old(
                    self,
                ).bytes(i),
    {
        let obj = ManuallyDrop::new(obj);

        let align: usize = obj.align();
        let buffer_id: usize = class_of(align);

        let bytes: Vec<u8> = obj.raw_bytes();
        let buffer_range: (usize, usize) = self.buffers.append(buffer_id, bytes);

        self.buffer_ids.push(buffer_id as u8);
        self.buffer_ranges.push(buffer_range);
        self.converters.push(Impl::upcast());

        proof {
            let count = old(self).spec_len() as int;
            let image = obj@.raw_bytes_spec();
            let before = old(self).arenas()[buffer_id as int];
            assert(self.arenas()[buffer_id as int] == before + image);
            assert(self.bytes(count) =~= image);
            assert forall|i: int| 0 <= i < count implies #[trigger] self.bytes(i) == old(
                self,
            ).bytes(i) by {
                assert(old(self).in_arena(i));
                assert(self.bytes(i) =~= old(self).bytes(i));
            }
            assert(self@ =~= old(self)@.push((image, Impl::upcast_spec())));
            assert forall|i: int| 0 <= i < self.spec_len() implies #[trigger] self.in_arena(i) by {
                if i < count {
                    assert(old(self).in_arena(i));
                }
            }
            assert forall|i: int, j: int|
                0 <= i < j < self.spec_len() && self.bucket(i) == self.bucket(j) implies (
            #[trigger] self.range(i)).1 <= (#[trigger] self.range(j)).0 by {
                assert(old(self).in_arena(i));
                if j < count {
                    assert(old(self).range(i).1 <= old(self).range(j).0);
                }
            }
        }
    }

    /// Read access to element `index`: its bytes and the interface that
    /// understands them. `None` when there is no such element.
    pub fn get(&self, index: usize) -> (found: Option<(&[u8], &Trait)>)
        requires
            self.wf(),
        ensures
            found.is_some() <==> index < self@.len(),
            found.is_some() ==> {
                &&& found.unwrap().0@ == self@[index as int].0
                &&& found.unwrap().1 == self@[index as int].1
            },
    {
        if index >= self.buffer_ids.len() {
            return None;
        }
        assert(self.in_arena(index as int));
        let buffer_id: u8 = self.buffer_ids[index];
        let buffer_range: (usize, usize) = self.buffer_ranges[index];
        let converter: &Trait = &*self.converters[index];
        let slice: &[u8] = self.buffers.span(buffer_id as usize, buffer_range.0, buffer_range.1);
        Some((slice, converter))
    }

    /// Exclusive access to element `index`: its bytes, open for writing in
    /// place, and the interface that understands them. `None`, with nothing
    /// borrowed or changed, when there is no such element.
    ///
    /// What is written through the span replaces the element's bytes. The
    /// directory and every byte outside the element's range stay as they were.
    /// A slice keeps its length, so the span ends as long as it began: the
    /// container is then valid again, the element reads back what was written,
    /// and every other element reads back what it held before.
    pub fn get_mut(&mut self, index: usize) -> (found: Option<(&mut [u8], &Trait)>)
        requires
            old(self).wf(),
        ensures
            found.is_some() <==> index < old(self)@.len(),
            found.is_none() ==> *final(self) == *old(self),
            found.is_some() ==> {
                &&& found.unwrap().0@ == old(self)@[index as int].0
                &&& found.unwrap().1 == old(self)@[index as int].1
                &&& final(self).overwrites(old(self), index as int, final(found.unwrap().0)@)
            },
            found.is_some() && final(found.unwrap().0)@.len() == found.unwrap().0@.len() ==> {
                final(self).reads_back(old(self), index as int, final(found.unwrap().0)@)
            },
    {
        if index >= self.buffer_ids.len() {
            return None;
        }
        assert(self.in_arena(index as int));
        let ghost before = *self;
        proof {
            assert forall|after: Self, with: Seq<u8>|
                after.overwrites(&before, index as int, with) && with.len() == before.bytes(
                    index as int,
                ).len() implies #[trigger] after.reads_back(&before, index as int, with) by {
                after.lemma_overwrite_reads_back(&before, index as int, with);
            }
        }
        let buffer_id: u8 = self.buffer_ids[index];
        let buffer_range: (usize, usize) = self.buffer_ranges[index];
        let converter: &Trait = &*self.converters[index];
        let slice: &mut [u8] = self.buffers.span_mut(
            buffer_id as usize,
            buffer_range.0,
            buffer_range.1,
        );
        Some((slice, converter))
    }

    /// `self` has the directory of `before`: the same elements in the same
    /// order, each in the same arena, at the same range, behind the same
    /// interface.
    pub closed spec fn same_directory(&self, before: &Self) -> bool {
        &&& self.buffer_ids == before.buffer_ids
        &&& self.buffer_ranges == before.buffer_ranges
        &&& self.converters == before.converters
    }

    /// `self` is `before` with the bytes of element `index` replaced by
    /// `with`, and nothing else touched: the same directory, the same bytes
    /// everywhere outside that element's range.
    pub open spec fn overwrites(&self, before: &Self, index: int, with: Seq<u8>) -> bool {
        &&& self.same_directory(before)
        &&& self.spec_len() == before.spec_len()
        &&& forall|i: int| 0 <= i < before.spec_len() ==> #[trigger] self.bucket(i) == before.bucket(i)
        &&& forall|i: int| 0 <= i < before.spec_len() ==> #[trigger] self.range(i) == before.range(i)
        &&& forall|i: int|
            0 <= i < before.spec_len() ==> #[trigger] self.converter(i) == before.converter(i)
        &&& self.arenas() == before.arenas().update(
            before.bucket(index),
            splice(
                before.arenas()[before.bucket(index)],
                before.range(index).0,
                before.range(index).1,
                with,
            ),
        )
    }

    /// `self` is valid, its element `index` holds exactly `with`, and every
    /// other element holds what it held in `before`.
    pub open spec fn reads_back(&self, before: &Self, index: int, with: Seq<u8>) -> bool {
        &&& self.wf()
        &&& self@ == before@.update(index, (with, before@[index].1))
        &&& self.bytes(index) == with
        &&& forall|j: int|
            0 <= j < before.spec_len() && j != index ==> #[trigger] self.bytes(j) == before.bytes(j)
    }

    /// Writing in place reads back, and disturbs nothing else: after the
    /// bytes of element `index` were replaced by as many new bytes, the
    /// container is still valid, element `index` holds exactly the new bytes,
    /// and every other element holds the bytes it held before.
    pub proof fn lemma_overwrite_reads_back(&self, before: &Self, index: int, with: Seq<u8>)
        requires
            before.wf(),
            0 <= index < before.spec_len(),
            self.overwrites(before, index, with),
            with.len() == before.bytes(index).len(),
        ensures
            self.reads_back(before, index, with),
    {
        let class = before.bucket(index);
        let start = before.range(index).0;
        let end = before.range(index).1;
        let arena = before.arenas()[class];
        assert(before.in_arena(index));
        assert(self.arenas()[class] == splice(arena, start, end, with));
        assert(self.bytes(index) =~= with);
        assert forall|j: int| 0 <= j < before.spec_len() implies #[trigger] self.in_arena(j) by {
            assert(before.in_arena(j));
        }
        assert forall|j: int| 0 <= j < before.spec_len() && j != index implies #[trigger] self.bytes(
            j,
        ) == before.bytes(j) by {
            assert(before.in_arena(j));
            if before.bucket(j) == class {
                if j < index {
                    assert(before.range(j).1 <= before.range(index).0);
                } else {
                    assert(before.range(index).1 <= before.range(j).0);
                }
                assert(self.bytes(j) =~= before.bytes(j));
            }
        }
        assert forall|i: int, j: int|
            0 <= i < j < self.spec_len() && self.bucket(i) == self.bucket(j) implies (
        #[trigger] self.range(i)).1 <= (#[trigger] self.range(j)).0 by {
            assert(before.range(i).1 <= before.range(j).0);
        }
        assert(self@ =~= before@.update(index, (with, before@[index].1)));
    }

    /// An element lies inside the arena of its class.
    pub proof fn lemma_range_in_arena(&self, i: int)
        requires
            self.wf(),
            0 <= i < self.spec_len(),
        ensures
            self.in_arena(i),
            self.bytes(i).len() == self.range(i).1 - self.range(i).0,
    {
        assert(self.in_arena(i));
    }

    /// Two elements in one arena never overlap: the later one starts where or
    /// after the earlier one ends.
    pub proof fn lemma_ranges_disjoint(&self, i: int, j: int)
        requires
            self.wf(),
            0 <= i < j < self.spec_len(),
            self.bucket(i) == self.bucket(j),
        ensures
            self.range(i).1 <= self.range(j).0,
    {
    }

    /// Ends the life of every element and releases the arenas, as
    /// [`teardown_with`](Self::teardown_with) does, after asking the interface
    /// type itself whether it has any destruction behaviour.
    ///
    /// The answer depends on the type alone, and no more is known of it here:
    /// either nothing is handed out, or every element exactly once. Either
    /// way the container is empty afterwards.
    pub fn teardown(&mut self) -> (doomed: Vec<(Vec<u8>, Box<Trait>)>)
        requires
            old(self).wf(),
        ensures
            final(self).wf(),
            final(self)@ == Seq::<(Seq<u8>, Box<Trait>)>::empty(),
            doomed@.len() == 0 || Self::hands_out(old(self)@, doomed@),
    {
        let needs_drop: bool = core::mem::needs_drop::<Trait>();
        self.teardown_with(needs_drop)
    }

    /// `doomed` holds every element of `elements` exactly once, the last one
    /// first: entry `k` is the bytes and the interface of element
    /// `len - 1 - k`.
    pub open spec fn hands_out(
        elements: Seq<(Seq<u8>, Box<Trait>)>,
        doomed: Seq<(Vec<u8>, Box<Trait>)>,
    ) -> bool {
        &&& doomed.len() == elements.len()
        &&& forall|k: int|
            0 <= k < elements.len() ==> {
                &&& (#[trigger] doomed[k]).0@ == elements[elements.len() - 1 - k].0
                &&& doomed[k].1 == elements[elements.len() - 1 - k].1
            }
    }

    /// Ends the life of every element and releases the arenas.
    ///
    /// `needs_drop` says whether the interface has any destruction behaviour
    /// at all. Where it has none, no element is looked at and nothing is
    /// handed out. Where it has, the directory is detached first, so that the
    /// container is already empty while elements are being destroyed, and then
    /// every element is handed out exactly once, the last one first, as its
    /// bytes together with its interface. Either way the container is empty
    /// afterwards, so that a second teardown hands out nothing.
    pub fn teardown_with(&mut self, needs_drop: bool) -> (doomed: Vec<(Vec<u8>, Box<Trait>)>)
        requires
            old(self).wf(),
        ensures
            final(self).wf(),
            final(self)@ == Seq::<(Seq<u8>, Box<Trait>)>::empty(),
            final(self).spec_len() == 0,
            final(self).arenas().len() == NUM_CLASSES,
            forall|c: int|
                0 <= c < NUM_CLASSES ==> #[trigger] final(self).arenas()[c] == Seq::<u8>::empty(),
            !needs_drop ==> doomed@.len() == 0,
            needs_drop ==> Self::hands_out(old(self)@, doomed@),
    {
        let mut detached: Self = Self::new();
        core::mem::swap(self, &mut detached);

        let mut doomed: Vec<(Vec<u8>, Box<Trait>)> = Vec::new();
        if !needs_drop {
            return doomed;
        }
        let ghost count = detached.spec_len() as int;
        while detached.converters.len() > 0
            invariant
                old(self).wf(),
                count == old(self).spec_len(),
                detached.buffers == old(self).buffers,
                detached.buffer_ids@.len() == count - doomed@.len(),
                detached.buffer_ranges@.len() == count - doomed@.len(),
                detached.converters@.len() == count - doomed@.len(),
                detached.buffer_ids@ == old(self).buffer_ids@.subrange(0, count - doomed@.len()),
                detached.buffer_ranges@ == old(self).buffer_ranges@.subrange(
                    0,
                    count - doomed@.len(),
                ),
                detached.converters@ == old(self).converters@.subrange(0, count - doomed@.len()),
                forall|k: int|
                    0 <= k < doomed@.len() ==> {
                        &&& (#[trigger] doomed@[k]).0@ == old(self).bytes(count - 1 - k)
                        &&& doomed@[k].1 == old(self).converter(count - 1 - k)
                    },
            decreases detached.converters@.len(),
        {
            let ghost at = count - 1 - doomed@.len();
            assert(old(self).in_arena(at));
            let converter: Box<Trait> = detached.converters.pop().unwrap();
            let buffer_id: u8 = detached.buffer_ids.pop().unwrap();
            let buffer_range: (usize, usize) = detached.buffer_ranges.pop().unwrap();
            let bytes: Vec<u8> = vstd::slice::slice_to_vec(
                detached.buffers.span(buffer_id as usize, buffer_range.0, buffer_range.1),
            );
            doomed.push((bytes, converter));
        }
        doomed
    }

    /// The class of the arena that holds element `index`, if there is such an
    /// element.
    pub fn buffer_id(&self, index: usize) -> (found: Option<usize>)
        requires
            self.wf(),
        ensures
            found.is_some() <==> index < self.spec_len(),
            found.is_some() ==> found.unwrap() == self.bucket(index as int),
    {
        if index < self.buffer_ids.len() {
            Some(self.buffer_ids[index] as usize)
        } else {
            None
        }
    }

    /// The offsets at which element `index` starts and ends in its arena, if
    /// there is such an element.
    pub fn buffer_range(&self, index: usize) -> (found: Option<(usize, usize)>)
        requires
            self.wf(),
        ensures
            found.is_some() <==> index < self.spec_len(),
            found.is_some() ==> (found.unwrap().0 as int, found.unwrap().1 as int) == self.range(
                index as int,
            ),
    {
        if index < self.buffer_ranges.len() {
            Some(self.buffer_ranges[index])
        } else {
            None
        }
    }

    /// The number of elements.
    pub fn len(&self) -> (len: usize)
        ensures
            len == self@.len(),
            len == self.spec_len(),
    {
        self.buffer_ids.len()
    }
}

/// `core::mem::needs_drop`: whether dropping a value of the type matters.
/// Nothing is claimed of the answer; the call takes no input and always
/// returns.
pub assume_specification<T: ?Sized>[ core::mem::needs_drop::<T> ]() -> (matters: bool);

impl<Trait: ?Sized> Default for DstVec<Trait> {
    /// The empty container.
    fn default() -> (made: Self)
        ensures
            made.wf(),
            made@ == Seq::<(Seq<u8>, Box<Trait>)>::empty(),
            made.spec_len() == 0,
            made.arenas().len() == NUM_CLASSES,
            forall|c: int| 0 <= c < NUM_CLASSES ==> #[trigger] made.arenas()[c] == Seq::<u8>::empty(),
    {
        Self::new()
    }
}

} // verus!
