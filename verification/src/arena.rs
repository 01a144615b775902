//! The arena set: one append-only byte buffer per alignment class.

use vstd::prelude::*;
use crate::align::NUM_CLASSES;

verus! {

/// A fixed number of independent byte buffers, one per alignment class.
///
/// A buffer only ever grows at its end, so an offset into it stays valid for
/// as long as the set lives.
pub struct ArenaSet {
    buffers: Vec<Vec<u8>>,
}

impl View for ArenaSet {
    type V = Seq<Seq<u8>>;

    /// The bytes of each arena, by class.
    closed spec fn view(&self) -> Seq<Seq<u8>> {
        Seq::new(self.buffers@.len(), |c: int| self.buffers@[c]@)
    }
}

impl ArenaSet {
    /// There is exactly one arena per alignment class.
    pub open spec fn wf(&self) -> bool {
        self@.len() == NUM_CLASSES
    }

    /// A set whose arenas are all empty.
    pub fn new() -> (set: Self)
        ensures
            set.wf(),
            forall|c: int| 0 <= c < NUM_CLASSES ==> #[trigger] set@[c] == Seq::<u8>::empty(),
    {
        let mut buffers: Vec<Vec<u8>> = Vec::new();
        let mut made: usize = 0;
        while made < NUM_CLASSES
            invariant
                made <= NUM_CLASSES,
                buffers@.len() == made,
                forall|c: int| 0 <= c < made ==> #[trigger] buffers@[c]@ == Seq::<u8>::empty(),
            decreases NUM_CLASSES - made,
        {
            buffers.push(Vec::new());
            made = made + 1;
        }
        ArenaSet { buffers }
    }

    /// The number of bytes that the arena of `class` holds.
    pub fn len_of(&self, class: usize) -> (len: usize)
        requires
            self.wf(),
            class < NUM_CLASSES,
        ensures
            len == self@[class as int].len(),
    {
        self.buffers[class].len()
    }

    /// Appends `bytes` to the arena of `class` and returns the range of
    /// offsets that they now occupy there. Nothing else changes.
    pub fn append(&mut self, class: usize, bytes: Vec<u8>) -> (range: (usize, usize))
        requires
            old(self).wf(),
            class < NUM_CLASSES,
        ensures
            final(self).wf(),
            range.0 == old(self)@[class as int].len(),
            range.1 == range.0 + bytes@.len(),
            final(self)@ == old(self)@.update(class as int, old(self)@[class as int] + bytes@),
    {
        let ghost image = bytes@;
        let mut bytes = bytes;
        let buffer: &mut Vec<u8> = &mut self.buffers[class];
        let start: usize = buffer.len();
        buffer.append(&mut bytes);
        let end: usize = buffer.len();
        assert(self@ =~= old(self)@.update(class as int, old(self)@[class as int] + image));
        (start, end)
    }

    /// The bytes of the arena of `class` from offset `start` up to `end`.
    pub fn span(&self, class: usize, start: usize, end: usize) -> (bytes: &[u8])
        requires
            self.wf(),
            class < NUM_CLASSES,
            start <= end <= self@[class as int].len(),
        ensures
            bytes@ == self@[class as int].subrange(start as int, end as int),
    {
        let whole: &[u8] = self.buffers[class].as_slice();
        let (_, tail) = whole.split_at(start);
        let (bytes, _) = tail.split_at(end - start);
        assert(bytes@ =~= self@[class as int].subrange(start as int, end as int));
        bytes
    }

    /// Exclusive access to the bytes of the arena of `class` from offset
    /// `start` up to `end`. Whatever is written through it replaces those
    /// bytes; every other byte of the set stays as it was.
    pub fn span_mut(&mut self, class: usize, start: usize, end: usize) -> (bytes: &mut [u8])
        requires
            old(self).wf(),
            class < NUM_CLASSES,
            start <= end <= old(self)@[class as int].len(),
        ensures
            bytes@ == old(self)@[class as int].subrange(start as int, end as int),
            final(self).wf(),
            final(self)@ =~~= old(self)@.update(
                class as int,
                splice(old(self)@[class as int], start as int, end as int, final(bytes)@),
            ),
    {
        let buffer: &mut Vec<u8> = &mut self.buffers[class];
        let whole: &mut [u8] = buffer.as_mut_slice();
        let (head, tail) = whole.split_at_mut(start);
        let (bytes, rest) = tail.split_at_mut(end - start);
        proof {
            let arena = old(self)@[class as int];
            assert(head@ =~= arena.subrange(0, start as int));
            assert(rest@ =~= arena.subrange(end as int, arena.len() as int));
            assert(bytes@ =~= arena.subrange(start as int, end as int));
        }
        bytes
    }
}

/// `arena` with the bytes from `start` up to `end` replaced by `with`.
pub open spec fn splice(arena: Seq<u8>, start: int, end: int, with: Seq<u8>) -> Seq<u8> {
    arena.subrange(0, start) + with + arena.subrange(end, arena.len() as int)
}

} // verus!
