//! Stack slots. Each name gets a slot on first sight; the slots grow
//! downwards from the frame pointer in the order of first sight.

use vstd::prelude::*;
use crate::name_map::NameMap;

verus! {

/// Assigns stack offsets to names.
#[derive(Debug)]
pub struct StackAllocator {
    pub offset: i64,
    pub map: NameMap<i64>,
}

/// The model of an allocator: the bytes handed out so far and the offset of
/// each name.
pub struct StackAllocatorView {
    pub offset: i64,
    pub map: Map<Seq<char>, i64>,
}

impl View for StackAllocator {
    type V = StackAllocatorView;

    open spec fn view(&self) -> StackAllocatorView {
        StackAllocatorView { offset: self.offset, map: self.map@ }
    }
}

impl StackAllocatorView {
    /// The allocator that has handed out nothing.
    pub open spec fn empty() -> StackAllocatorView {
        StackAllocatorView { offset: 0, map: Map::empty() }
    }

    /// Offsets are positive and lie within the bytes handed out.
    pub open spec fn wf(self) -> bool {
        &&& 0 <= self.offset
        &&& forall|name: Seq<char>| #[trigger]
            self.map.contains_key(name) ==> 0 <= self.map[name] <= self.offset
    }

    /// The offset that `name` has after it was asked for.
    pub open spec fn offset_of(self, name: Seq<char>, bytes: i64) -> i64 {
        if self.map.contains_key(name) {
            self.map[name]
        } else {
            (self.offset + bytes) as i64
        }
    }

    /// The allocator after `name` was asked for with a width of `bytes`.
    pub open spec fn allocate(self, name: Seq<char>, bytes: i64) -> StackAllocatorView {
        if self.map.contains_key(name) {
            self
        } else {
            StackAllocatorView {
                offset: (self.offset + bytes) as i64,
                map: self.map.insert(name, (self.offset + bytes) as i64),
            }
        }
    }
}

impl StackAllocator {
    /// An allocator that has handed out nothing.
    pub fn new() -> (a: Self)
        ensures
            a@ == StackAllocatorView::empty(),
            a@.wf(),
    {
        StackAllocator { offset: 0, map: NameMap::new() }
    }

    /// The offset of `name`: the one it was given before, or else a new slot
    /// of `bytes` bytes below all slots handed out so far.
    pub fn allocate(&mut self, name: String, bytes: i64) -> (r: i64)
        requires
            old(self)@.wf(),
            0 <= bytes,
            old(self)@.offset + bytes <= i64::MAX,
        ensures
            r == old(self)@.offset_of(name@, bytes),
            final(self)@ == old(self)@.allocate(name@, bytes),
            final(self)@.wf(),
            0 <= r <= final(self)@.offset,
            old(self)@.offset <= final(self)@.offset <= old(self)@.offset + bytes,
    {
        match self.map.get(&name) {
            Some(v) => *v,
            None => {
                self.offset = self.offset + bytes;
                self.map.insert(name, self.offset);
                self.offset
            },
        }
    }

    /// The number of bytes handed out so far.
    pub fn get(&self) -> (r: i64)
        ensures
            r == self@.offset,
    {
        self.offset
    }
}

} // verus!
