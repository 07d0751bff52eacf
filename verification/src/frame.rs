//! Physical frames and the bitmap that tracks which of them are in use.
//!
//! The allocator is modelled by a [`FrameSpace`]: the set of allocated frame
//! indices together with the range `[begin, end)` it may hand out. Every
//! operation of [`BitmapMemoryManager`] is specified as a function on that
//! model.

use vstd::prelude::*;
use vstd::set_lib::set_int_range;
use crate::address::{PhysicalAddress, PHYSICAL_LIMIT};

verus! {

/// Size of one physical frame in bytes (4 KiB).
pub const FRAME_SIZE: u64 = 4096;

/// Number of frames the bitmap can track: 128 GiB of physical memory.
pub const FRAME_COUNT: u64 = 33554432;

/// Lowest frame index that may ever be handed out; frame 0 is reserved.
pub const MIN_FRAME: u64 = 1;

/// Number of frame bits held by one word of the bitmap.
pub const BITS_PER_MAP_LINE: u64 = 64;

/// Number of words in the bitmap.
pub const MAP_LINE_COUNT: usize = 524288;

/// The only way an allocation fails: no sufficient memory is left.
#[derive(Debug, Clone, Copy, PartialEq, Eq, Structural)]
pub enum AllocError {
    OutOfMemory,
}

/// Index of a physical 4 KiB frame. The frame covers the physical addresses
/// `index * 4096 .. (index + 1) * 4096`.
#[derive(Debug, Clone, Copy, PartialEq, Eq, Structural)]
pub struct FrameId(u64);

impl FrameId {
    /// Size of a frame in bytes.
    pub const SIZE: u64 = 4096;

    /// The frame's index as a mathematical integer.
    pub closed spec fn index(self) -> int {
        self.0 as int
    }

    /// The frame with the given index.
    pub fn new(index: u64) -> (frame: FrameId)
        ensures
            frame.index() == index,
    {
        FrameId(index)
    }

    /// The frame's index.
    pub fn get(&self) -> (index: u64)
        ensures
            index == self.index(),
    {
        self.0
    }

    /// The frame that contains `addr`.
    pub fn from_physical_address(addr: PhysicalAddress) -> (frame: FrameId)
        ensures
            frame.index() == addr@ as int / FRAME_SIZE as int,
    {
        FrameId(addr.as_u64() / FRAME_SIZE)
    }

    /// The address of the frame's first byte.
    pub fn to_physical_address(&self) -> (addr: PhysicalAddress)
        requires
            self.index() * FRAME_SIZE < PHYSICAL_LIMIT,
        ensures
            addr@ == self.index() * FRAME_SIZE,
    {
        PhysicalAddress::new(self.0 * FRAME_SIZE)
    }

    /// The lowest frame that can be allocated.
    pub fn min() -> (frame: FrameId)
        ensures
            frame.index() == MIN_FRAME,
    {
        FrameId(MIN_FRAME)
    }

    /// One past the highest frame the bitmap tracks.
    pub fn max() -> (frame: FrameId)
        ensures
            frame.index() == FRAME_COUNT,
    {
        FrameId(FRAME_COUNT)
    }
}

/// The frames `start, start + 1, ..., start + count - 1`.
pub open spec fn frame_run(start: int, count: int) -> Set<int> {
    set_int_range(start, start + count)
}

/// Mathematical state of the frame allocator.
pub struct FrameSpace {
    /// Indices of the frames that are currently allocated.
    pub allocated: Set<int>,
    /// First frame the allocator may hand out.
    pub begin: int,
    /// One past the last frame the allocator may hand out.
    pub end: int,
}

impl FrameSpace {
    /// No frame of the run `[start, start + count)` is allocated.
    pub open spec fn run_is_free(self, start: int, count: int) -> bool {
        forall|i: int| start <= i < start + count ==> !self.allocated.contains(i)
    }

    /// The run `[start, start + count)` lies inside `[begin, end)` and is free.
    pub open spec fn fits(self, start: int, count: int) -> bool {
        &&& self.begin <= start
        &&& start + count <= self.end
        &&& self.run_is_free(start, count)
    }

    /// `start` is the lowest frame at which a run of `count` frames fits.
    pub open spec fn is_first_fit(self, start: int, count: int) -> bool {
        &&& self.fits(start, count)
        &&& forall|t: int| t < start ==> !self.fits(t, count)
    }

    /// No run of `count` frames fits anywhere.
    pub open spec fn exhausted(self, count: int) -> bool {
        forall|t: int| !self.fits(t, count)
    }

    /// What `allocate` returns for `count` frames: the lowest frame at which
    /// such a run fits, if there is one.
    pub open spec fn first_fit(self, count: int) -> Option<int> {
        if exists|s: int| self.is_first_fit(s, count) {
            Some(choose|s: int| self.is_first_fit(s, count))
        } else {
            None
        }
    }

    /// The state after the run `[start, start + count)` was marked allocated.
    pub open spec fn mark(self, start: int, count: int) -> FrameSpace {
        FrameSpace { allocated: self.allocated.union(frame_run(start, count)), ..self }
    }

    /// The state after the run `[start, start + count)` was marked free.
    pub open spec fn release(self, start: int, count: int) -> FrameSpace {
        FrameSpace { allocated: self.allocated.difference(frame_run(start, count)), ..self }
    }

    /// The state with the allocation range replaced by `[begin, end)`.
    pub open spec fn with_range(self, begin: int, end: int) -> FrameSpace {
        FrameSpace { begin, end, ..self }
    }

    /// Bounds that every state of a [`BitmapMemoryManager`] respects: frame 0
    /// is outside the allocation range, the range ends at or below the
    /// bitmap's ceiling, and only tracked frames are allocated.
    pub open spec fn bounded(self) -> bool {
        &&& MIN_FRAME <= self.begin
        &&& self.end <= FRAME_COUNT
        &&& forall|i: int| self.allocated.contains(i) ==> 0 <= i < FRAME_COUNT
    }
}

/// Bit `bit` of `word` is set.
pub open spec fn bit_is_set(word: u64, bit: u64) -> bool {
    word & (1u64 << bit) != 0
}

proof fn lemma_set_bit(word: u64, bit: u64, other: u64)
    requires
        bit < 64,
        other < 64,
    ensures
        bit_is_set(word | (1u64 << bit), other) == (other == bit || bit_is_set(word, other)),
{
    assert((word | (1u64 << bit)) & (1u64 << other) != 0 <==> (other == bit || word & (1u64
        << other) != 0)) by (bit_vector)
        requires
            bit < 64,
            other < 64,
    ;
}

proof fn lemma_clear_bit(word: u64, bit: u64, other: u64)
    requires
        bit < 64,
        other < 64,
    ensures
        bit_is_set(word & !(1u64 << bit), other) == (other != bit && bit_is_set(word, other)),
{
    assert((word & !(1u64 << bit)) & (1u64 << other) != 0 <==> (other != bit && word & (1u64
        << other) != 0)) by (bit_vector)
        requires
            bit < 64,
            other < 64,
    ;
}

proof fn lemma_zero_word(bit: u64)
    requires
        bit < 64,
    ensures
        !bit_is_set(0u64, bit),
{
    assert(0u64 & (1u64 << bit) == 0) by (bit_vector);
}

/// Frame `i` is recorded as allocated in the bitmap `map`.
pub open spec fn map_bit(map: Seq<u64>, i: int) -> bool {
    bit_is_set(map[i / 64], (i % 64) as u64)
}

/// Bitmap allocator over all physical frames below [`FRAME_COUNT`].
///
/// Bit `i` of the bitmap is 1 exactly when frame `i` is allocated.
pub struct BitmapMemoryManager {
    alloc_map: Vec<u64>,
    begin: FrameId,
    end: FrameId,
}

impl View for BitmapMemoryManager {
    type V = FrameSpace;

    closed spec fn view(&self) -> FrameSpace {
        FrameSpace {
            allocated: Set::new(|i: int| 0 <= i < FRAME_COUNT && map_bit(self.alloc_map@, i)),
            begin: self.begin.0 as int,
            end: self.end.0 as int,
        }
    }
}

impl BitmapMemoryManager {
    #[verifier::type_invariant]
    spec fn inv(&self) -> bool {
        &&& self.alloc_map@.len() == MAP_LINE_COUNT
        &&& MIN_FRAME <= self.begin.0
        &&& self.end.0 <= FRAME_COUNT
    }

    /// A manager with every frame free and the allocation range
    /// `[MIN_FRAME, FRAME_COUNT)`.
    pub fn new() -> (manager: BitmapMemoryManager)
        ensures
            manager@.allocated == Set::<int>::empty(),
            manager@.begin == MIN_FRAME,
            manager@.end == FRAME_COUNT,
            manager@.bounded(),
    {
        let alloc_map: Vec<u64> = vec![0u64; MAP_LINE_COUNT];
        let manager = BitmapMemoryManager {
            alloc_map,
            begin: FrameId(MIN_FRAME),
            end: FrameId(FRAME_COUNT),
        };
        proof {
            assert forall|i: int| !manager@.allocated.contains(i) by {
                if 0 <= i < FRAME_COUNT {
                    lemma_zero_word((i % 64) as u64);
                }
            }
            assert(manager@.allocated =~= Set::<int>::empty());
        }
        manager
    }

    /// First frame of the allocation range.
    pub fn begin(&self) -> (frame: FrameId)
        ensures
            frame.index() == self@.begin,
            MIN_FRAME <= frame.index(),
    {
        proof {
            use_type_invariant(self);
        }
        self.begin
    }

    /// One past the last frame of the allocation range.
    pub fn end(&self) -> (frame: FrameId)
        ensures
            frame.index() == self@.end,
            frame.index() <= FRAME_COUNT,
    {
        proof {
            use_type_invariant(self);
        }
        self.end
    }

    /// Whether `frame` is allocated.
    pub fn get_bit(&self, frame: FrameId) -> (allocated: bool)
        requires
            frame.index() < FRAME_COUNT,
        ensures
            allocated == self@.allocated.contains(frame.index()),
    {
        proof {
            use_type_invariant(self);
        }
        let line_index = (frame.0 / BITS_PER_MAP_LINE) as usize;
        let bit_index = frame.0 % BITS_PER_MAP_LINE;
        (self.alloc_map[line_index] & (1u64 << bit_index)) != 0
    }

    /// Records `frame` as allocated or free; no other frame changes.
    pub fn set_bit(&mut self, frame: FrameId, allocated: bool)
        requires
            frame.index() < FRAME_COUNT,
        ensures
            final(self)@.bounded(),
            final(self)@.begin == old(self)@.begin,
            final(self)@.end == old(self)@.end,
            allocated ==> final(self)@.allocated == old(self)@.allocated.insert(frame.index()),
            !allocated ==> final(self)@.allocated == old(self)@.allocated.remove(frame.index()),
    {
        proof {
            use_type_invariant(&*self);
        }
        let line_index = (frame.0 / BITS_PER_MAP_LINE) as usize;
        let bit_index = frame.0 % BITS_PER_MAP_LINE;
        let word = self.alloc_map[line_index];
        let updated = if allocated {
            word | (1u64 << bit_index)
        } else {
            word & !(1u64 << bit_index)
        };
        self.alloc_map[line_index] = updated;
        proof {
            let f = frame.0 as int;
            let before = old(self)@.allocated;
            let after = self@.allocated;
            assert forall|i: int|
                after.contains(i) == (if allocated {
                    before.insert(f).contains(i)
                } else {
                    before.remove(f).contains(i)
                }) by {
                if 0 <= i < FRAME_COUNT {
                    if i / 64 == f / 64 {
                        if allocated {
                            lemma_set_bit(word, bit_index, (i % 64) as u64);
                        } else {
                            lemma_clear_bit(word, bit_index, (i % 64) as u64);
                        }
                    }
                }
            }
            if allocated {
                assert(after =~= before.insert(f));
            } else {
                assert(after =~= before.remove(f));
            }
        }
    }

    /// Marks the `num_frames` frames from `start_frame` on as allocated,
    /// without any search.
    pub fn mark_allocated(&mut self, start_frame: &FrameId, num_frames: u64)
        requires
            start_frame.index() + num_frames <= FRAME_COUNT,
        ensures
            final(self)@.bounded(),
            final(self)@ == old(self)@.mark(start_frame.index(), num_frames as int),
    {
        let start = start_frame.0;
        let mut i: u64 = 0;
        proof {
            use_type_invariant(&*self);
            assert(self@.allocated =~= old(self)@.allocated.union(frame_run(start as int, 0)));
        }
        while i < num_frames
            invariant
                i <= num_frames,
                start + num_frames <= FRAME_COUNT,
                self@.bounded(),
                self@ == old(self)@.mark(start as int, i as int),
            decreases num_frames - i,
        {
            self.set_bit(FrameId(start + i), true);
            proof {
                assert(self@.allocated =~= old(self)@.allocated.union(
                    frame_run(start as int, i + 1),
                ));
            }
            i = i + 1;
        }
    }

    /// Marks the `num_frames` frames from `start_frame` on as free. Whether
    /// they were allocated before is not examined.
    pub fn free(&mut self, start_frame: FrameId, num_frames: u64)
        requires
            start_frame.index() + num_frames <= FRAME_COUNT,
        ensures
            final(self)@.bounded(),
            final(self)@ == old(self)@.release(start_frame.index(), num_frames as int),
    {
        let start = start_frame.0;
        let mut i: u64 = 0;
        proof {
            use_type_invariant(&*self);
            assert(self@.allocated =~= old(self)@.allocated.difference(
                frame_run(start as int, 0),
            ));
        }
        while i < num_frames
            invariant
                i <= num_frames,
                start + num_frames <= FRAME_COUNT,
                self@.bounded(),
                self@ == old(self)@.release(start as int, i as int),
            decreases num_frames - i,
        {
            self.set_bit(FrameId(start + i), false);
            proof {
                assert(self@.allocated =~= old(self)@.allocated.difference(
                    frame_run(start as int, i + 1),
                ));
            }
            i = i + 1;
        }
    }

    /// Marks the whole frames contained in `bytes` bytes, from `start_frame`
    /// on, as allocated.
    pub fn mark_allocated_in_bytes(&mut self, start_frame: &FrameId, bytes: u64)
        requires
            start_frame.index() + bytes as int / FRAME_SIZE as int <= FRAME_COUNT,
        ensures
            final(self)@.bounded(),
            final(self)@ == old(self)@.mark(
                start_frame.index(),
                bytes as int / FRAME_SIZE as int,
            ),
    {
        self.mark_allocated(start_frame, bytes / FRAME_SIZE);
    }

    /// Installs `[range_begin, range_end)` as the range that `allocate`
    /// searches.
    pub fn set_memory_range(&mut self, range_begin: FrameId, range_end: FrameId)
        requires
            MIN_FRAME <= range_begin.index(),
            range_end.index() <= FRAME_COUNT,
        ensures
            final(self)@.bounded(),
            final(self)@ == old(self)@.with_range(range_begin.index(), range_end.index()),
    {
        proof {
            use_type_invariant(&*self);
        }
        self.begin = range_begin;
        self.end = range_end;
    }

    /// Finds the lowest run of `num_frames` free frames inside the
    /// allocation range, and changes nothing. `None` exactly when no such
    /// run exists.
    pub fn find_free_run(&self, num_frames: u64) -> (result: Option<FrameId>)
        ensures
            self@.bounded(),
            match result {
                Some(frame) => self@.is_first_fit(frame.index(), num_frames as int),
                None => self@.exhausted(num_frames as int),
            },
    {
        proof {
            use_type_invariant(self);
        }
        let end = self.end.0;
        let mut start: u64 = self.begin.0;
        loop
            invariant
                end == self.end.0,
                end <= FRAME_COUNT,
                self.begin.0 <= start,
                self.alloc_map@.len() == MAP_LINE_COUNT,
                MIN_FRAME <= self.begin.0,
                forall|t: int| t < start ==> !self@.fits(t, num_frames as int),
            decreases end - start,
        {
            if start > end || num_frames > end - start {
                return None;
            }
            let mut i: u64 = 0;
            let mut blocked = false;
            while i < num_frames
                invariant_except_break
                    !blocked,
                invariant
                    i <= num_frames,
                    start + num_frames <= end,
                    end <= FRAME_COUNT,
                    forall|j: int| start <= j < start + i ==> !self@.allocated.contains(j),
                ensures
                    i <= num_frames,
                    blocked ==> i < num_frames && self@.allocated.contains(start + i),
                    !blocked ==> i == num_frames,
                decreases num_frames - i,
            {
                if self.get_bit(FrameId(start + i)) {
                    blocked = true;
                    break;
                }
                i = i + 1;
            }
            if !blocked {
                return Some(FrameId(start));
            }
            proof {
                assert forall|t: int| start <= t <= start + i implies !self@.fits(
                    t,
                    num_frames as int,
                ) by {
                    assert(self@.allocated.contains(start + i));
                }
            }
            start = start + i + 1;
        }
    }

    /// Finds the lowest run of `num_frames` free frames inside the
    /// allocation range, marks it allocated and returns its first frame.
    /// Fails, changing nothing, exactly when no such run exists.
    pub fn allocate(&mut self, num_frames: u64) -> (result: Result<FrameId, AllocError>)
        ensures
            final(self)@.bounded(),
            match result {
                Ok(frame) => {
                    &&& old(self)@.is_first_fit(frame.index(), num_frames as int)
                    &&& final(self)@ == old(self)@.mark(frame.index(), num_frames as int)
                },
                Err(e) => {
                    &&& e == AllocError::OutOfMemory
                    &&& old(self)@.exhausted(num_frames as int)
                    &&& final(self)@ == old(self)@
                },
            },
    {
        match self.find_free_run(num_frames) {
            Some(frame) => {
                self.mark_allocated(&frame, num_frames);
                Ok(frame)
            },
            None => Err(AllocError::OutOfMemory),
        }
    }
}

} // verus!
