//! The kernel heap: a segregated free-list allocator on top of the frame
//! allocator.
//!
//! Small requests are served from per-class lists of equally sized blocks;
//! a class whose list is empty is refilled by carving one fresh frame into
//! blocks. Large requests are served in whole frames. The allocator keeps
//! no header per block: a block is given back with the size and alignment
//! it was asked for, from which its class is derived again.

use vstd::pervasive::unreached;
use vstd::prelude::*;
use crate::accounting::lemma_first_fit;
use crate::address::VirtualAddress;
use crate::frame::{AllocError, BitmapMemoryManager, FrameId, FrameSpace, FRAME_COUNT, FRAME_SIZE};
use crate::paging::{as_phys_addr, as_virt_addr, IDENTITY_WINDOW};

verus! {

/// Number of size classes.
pub const BLOCK_CLASS_COUNT: usize = 9;

/// Size of the blocks of the largest class.
pub const MAX_BLOCK_SIZE: u64 = 2048;

/// Number of frames inside the identity-mapped window.
pub const WINDOW_FRAME_COUNT: u64 = 16777216;

/// The block size of a class: 8 bytes for class 0, and twice the size of
/// the class below for each further class, up to 2048 bytes for class 8.
pub open spec fn block_size_of(class: int) -> u64 {
    if class <= 0 {
        8
    } else if class == 1 {
        16
    } else if class == 2 {
        32
    } else if class == 3 {
        64
    } else if class == 4 {
        128
    } else if class == 5 {
        256
    } else if class == 6 {
        512
    } else if class == 7 {
        1024
    } else {
        2048
    }
}

/// How a request is served.
#[derive(Debug, Clone, Copy, PartialEq, Eq, Structural)]
pub enum AllocationMode {
    /// From the free list of the size class with this index.
    Block(usize),
    /// In this many whole frames.
    Frame(u64),
}

/// The number of bytes a request needs: the larger of its size and its
/// alignment.
pub open spec fn required_bytes(size: usize, align: usize) -> int {
    if size >= align {
        size as int
    } else {
        align as int
    }
}

/// The smallest size class whose blocks hold `required` bytes.
pub open spec fn class_for(required: int) -> Option<int> {
    if required <= 8 {
        Some(0)
    } else if required <= 16 {
        Some(1)
    } else if required <= 32 {
        Some(2)
    } else if required <= 64 {
        Some(3)
    } else if required <= 128 {
        Some(4)
    } else if required <= 256 {
        Some(5)
    } else if required <= 512 {
        Some(6)
    } else if required <= 1024 {
        Some(7)
    } else if required <= 2048 {
        Some(8)
    } else {
        None
    }
}

/// The number of whole frames that hold `required` bytes.
pub open spec fn frames_for(required: int) -> int {
    (required + FRAME_SIZE - 1) / (FRAME_SIZE as int)
}

/// The mode in which a request of `size` bytes aligned to `align` is
/// served.
pub open spec fn mode_for(size: usize, align: usize) -> AllocationMode {
    match class_for(required_bytes(size, align)) {
        Some(class) => AllocationMode::Block(class as usize),
        None => AllocationMode::Frame(frames_for(required_bytes(size, align)) as u64),
    }
}

/// The class's block size.
pub fn block_size(class: usize) -> (size: u64)
    requires
        class < BLOCK_CLASS_COUNT,
    ensures
        size == block_size_of(class as int),
        8 <= size <= MAX_BLOCK_SIZE,
        FRAME_SIZE as int % size as int == 0,
{
    let sizes: [u64; 9] = [8, 16, 32, 64, 128, 256, 512, 1024, 2048];
    proof {
        lemma_block_sizes_divide_frame(class as int);
    }
    sizes[class]
}

/// Every block size is between 8 and 2048 bytes and divides the frame
/// size.
pub proof fn lemma_block_sizes_divide_frame(class: int)
    requires
        0 <= class < BLOCK_CLASS_COUNT,
    ensures
        8 <= block_size_of(class) <= MAX_BLOCK_SIZE,
        FRAME_SIZE as int % block_size_of(class) as int == 0,
        FRAME_SIZE as int / block_size_of(class) as int >= 2,
{
}

impl AllocationMode {
    /// Classifies a request of `size` bytes aligned to `align`.
    pub fn classify(size: usize, align: usize) -> (mode: AllocationMode)
        ensures
            mode == mode_for(size, align),
            mode matches AllocationMode::Block(class) ==> class < BLOCK_CLASS_COUNT
                && required_bytes(size, align) <= block_size_of(class as int) && (class > 0
                ==> block_size_of(class - 1) < required_bytes(size, align)),
            mode matches AllocationMode::Frame(count) ==> count * FRAME_SIZE >= required_bytes(
                size,
                align,
            ) > (count - 1) * FRAME_SIZE && required_bytes(size, align) > MAX_BLOCK_SIZE,
    {
        let required: u64 = if size >= align {
            size as u64
        } else {
            align as u64
        };
        let mut class: usize = 0;
        while class < BLOCK_CLASS_COUNT
            invariant
                class <= BLOCK_CLASS_COUNT,
                required == required_bytes(size, align),
                forall|c: int| 0 <= c < class ==> block_size_of(c) < required,
            decreases BLOCK_CLASS_COUNT - class,
        {
            if block_size(class) >= required {
                assert(class > 0 ==> block_size_of(class - 1) < required);
                return AllocationMode::Block(class);
            }
            class = class + 1;
        }
        assert(block_size_of(8) < required);
        let whole = required / FRAME_SIZE;
        if required % FRAME_SIZE == 0 {
            AllocationMode::Frame(whole)
        } else {
            AllocationMode::Frame(whole + 1)
        }
    }
}

/// The blocks that one frame is carved into for a class with blocks of
/// `size` bytes, in ascending order of address: `base`, `base + size`, and
/// so on to the end of the frame.
pub open spec fn carved_blocks(base: int, size: int) -> Seq<u64> {
    Seq::new((FRAME_SIZE as int / size) as nat, |k: int| (base + k * size) as u64)
}

/// The free lists, the frame state and the result after a request for
/// `size` bytes aligned to `align` was served. Each free list has its head
/// first.
pub open spec fn allocate_outcome(
    lists: Seq<Seq<u64>>,
    space: FrameSpace,
    size: usize,
    align: usize,
) -> (Seq<Seq<u64>>, FrameSpace, Result<u64, AllocError>) {
    match mode_for(size, align) {
        AllocationMode::Block(class) => {
            let list = lists[class as int];
            if list.len() > 0 {
                (lists.update(class as int, list.drop_first()), space, Ok(list[0]))
            } else {
                match space.first_fit(1) {
                    None => (lists, space, Err(AllocError::OutOfMemory)),
                    Some(frame) => {
                        let blocks = carved_blocks(
                            frame * FRAME_SIZE,
                            block_size_of(class as int) as int,
                        );
                        (
                            lists.update(class as int, blocks.drop_first()),
                            space.mark(frame, 1),
                            Ok(blocks[0]),
                        )
                    },
                }
            }
        },
        AllocationMode::Frame(count) => match space.first_fit(count as int) {
            None => (lists, space, Err(AllocError::OutOfMemory)),
            Some(frame) => (lists, space.mark(frame, count as int), Ok((frame * FRAME_SIZE) as u64)),
        },
    }
}

/// The free lists and the frame state after the block at `ptr`, which was
/// asked for with `size` and `align`, was given back.
pub open spec fn deallocate_outcome(
    lists: Seq<Seq<u64>>,
    space: FrameSpace,
    ptr: u64,
    size: usize,
    align: usize,
) -> (Seq<Seq<u64>>, FrameSpace) {
    match mode_for(size, align) {
        AllocationMode::Block(class) => (
            lists.update(class as int, seq![ptr] + lists[class as int]),
            space,
        ),
        AllocationMode::Frame(count) => (
            lists,
            space.release(ptr as int / FRAME_SIZE as int, count as int),
        ),
    }
}

/// The run of `count` frames that the frame allocator would hand out, if
/// it has one, starts inside the identity-mapped window, where its address
/// can be translated.
pub open spec fn frame_in_window(space: FrameSpace, count: int) -> bool {
    space.first_fit(count) matches Some(frame) ==> frame < WINDOW_FRAME_COUNT
}

/// What `allocate` asks of a request: if it takes frames from the frame
/// allocator, the frames that it gets start inside the identity-mapped
/// window. A small request takes a frame only when the list of its class
/// is empty.
pub open spec fn can_allocate(
    lists: Seq<Seq<u64>>,
    space: FrameSpace,
    size: usize,
    align: usize,
) -> bool {
    match mode_for(size, align) {
        AllocationMode::Block(class) => lists[class as int].len() == 0 ==> frame_in_window(
            space,
            1,
        ),
        AllocationMode::Frame(count) => frame_in_window(space, count as int),
    }
}

/// What `deallocate` asks of a block served in whole frames: it lies inside
/// the identity-mapped window, and its frames are frames the bitmap tracks.
pub open spec fn can_deallocate(ptr: u64, size: usize, align: usize) -> bool {
    mode_for(size, align) matches AllocationMode::Frame(count) ==> ptr < IDENTITY_WINDOW && ptr
        as int / FRAME_SIZE as int + count <= FRAME_COUNT
}

/// The virtual address at which the first byte of a frame inside the
/// identity-mapped window is found.
fn frame_base(frame: FrameId) -> (base: VirtualAddress)
    requires
        frame.index() < WINDOW_FRAME_COUNT,
    ensures
        base@ == frame.index() * FRAME_SIZE,
{
    match as_virt_addr(frame.to_physical_address()) {
        Some(base) => base,
        None => unreached(),
    }
}

/// The kernel heap.
pub struct KernelAllocator {
    /// One stack of free blocks per class; the head of a list is the last
    /// element of its stack.
    blocks: Vec<Vec<VirtualAddress>>,
}

/// The list that a stack of free blocks stands for: the addresses of its
/// elements from the top down.
pub open spec fn stack_list(stack: Seq<VirtualAddress>) -> Seq<u64> {
    Seq::new(stack.len(), |k: int| stack[stack.len() - 1 - k]@)
}

impl View for KernelAllocator {
    type V = Seq<Seq<u64>>;

    closed spec fn view(&self) -> Seq<Seq<u64>> {
        Seq::new(self.blocks@.len(), |c: int| stack_list(self.blocks@[c]@))
    }
}

impl KernelAllocator {
    #[verifier::type_invariant]
    spec fn inv(&self) -> bool {
        self.blocks@.len() == BLOCK_CLASS_COUNT
    }

    /// A heap whose free lists are all empty.
    pub fn new() -> (heap: KernelAllocator)
        ensures
            heap@.len() == BLOCK_CLASS_COUNT,
            forall|c: int| 0 <= c < BLOCK_CLASS_COUNT ==> heap@[c].len() == 0,
    {
        let mut blocks: Vec<Vec<VirtualAddress>> = Vec::new();
        let mut c: usize = 0;
        while c < BLOCK_CLASS_COUNT
            invariant
                c <= BLOCK_CLASS_COUNT,
                blocks@.len() == c,
                forall|k: int| 0 <= k < c ==> blocks@[k]@.len() == 0,
            decreases BLOCK_CLASS_COUNT - c,
        {
            blocks.push(Vec::new());
            c = c + 1;
        }
        KernelAllocator { blocks }
    }

    /// Number of free blocks on the list of `class`.
    pub fn free_blocks(&self, class: usize) -> (count: usize)
        requires
            class < BLOCK_CLASS_COUNT,
        ensures
            self@.len() == BLOCK_CLASS_COUNT,
            count == self@[class as int].len(),
    {
        proof {
            use_type_invariant(self);
        }
        self.blocks[class].len()
    }

    /// Takes one frame from `frames` and carves it into the blocks of
    /// `class`, whose list is empty; hands out the first block and leaves
    /// the others on the list.
    fn allocate_frame_for_block(&mut self, frames: &mut BitmapMemoryManager, class: usize) -> (result:
        Result<VirtualAddress, AllocError>)
        requires
            class < BLOCK_CLASS_COUNT,
            old(self)@[class as int].len() == 0,
            frame_in_window(old(frames)@, 1),
        ensures
            final(self)@.len() == BLOCK_CLASS_COUNT,
            match result {
                Ok(ptr) => {
                    &&& old(frames)@.first_fit(1) matches Some(frame)
                    &&& final(frames)@ == old(frames)@.mark(frame, 1)
                    &&& ptr@ == carved_blocks(
                        frame * FRAME_SIZE,
                        block_size_of(class as int) as int,
                    )[0]
                    &&& final(self)@ == old(self)@.update(
                        class as int,
                        carved_blocks(
                            frame * FRAME_SIZE,
                            block_size_of(class as int) as int,
                        ).drop_first(),
                    )
                },
                Err(e) => {
                    &&& e == AllocError::OutOfMemory
                    &&& old(frames)@.first_fit(1) is None
                    &&& final(frames)@ == old(frames)@
                    &&& final(self)@ == old(self)@
                },
            },
    {
        proof {
            use_type_invariant(&*self);
            lemma_first_fit(frames@, 1);
        }
        let size = block_size(class);
        let frame = match frames.allocate(1) {
            Ok(frame) => frame,
            Err(e) => {
                return Err(e);
            },
        };
        let base = frame_base(frame).as_u64();
        let count = FRAME_SIZE / size;
        let ghost carved = carved_blocks(base as int, size as int);
        assert(count * size == FRAME_SIZE) by (nonlinear_arith)
            requires
                count == FRAME_SIZE / size,
                FRAME_SIZE as int % size as int == 0,
                size > 0,
        ;
        let mut k: u64 = count - 1;
        while k > 0
            invariant
                class < BLOCK_CLASS_COUNT,
                self.blocks@.len() == BLOCK_CLASS_COUNT,
                k < count,
                count * size == FRAME_SIZE,
                size == block_size_of(class as int),
                8 <= size <= MAX_BLOCK_SIZE,
                base + FRAME_SIZE <= IDENTITY_WINDOW,
                carved == carved_blocks(base as int, size as int),
                carved.len() == count,
                forall|c: int|
                    0 <= c < BLOCK_CLASS_COUNT && c != class ==> self.blocks@[c] == old(
                        self,
                    ).blocks@[c],
                self.blocks@[class as int]@.len() == count - 1 - k,
                forall|j: int|
                    0 <= j < count - 1 - k ==> (#[trigger] self.blocks@[class as int]@[j])@
                        == carved[count - 1 - j],
            decreases k,
        {
            assert(k * size < count * size) by (nonlinear_arith)
                requires
                    k < count,
                    size > 0,
            ;
            let block = VirtualAddress::new(base + k * size);
            self.blocks[class].push(block);
            k = k - 1;
        }
        proof {
            assert(self@ =~= old(self)@.update(class as int, carved.drop_first())) by {
                assert forall|c: int| 0 <= c < BLOCK_CLASS_COUNT implies self@[c] == old(
                    self,
                )@.update(class as int, carved.drop_first())[c] by {
                    if c == class {
                        assert(stack_list(self.blocks@[c]@) =~= carved.drop_first());
                    }
                }
            }
        }
        Ok(VirtualAddress::new(base))
    }

    /// Whether `allocate` can serve a request for `size` bytes aligned to
    /// `align`: whether the frames that the request would take, if it would
    /// take any, start inside the identity-mapped window.
    pub fn can_allocate(&self, frames: &BitmapMemoryManager, size: usize, align: usize) -> (ok: bool)
        ensures
            ok == can_allocate(self@, frames@, size, align),
    {
        proof {
            use_type_invariant(self);
        }
        let count = match AllocationMode::classify(size, align) {
            AllocationMode::Block(class) => {
                if self.blocks[class].len() > 0 {
                    return true;
                }
                1
            },
            AllocationMode::Frame(count) => count,
        };
        proof {
            lemma_first_fit(frames@, count as int);
        }
        match frames.find_free_run(count) {
            Some(frame) => frame.get() < WINDOW_FRAME_COUNT,
            None => true,
        }
    }

    /// Serves a request for `size` bytes aligned to `align`.
    ///
    /// A small request takes the head of its class's free list; where the
    /// list is empty, one frame is taken from `frames` and carved into
    /// blocks, of which the first is handed out and the others form the
    /// list. A large request takes whole frames. The request fails, with
    /// nothing changed, exactly when the frames it needs cannot be had.
    ///
    /// Frames that the request takes must start inside the identity-mapped
    /// window, outside of which no address can be translated:
    /// `can_allocate` tells whether they do.
    pub fn allocate(&mut self, frames: &mut BitmapMemoryManager, size: usize, align: usize) -> (result:
        Result<VirtualAddress, AllocError>)
        requires
            can_allocate(old(self)@, old(frames)@, size, align),
        ensures
            final(self)@.len() == BLOCK_CLASS_COUNT,
            final(self)@ == allocate_outcome(old(self)@, old(frames)@, size, align).0,
            final(frames)@ == allocate_outcome(old(self)@, old(frames)@, size, align).1,
            match result {
                Ok(ptr) => allocate_outcome(old(self)@, old(frames)@, size, align).2 == Ok::<
                    u64,
                    AllocError,
                >(ptr@),
                Err(e) => allocate_outcome(old(self)@, old(frames)@, size, align).2 == Err::<
                    u64,
                    AllocError,
                >(e),
            },
    {
        proof {
            use_type_invariant(&*self);
        }
        match AllocationMode::classify(size, align) {
            AllocationMode::Block(class) => {
                let ghost before = self.blocks@[class as int]@;
                if self.blocks[class].len() > 0 {
                    let head = self.blocks[class].pop().unwrap();
                    proof {
                        assert(stack_list(before).drop_first() =~= stack_list(before.drop_last()));
                        assert(self@ =~= old(self)@.update(
                            class as int,
                            stack_list(before).drop_first(),
                        ));
                    }
                    Ok(head)
                } else {
                    self.allocate_frame_for_block(frames, class)
                }
            },
            AllocationMode::Frame(count) => {
                proof {
                    lemma_first_fit(frames@, count as int);
                }
                match frames.allocate(count) {
                    Ok(frame) => Ok(frame_base(frame)),
                    Err(e) => Err(e),
                }
            },
        }
    }

    /// Takes back the block at `ptr`, which was asked for with `size` and
    /// `align`.
    ///
    /// A small block becomes the head of its class's free list. A large
    /// block gives its frames back to `frames`. Whether the block was ever
    /// handed out is not examined.
    pub fn deallocate(
        &mut self,
        frames: &mut BitmapMemoryManager,
        ptr: VirtualAddress,
        size: usize,
        align: usize,
    )
        requires
            can_deallocate(ptr@, size, align),
        ensures
            final(self)@.len() == BLOCK_CLASS_COUNT,
            final(self)@ == deallocate_outcome(old(self)@, old(frames)@, ptr@, size, align).0,
            final(frames)@ == deallocate_outcome(old(self)@, old(frames)@, ptr@, size, align).1,
    {
        proof {
            use_type_invariant(&*self);
        }
        match AllocationMode::classify(size, align) {
            AllocationMode::Block(class) => {
                let ghost before = self.blocks@[class as int]@;
                self.blocks[class].push(ptr);
                proof {
                    assert(stack_list(before.push(ptr)) =~= seq![ptr@] + stack_list(before));
                    assert(self@ =~= old(self)@.update(
                        class as int,
                        seq![ptr@] + old(self)@[class as int],
                    ));
                }
            },
            AllocationMode::Frame(count) => {
                let frame = match as_phys_addr(ptr) {
                    Some(physical) => FrameId::from_physical_address(physical),
                    None => unreached(),
                };
                frames.free(frame, count);
            },
        }
    }
}

/// A small block that was handed out and given back is handed out again by
/// the next request of its class: giving it back puts it at the head of the
/// class's list and leaves every other list and the frames as they were,
/// and the next request takes that head and restores the lists.
pub proof fn lemma_block_round_trip(
    lists: Seq<Seq<u64>>,
    space: FrameSpace,
    size: usize,
    align: usize,
)
    requires
        lists.len() == BLOCK_CLASS_COUNT,
        mode_for(size, align) is Block,
        allocate_outcome(lists, space, size, align).2 is Ok,
    ensures
        ({
            let class = mode_for(size, align)->Block_0 as int;
            let first = allocate_outcome(lists, space, size, align);
            let ptr = first.2->Ok_0;
            let back = deallocate_outcome(first.0, first.1, ptr, size, align);
            let second = allocate_outcome(back.0, back.1, size, align);
            &&& back.1 == first.1
            &&& back.0 == first.0.update(class, seq![ptr] + first.0[class])
            &&& second.2 == Ok::<u64, AllocError>(ptr)
            &&& second.0 == first.0
            &&& second.1 == first.1
        }),
{
    let class = mode_for(size, align)->Block_0 as int;
    let first = allocate_outcome(lists, space, size, align);
    let ptr = first.2->Ok_0;
    let back = deallocate_outcome(first.0, first.1, ptr, size, align);
    let second = allocate_outcome(back.0, back.1, size, align);
    assert(0 <= class < BLOCK_CLASS_COUNT);
    assert(first.0.len() == BLOCK_CLASS_COUNT);
    assert((seq![ptr] + first.0[class]).drop_first() =~= first.0[class]);
    assert(second.0 =~= first.0);
}

/// Whole frames that were handed out can be given back, and giving them
/// back frees exactly the frames that the request took: the frame state is
/// then what it was before the request.
pub proof fn lemma_frame_round_trip(
    lists: Seq<Seq<u64>>,
    space: FrameSpace,
    size: usize,
    align: usize,
)
    requires
        space.bounded(),
        can_allocate(lists, space, size, align),
        mode_for(size, align) is Frame,
        allocate_outcome(lists, space, size, align).2 is Ok,
    ensures
        ({
            let first = allocate_outcome(lists, space, size, align);
            let ptr = first.2->Ok_0;
            let back = deallocate_outcome(first.0, first.1, ptr, size, align);
            &&& can_deallocate(ptr, size, align)
            &&& back.0 == lists
            &&& back.1 == space
        }),
{
    let count = mode_for(size, align)->Frame_0 as int;
    let first = allocate_outcome(lists, space, size, align);
    let ptr = first.2->Ok_0;
    lemma_first_fit(space, count);
    let frame = space.first_fit(count)->Some_0;
    assert(space.is_first_fit(frame, count));
    assert(ptr == frame * FRAME_SIZE);
    let back = deallocate_outcome(first.0, first.1, ptr, size, align);
    assert(back.1.allocated =~= space.allocated);
}

/// The block at `address` can be on the list of `class`: it lies at a
/// multiple of the class's block size, in a frame that is allocated.
pub open spec fn block_backed(space: FrameSpace, class: int, address: u64) -> bool {
    &&& address as int % block_size_of(class) as int == 0
    &&& space.allocated.contains(address as int / FRAME_SIZE as int)
}

/// Every block on every list can be there.
pub open spec fn lists_backed(lists: Seq<Seq<u64>>, space: FrameSpace) -> bool {
    &&& lists.len() == BLOCK_CLASS_COUNT
    &&& forall|c: int, k: int|
        0 <= c < BLOCK_CLASS_COUNT && 0 <= k < lists[c].len() ==> block_backed(
            space,
            c,
            #[trigger] lists[c][k],
        )
}

/// The blocks that a frame is carved into lie in that frame, each at a
/// multiple of the block size.
proof fn lemma_carved_blocks(frame: int, class: int, k: int)
    requires
        0 <= frame < WINDOW_FRAME_COUNT,
        0 <= class < BLOCK_CLASS_COUNT,
        0 <= k < FRAME_SIZE as int / block_size_of(class) as int,
    ensures
        carved_blocks(frame * FRAME_SIZE, block_size_of(class) as int)[k] == frame * FRAME_SIZE + k
            * block_size_of(class),
        (frame * FRAME_SIZE + k * block_size_of(class)) % block_size_of(class) as int == 0,
        (frame * FRAME_SIZE + k * block_size_of(class)) / FRAME_SIZE as int == frame,
{
    let size = block_size_of(class) as int;
    lemma_block_sizes_divide_frame(class);
    let per_frame = FRAME_SIZE as int / size;
    assert(per_frame * size == 4096) by (nonlinear_arith)
        requires
            4096int % size == 0,
            size > 0,
            per_frame == 4096int / size,
    ;
    assert(0 <= k * size <= 4096 - size) by (nonlinear_arith)
        requires
            0 <= k < per_frame,
            per_frame * size == 4096,
            size > 0,
    ;
    assert((frame * 4096 + k * size) % size == 0) by (nonlinear_arith)
        requires
            per_frame * size == 4096,
            size > 0,
    {
        assert(frame * 4096 + k * size == (frame * per_frame + k) * size) by (nonlinear_arith)
            requires
                per_frame * size == 4096,
        ;
        vstd::arithmetic::div_mod::lemma_mod_multiples_basic(frame * per_frame + k, size);
    }
    assert((frame * 4096 + k * size) / 4096 == frame) by (nonlinear_arith)
        requires
            0 <= k * size < 4096,
            0 <= frame,
    ;
}

/// Serving a request leaves on the lists only blocks that can be there,
/// and a small block that it hands out could have been on the list of its
/// class.
pub proof fn lemma_allocate_keeps_lists_backed(
    lists: Seq<Seq<u64>>,
    space: FrameSpace,
    size: usize,
    align: usize,
)
    requires
        lists_backed(lists, space),
        space.bounded(),
        can_allocate(lists, space, size, align),
    ensures
        ({
            let after = allocate_outcome(lists, space, size, align);
            &&& lists_backed(after.0, after.1)
            &&& (mode_for(size, align) is Block && after.2 is Ok) ==> block_backed(
                after.1,
                mode_for(size, align)->Block_0 as int,
                after.2->Ok_0,
            )
        }),
{
    let after = allocate_outcome(lists, space, size, align);
    match mode_for(size, align) {
        AllocationMode::Block(class) => {
            let c = class as int;
            assert(0 <= c < BLOCK_CLASS_COUNT);
            let list = lists[c];
            if list.len() > 0 {
                assert(block_backed(space, c, lists[c][0]));
                assert forall|d: int, k: int|
                    0 <= d < BLOCK_CLASS_COUNT && 0 <= k < after.0[d].len() implies block_backed(
                    after.1,
                    d,
                    #[trigger] after.0[d][k],
                ) by {
                    if d == c {
                        assert(after.0[d][k] == lists[c][k + 1]);
                    } else {
                        assert(after.0[d][k] == lists[d][k]);
                    }
                }
            } else {
                lemma_first_fit(space, 1);
                match space.first_fit(1) {
                    None => {},
                    Some(frame) => {
                        assert(space.is_first_fit(frame, 1));
                        assert(after.1.allocated.contains(frame));
                        lemma_block_sizes_divide_frame(c);
                        lemma_carved_blocks(frame, c, 0);
                        assert forall|d: int, k: int|
                            0 <= d < BLOCK_CLASS_COUNT && 0 <= k < after.0[d].len() implies block_backed(
                            after.1,
                            d,
                            #[trigger] after.0[d][k],
                        ) by {
                            if d == c {
                                lemma_carved_blocks(frame, c, k + 1);
                            } else {
                                assert(after.0[d][k] == lists[d][k]);
                                assert(block_backed(space, d, lists[d][k]));
                            }
                        }
                    },
                }
            }
        },
        AllocationMode::Frame(count) => {
            assert forall|d: int, k: int|
                0 <= d < BLOCK_CLASS_COUNT && 0 <= k < after.0[d].len() implies block_backed(
                after.1,
                d,
                #[trigger] after.0[d][k],
            ) by {
                assert(block_backed(space, d, lists[d][k]));
            }
        },
    }
}

/// Taking back a small block that can be on the list of its class leaves
/// on the lists only blocks that can be there.
pub proof fn lemma_deallocate_keeps_lists_backed(
    lists: Seq<Seq<u64>>,
    space: FrameSpace,
    ptr: u64,
    size: usize,
    align: usize,
)
    requires
        lists_backed(lists, space),
        mode_for(size, align) is Block,
        block_backed(space, mode_for(size, align)->Block_0 as int, ptr),
    ensures
        lists_backed(
            deallocate_outcome(lists, space, ptr, size, align).0,
            deallocate_outcome(lists, space, ptr, size, align).1,
        ),
{
    let after = deallocate_outcome(lists, space, ptr, size, align);
    let c = mode_for(size, align)->Block_0 as int;
    assert(0 <= c < BLOCK_CLASS_COUNT);
    assert forall|d: int, k: int|
        0 <= d < BLOCK_CLASS_COUNT && 0 <= k < after.0[d].len() implies block_backed(
        after.1,
        d,
        #[trigger] after.0[d][k],
    ) by {
        if d == c {
            if k > 0 {
                assert(after.0[d][k] == lists[c][k - 1]);
            }
        } else {
            assert(after.0[d][k] == lists[d][k]);
        }
    }
}

/// No address stands on the lists twice, be it on one list or on two.
pub open spec fn lists_distinct(lists: Seq<Seq<u64>>) -> bool {
    forall|c: int, k: int, d: int, j: int|
        0 <= c < lists.len() && 0 <= k < lists[c].len() && 0 <= d < lists.len() && 0 <= j
            < lists[d].len() && (c != d || k != j) ==> #[trigger] lists[c][k]
            != #[trigger] lists[d][j]
}

/// The block at `address` stands on no list.
pub open spec fn on_no_list(lists: Seq<Seq<u64>>, address: u64) -> bool {
    forall|c: int, k: int|
        0 <= c < lists.len() && 0 <= k < lists[c].len() ==> #[trigger] lists[c][k] != address
}

/// Serving a request leaves every free block on the lists once, and the
/// block that it hands out on none: what is handed out is handed out to
/// one caller only.
pub proof fn lemma_allocate_keeps_lists_distinct(
    lists: Seq<Seq<u64>>,
    space: FrameSpace,
    size: usize,
    align: usize,
)
    requires
        lists_backed(lists, space),
        lists_distinct(lists),
        space.bounded(),
        can_allocate(lists, space, size, align),
    ensures
        ({
            let after = allocate_outcome(lists, space, size, align);
            &&& lists_distinct(after.0)
            &&& after.2 is Ok ==> on_no_list(after.0, after.2->Ok_0)
        }),
{
    let after = allocate_outcome(lists, space, size, align);
    match mode_for(size, align) {
        AllocationMode::Block(class) => {
            let c = class as int;
            assert(0 <= c < BLOCK_CLASS_COUNT);
            let list = lists[c];
            if list.len() > 0 {
                assert forall|a: int, k: int, d: int, j: int|
                    0 <= a < after.0.len() && 0 <= k < after.0[a].len() && 0 <= d < after.0.len()
                        && 0 <= j < after.0[d].len() && (a != d || k != j) implies #[trigger] after.0[a][k]
                    != #[trigger] after.0[d][j] by {
                    let ka = if a == c { k + 1 } else { k };
                    let jd = if d == c { j + 1 } else { j };
                    assert(after.0[a][k] == lists[a][ka]);
                    assert(after.0[d][j] == lists[d][jd]);
                }
                assert forall|a: int, k: int|
                    0 <= a < after.0.len() && 0 <= k < after.0[a].len() implies #[trigger] after.0[a][k]
                    != list[0] by {
                    let ka = if a == c { k + 1 } else { k };
                    assert(after.0[a][k] == lists[a][ka]);
                    assert(lists[c][0] == list[0]);
                }
            } else {
                lemma_first_fit(space, 1);
                match space.first_fit(1) {
                    None => {},
                    Some(frame) => {
                        assert(space.is_first_fit(frame, 1));
                        assert(!space.allocated.contains(frame));
                        lemma_block_sizes_divide_frame(c);
                        lemma_carved_blocks(frame, c, 0);
                        let block = block_size_of(c) as int;
                        assert forall|a: int, k: int|
                            0 <= a < after.0.len() && 0 <= k < after.0[a].len() implies (
                        #[trigger] after.0[a][k]) as int / FRAME_SIZE as int == frame <==> a
                            == c by {
                            if a == c {
                                lemma_carved_blocks(frame, c, k + 1);
                            } else {
                                assert(after.0[a][k] == lists[a][k]);
                                assert(block_backed(space, a, lists[a][k]));
                            }
                        }
                        assert forall|a: int, k: int, d: int, j: int|
                            0 <= a < after.0.len() && 0 <= k < after.0[a].len() && 0 <= d
                                < after.0.len() && 0 <= j < after.0[d].len() && (a != d || k
                                != j) implies #[trigger] after.0[a][k] != #[trigger] after.0[d][j] by {
                            if a == c && d == c {
                                lemma_carved_blocks(frame, c, k + 1);
                                lemma_carved_blocks(frame, c, j + 1);
                                assert((k + 1) * block != (j + 1) * block) by (nonlinear_arith)
                                    requires
                                        k != j,
                                        block > 0,
                                ;
                            } else if a != c && d != c {
                                assert(after.0[a][k] == lists[a][k]);
                                assert(after.0[d][j] == lists[d][j]);
                            }
                        }
                        assert forall|a: int, k: int|
                            0 <= a < after.0.len() && 0 <= k < after.0[a].len() implies #[trigger] after.0[a][k]
                            != after.2->Ok_0 by {
                            if a == c {
                                lemma_carved_blocks(frame, c, k + 1);
                                assert((k + 1) * block != 0) by (nonlinear_arith)
                                    requires
                                        k >= 0,
                                        block > 0,
                                ;
                            }
                        }
                    },
                }
            }
        },
        AllocationMode::Frame(count) => {
            lemma_first_fit(space, count as int);
            match space.first_fit(count as int) {
                None => {},
                Some(frame) => {
                    assert(space.is_first_fit(frame, count as int));
                    let ptr = after.2->Ok_0;
                    assert(ptr == frame * FRAME_SIZE);
                    assert(ptr as int / FRAME_SIZE as int == frame);
                    assert(count >= 1);
                    assert(!space.allocated.contains(frame));
                    assert forall|a: int, k: int|
                        0 <= a < lists.len() && 0 <= k < lists[a].len() implies #[trigger] lists[a][k]
                        != ptr by {
                        assert(block_backed(space, a, lists[a][k]));
                    }
                },
            }
        },
    }
}

/// Taking back a block that stands on no list leaves every free block on
/// the lists once.
pub proof fn lemma_deallocate_keeps_lists_distinct(
    lists: Seq<Seq<u64>>,
    space: FrameSpace,
    ptr: u64,
    size: usize,
    align: usize,
)
    requires
        lists.len() == BLOCK_CLASS_COUNT,
        lists_distinct(lists),
        mode_for(size, align) is Block ==> on_no_list(lists, ptr),
    ensures
        lists_distinct(deallocate_outcome(lists, space, ptr, size, align).0),
{
    let after = deallocate_outcome(lists, space, ptr, size, align);
    if mode_for(size, align) is Block {
        let c = mode_for(size, align)->Block_0 as int;
        assert(0 <= c < BLOCK_CLASS_COUNT);
        assert forall|a: int, k: int, d: int, j: int|
            0 <= a < after.0.len() && 0 <= k < after.0[a].len() && 0 <= d < after.0.len() && 0 <= j
                < after.0[d].len() && (a != d || k != j) implies #[trigger] after.0[a][k]
            != #[trigger] after.0[d][j] by {
            if a == c && k > 0 {
                assert(after.0[a][k] == lists[c][k - 1]);
            } else if a != c {
                assert(after.0[a][k] == lists[a][k]);
            }
            if d == c && j > 0 {
                assert(after.0[d][j] == lists[c][j - 1]);
            } else if d != c {
                assert(after.0[d][j] == lists[d][j]);
            }
        }
    }
}

} // verus!
