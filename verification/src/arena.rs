//! Fixed-size block arena.
//!
//! Two independent pools — one of large digital byte blocks, one of smaller
//! analog sample blocks — hand out uniquely owned [`Block`]s.  Allocation
//! never blocks and never grows the pools after construction; running out of
//! free blocks is an ordinary condition reported as `None`.  A block carries
//! the index of its pool slot, and the pool keeps one `taken` flag per slot:
//! allocation hands out only blocks whose flag is clear and sets it, release
//! clears it again, so a block is never handed out while a previous holder
//! still owns it.

use vstd::prelude::*;

verus! {

/// Payload bytes of one digital block.
pub const DIGITAL_BLOCK_BYTES: usize = 4096;

/// Payload bytes of one analog block.
pub const ANALOG_BLOCK_BYTES: usize = 2048;

/// The two block families, drawn from independent pools so that neither can
/// starve the other.
#[derive(Clone, Copy, Debug, PartialEq, Eq, Structural)]
pub enum BlockKind {
    Digital,
    Analog,
}

/// Payload capacity of a block of the given kind.
pub open spec fn spec_block_bytes(kind: BlockKind) -> usize {
    match kind {
        BlockKind::Digital => DIGITAL_BLOCK_BYTES,
        BlockKind::Analog => ANALOG_BLOCK_BYTES,
    }
}

/// Payload capacity of a block of the given kind.
pub fn block_bytes(kind: BlockKind) -> (r: usize)
    ensures
        r == spec_block_bytes(kind),
{
    match kind {
        BlockKind::Digital => DIGITAL_BLOCK_BYTES,
        BlockKind::Analog => ANALOG_BLOCK_BYTES,
    }
}

/// A fixed-size memory block owned by exactly one holder at a time.
pub struct Block {
    /// Which pool this block belongs to.
    pub kind: BlockKind,
    /// Index of this block's slot in its pool.
    pub id: usize,
    /// Payload storage; always exactly the capacity of the kind.
    pub data: Vec<u8>,
}

impl Block {
    /// Structural well-formedness of a block on its own: right payload size.
    pub open spec fn sized(self) -> bool {
        self.data@.len() == spec_block_bytes(self.kind)
    }
}

/// One fixed pool of equally sized blocks.
pub struct Pool {
    /// Kind of every block in this pool.
    pub kind: BlockKind,
    /// Stack of free blocks.
    pub free: Vec<Block>,
    /// One flag per slot: true while the slot's block is handed out.
    pub taken: Vec<bool>,
}

impl Pool {
    /// Number of slots this pool was built with.
    pub open spec fn slots(self) -> nat {
        self.taken@.len()
    }

    /// Pool invariant: free blocks are well formed, sit below the slot
    /// count, are marked not taken, and carry pairwise distinct ids; and
    /// every slot that is not marked taken is present in the free stack.
    pub open spec fn wf(self) -> bool {
        &&& forall|i: int|
            0 <= i < self.free@.len() ==> {
                &&& (#[trigger] self.free@[i]).kind == self.kind
                &&& self.free@[i].sized()
                &&& self.free@[i].id < self.taken@.len()
                &&& !self.taken@[self.free@[i].id as int]
            }
        &&& forall|i: int, j: int|
            0 <= i < self.free@.len() && 0 <= j < self.free@.len() && i != j
                ==> (#[trigger] self.free@[i]).id != (#[trigger] self.free@[j]).id
        &&& forall|id: int|
            0 <= id < self.taken@.len() && !self.taken@[id] ==> exists|i: int|
                0 <= i < self.free@.len() && (#[trigger] self.free@[i]).id == id
    }

    /// Same kind, same free stack, same taken flags.
    pub open spec fn unchanged(self, other: Pool) -> bool {
        &&& self.kind == other.kind
        &&& self.free@ == other.free@
        &&& self.taken@ == other.taken@
    }

    /// A handed-out block is backed by this pool: it belongs to the pool,
    /// has the right size, and its slot is marked taken.
    pub open spec fn backs(self, b: Block) -> bool {
        &&& b.kind == self.kind
        &&& b.sized()
        &&& b.id < self.taken@.len()
        &&& self.taken@[b.id as int]
    }

    /// Build a pool of `count` fresh blocks.
    pub fn new(kind: BlockKind, count: usize) -> (p: Pool)
        ensures
            p.wf(),
            p.kind == kind,
            p.slots() == count,
            p.free@.len() == count,
    {
        let bytes = block_bytes(kind);
        let mut free: Vec<Block> = Vec::new();
        let mut taken: Vec<bool> = Vec::new();
        let mut id: usize = 0;
        while id < count
            invariant
                bytes == spec_block_bytes(kind),
                free@.len() == id,
                taken@.len() == id,
                id <= count,
                forall|i: int|
                    0 <= i < id ==> {
                        &&& (#[trigger] free@[i]).kind == kind
                        &&& free@[i].sized()
                        &&& free@[i].id == i
                        &&& !taken@[i]
                    },
            decreases count - id,
        {
            let mut data: Vec<u8> = Vec::new();
            let mut k: usize = 0;
            while k < bytes
                invariant
                    data@.len() == k,
                    k <= bytes,
                decreases bytes - k,
            {
                data.push(0u8);
                k += 1;
            }
            free.push(Block { kind, id, data });
            taken.push(false);
            id += 1;
        }
        proof {
            assert forall|id2: int|
                0 <= id2 < taken@.len() && !taken@[id2] implies exists|i: int|
                0 <= i < free@.len() && (#[trigger] free@[i]).id == id2 by {
                assert(free@[id2].id == id2);
            }
        }
        Pool { kind, free, taken }
    }

    /// Hand out a free block, if any is left.  Never blocks, never grows.
    pub fn allocate(&mut self) -> (r: Option<Block>)
        requires
            old(self).wf(),
        ensures
            final(self).wf(),
            final(self).kind == old(self).kind,
            final(self).slots() == old(self).slots(),
            match r {
                None => {
                    &&& old(self).free@.len() == 0
                    &&& final(self).unchanged(*old(self))
                },
                Some(b) => {
                    &&& old(self).free@.len() > 0
                    &&& b == old(self).free@.last()
                    &&& !old(self).taken@[b.id as int]
                    &&& final(self).backs(b)
                    &&& final(self).free@ == old(self).free@.drop_last()
                    &&& final(self).taken@ == old(self).taken@.update(b.id as int, true)
                },
            },
    {
        let ghost pre = *self;
        match self.free.pop() {
            None => None,
            Some(b) => {
                let id = b.id;
                self.taken.set(id, true);
                proof {
                    assert forall|id2: int|
                        0 <= id2 < self.taken@.len() && !self.taken@[id2] implies exists|i: int|
                        0 <= i < self.free@.len() && (#[trigger] self.free@[i]).id == id2 by {
                        let i = choose|i: int|
                            0 <= i < pre.free@.len() && (#[trigger] pre.free@[i]).id == id2;
                        assert(i != pre.free@.len() - 1);
                        assert(self.free@[i].id == id2);
                    }
                }
                Some(b)
            },
        }
    }

    /// Return a handed-out block to the pool.
    pub fn release(&mut self, b: Block)
        requires
            old(self).wf(),
            old(self).backs(b),
        ensures
            final(self).wf(),
            final(self).kind == old(self).kind,
            final(self).slots() == old(self).slots(),
            final(self).free@ == old(self).free@.push(b),
            final(self).taken@ == old(self).taken@.update(b.id as int, false),
    {
        let ghost pre = *self;
        let id = b.id;
        self.free.push(b);
        self.taken.set(id, false);
        proof {
            assert forall|id2: int|
                0 <= id2 < self.taken@.len() && !self.taken@[id2] implies exists|i: int|
                0 <= i < self.free@.len() && (#[trigger] self.free@[i]).id == id2 by {
                if id2 == id {
                    assert(self.free@[self.free@.len() - 1].id == id2);
                } else {
                    let i = choose|i: int|
                        0 <= i < pre.free@.len() && (#[trigger] pre.free@[i]).id == id2;
                    assert(self.free@[i].id == id2);
                }
            }
        }
    }

    /// How many blocks are currently free.
    pub fn free_count(&self) -> (r: usize)
        ensures
            r == self.free@.len(),
    {
        self.free.len()
    }
}

/// The arena: one pool per block kind.
pub struct Arena {
    pub digital: Pool,
    pub analog: Pool,
}

impl Arena {
    /// Arena invariant: both pools are well formed and hold their own kind.
    pub open spec fn wf(self) -> bool {
        &&& self.digital.wf()
        &&& self.digital.kind == BlockKind::Digital
        &&& self.analog.wf()
        &&& self.analog.kind == BlockKind::Analog
    }

    /// The pool a block of the given kind lives in.
    pub open spec fn pool(self, kind: BlockKind) -> Pool {
        match kind {
            BlockKind::Digital => self.digital,
            BlockKind::Analog => self.analog,
        }
    }

    /// A handed-out block is backed by the arena's pool of its kind.
    pub open spec fn backs(self, b: Block) -> bool {
        self.pool(b.kind).backs(b)
    }

    /// Slot counts of both pools, used to state that sizing never changes.
    pub open spec fn same_shape(self, other: Arena) -> bool {
        &&& self.digital.slots() == other.digital.slots()
        &&& self.analog.slots() == other.analog.slots()
    }

    /// Build an arena with the given number of blocks per family.
    pub fn new(digital_count: usize, analog_count: usize) -> (a: Arena)
        ensures
            a.wf(),
            a.digital.slots() == digital_count,
            a.digital.free@.len() == digital_count,
            a.analog.slots() == analog_count,
            a.analog.free@.len() == analog_count,
    {
        Arena {
            digital: Pool::new(BlockKind::Digital, digital_count),
            analog: Pool::new(BlockKind::Analog, analog_count),
        }
    }

    /// Hand out a free block of the requested family, if any is left.
    pub fn allocate(&mut self, kind: BlockKind) -> (r: Option<Block>)
        requires
            old(self).wf(),
        ensures
            final(self).wf(),
            old(self).same_shape(*final(self)),
            final(self).pool(kind).kind == old(self).pool(kind).kind,
            match r {
                None => {
                    &&& old(self).pool(kind).free@.len() == 0
                    &&& final(self).pool(BlockKind::Digital).unchanged(old(self).pool(BlockKind::Digital))
                    &&& final(self).pool(BlockKind::Analog).unchanged(old(self).pool(BlockKind::Analog))
                },
                Some(b) => {
                    &&& b.kind == kind
                    &&& old(self).pool(kind).free@.len() > 0
                    &&& b == old(self).pool(kind).free@.last()
                    &&& !old(self).pool(kind).taken@[b.id as int]
                    &&& final(self).backs(b)
                    &&& final(self).pool(kind).free@ == old(self).pool(kind).free@.drop_last()
                    &&& final(self).pool(kind).taken@ == old(self).pool(kind).taken@.update(
                        b.id as int,
                        true,
                    )
                    &&& final(self).pool(other_kind(kind)).unchanged(old(self).pool(other_kind(kind)))
                },
            },
    {
        match kind {
            BlockKind::Digital => self.digital.allocate(),
            BlockKind::Analog => self.analog.allocate(),
        }
    }

    /// Return a handed-out block to its pool.
    pub fn release(&mut self, b: Block)
        requires
            old(self).wf(),
            old(self).backs(b),
        ensures
            final(self).wf(),
            old(self).same_shape(*final(self)),
            final(self).pool(b.kind).free@ == old(self).pool(b.kind).free@.push(b),
            final(self).pool(b.kind).taken@ == old(self).pool(b.kind).taken@.update(
                b.id as int,
                false,
            ),
            final(self).pool(other_kind(b.kind)).unchanged(old(self).pool(other_kind(b.kind))),
    {
        match b.kind {
            BlockKind::Digital => self.digital.release(b),
            BlockKind::Analog => self.analog.release(b),
        }
    }

    /// How many blocks of the given family are currently free.
    pub fn free_count(&self, kind: BlockKind) -> (r: usize)
        ensures
            r == self.pool(kind).free@.len(),
    {
        match kind {
            BlockKind::Digital => self.digital.free_count(),
            BlockKind::Analog => self.analog.free_count(),
        }
    }
}

/// The other block family.
pub open spec fn other_kind(kind: BlockKind) -> BlockKind {
    match kind {
        BlockKind::Digital => BlockKind::Analog,
        BlockKind::Analog => BlockKind::Digital,
    }
}

// ------------------------------------------------------------------
// Ownership law.
//
// The abstract model of one pool: the stack of free slot ids and the set of
// slot ids currently handed out.  `alloc` and `release` are the only
// operations, and the law below shows that along any sequence of them a
// block is never handed out while a previous holder still owns it.
// ------------------------------------------------------------------

/// Abstract state of one pool: free slot ids in stack order, live slot ids.
pub struct PoolModel {
    pub free: Seq<int>,
    pub live: Set<int>,
}

/// One abstract pool operation.
pub enum PoolOp {
    Alloc,
    Release(int),
}

/// Model invariant: no slot is both free and live, and the free stack holds
/// no duplicates.
pub open spec fn pool_model_inv(m: PoolModel) -> bool {
    &&& forall|i: int| 0 <= i < m.free.len() ==> !m.live.contains(#[trigger] m.free[i])
    &&& forall|i: int, j: int|
        0 <= i < m.free.len() && 0 <= j < m.free.len() && i != j ==> m.free[i] != m.free[j]
}

/// One step of the abstract pool.  `Alloc` pops the top free id (if any) and
/// makes it live; `Release(id)` of a live id makes it free again.
pub open spec fn pool_model_step(m: PoolModel, op: PoolOp) -> PoolModel {
    match op {
        PoolOp::Alloc => {
            if m.free.len() == 0 {
                m
            } else {
                PoolModel { free: m.free.drop_last(), live: m.live.insert(m.free.last()) }
            }
        },
        PoolOp::Release(id) => {
            if m.live.contains(id) {
                PoolModel { free: m.free.push(id), live: m.live.remove(id) }
            } else {
                m
            }
        },
    }
}

/// The model state after a whole sequence of operations.
pub open spec fn pool_model_run(m: PoolModel, ops: Seq<PoolOp>) -> PoolModel
    decreases ops.len(),
{
    if ops.len() == 0 {
        m
    } else {
        pool_model_run(pool_model_step(m, ops[0]), ops.skip(1))
    }
}

/// The abstract state of a concrete pool: its free ids and its taken slots.
pub open spec fn pool_model_of(p: Pool) -> PoolModel {
    PoolModel {
        free: p.free@.map(|i: int, b: Block| b.id as int),
        live: Set::new(|id: int| 0 <= id < p.taken@.len() && p.taken@[id]),
    }
}

/// A well-formed concrete pool satisfies the model invariant.
pub proof fn lemma_pool_wf_implies_model_inv(p: Pool)
    requires
        p.wf(),
    ensures
        pool_model_inv(pool_model_of(p)),
{
    let m = pool_model_of(p);
    assert forall|i: int| 0 <= i < m.free.len() implies !m.live.contains(#[trigger] m.free[i]) by {
        assert(m.free[i] == p.free@[i].id as int);
    }
}

/// One step preserves the model invariant.
pub proof fn lemma_pool_step_preserves_inv(m: PoolModel, op: PoolOp)
    requires
        pool_model_inv(m),
    ensures
        pool_model_inv(pool_model_step(m, op)),
{
    match op {
        PoolOp::Alloc => {},
        PoolOp::Release(id) => {
            if m.live.contains(id) {
                let m2 = pool_model_step(m, op);
                assert forall|i: int| 0 <= i < m2.free.len() implies !m2.live.contains(
                    #[trigger] m2.free[i],
                ) by {
                    if i < m.free.len() {
                        assert(m2.free[i] == m.free[i]);
                    }
                }
                assert forall|i: int, j: int|
                    0 <= i < m2.free.len() && 0 <= j < m2.free.len() && i != j implies m2.free[i]
                    != m2.free[j] by {
                    if i < m.free.len() && j < m.free.len() {
                    } else if i < m.free.len() {
                        assert(m2.free[j] == id);
                        assert(!m.live.contains(m.free[i]));
                    } else {
                        assert(m2.free[i] == id);
                        assert(!m.live.contains(m.free[j]));
                    }
                }
            }
        },
    }
}

/// The model invariant holds after any sequence of operations.
pub proof fn lemma_pool_run_preserves_inv(m: PoolModel, ops: Seq<PoolOp>)
    requires
        pool_model_inv(m),
    ensures
        pool_model_inv(pool_model_run(m, ops)),
    decreases ops.len(),
{
    if ops.len() > 0 {
        lemma_pool_step_preserves_inv(m, ops[0]);
        lemma_pool_run_preserves_inv(pool_model_step(m, ops[0]), ops.skip(1));
    }
}

/// Law: along any sequence of alloc/release operations starting from a
/// state satisfying the invariant — in particular from any well-formed
/// concrete pool — an allocation never hands out a slot that is still live,
/// i.e. a block is never handed out while owned by a previous holder.
pub proof fn lemma_no_double_alloc(m: PoolModel, ops: Seq<PoolOp>)
    requires
        pool_model_inv(m),
    ensures
        ({
            let reached = pool_model_run(m, ops);
            reached.free.len() > 0 ==> !reached.live.contains(reached.free.last())
        }),
{
    lemma_pool_run_preserves_inv(m, ops);
}

} // verus!
