//! A row-indexed model of the finished execution trace.
//!
//! The auxiliary-column builders consume the trace read-only, row by
//! row. Each row carries the values the builders are specified to read:
//! system values (clock, context), decoder values (address, opcode,
//! hasher state, stack, helper registers) and the eighteen physical
//! columns of the chiplets segment, in which the four sub-chiplets share
//! columns over disjoint row ranges.

use crate::felt::{is_felt, Felt};
use vstd::prelude::*;

verus! {

/// Number of physical columns in the chiplets segment of the trace.
pub const CHIPLETS_WIDTH: usize = 18;

/// Number of decoder hasher-state columns.
pub const DECODER_HASHER_STATE_WIDTH: usize = 8;

/// Number of stack columns carried per row.
pub const STACK_WIDTH: usize = 16;

/// Number of decoder helper registers carried per row.
pub const NUM_HELPERS: usize = 6;

/// Number of rows in one hash-chiplet cycle.
pub const HASH_CYCLE_LEN: usize = 8;

/// Number of rows in one bitwise-chiplet cycle.
pub const BITWISE_OP_CYCLE_LEN: usize = 8;

/// One row of the main trace.
pub struct TraceRow {
    /// Clock value of the row.
    pub clk: Felt,
    /// Execution context of the row.
    pub ctx: Felt,
    /// Decoder address column (hasher row address of the current block).
    pub addr: Felt,
    /// Opcode of the operation executed at this row.
    pub op_code: Felt,
    /// Decoder hasher state, 8 elements.
    pub decoder_hasher_state: Vec<Felt>,
    /// Top of the operand stack, 16 elements.
    pub stack: Vec<Felt>,
    /// Decoder helper registers, 6 elements.
    pub helpers: Vec<Felt>,
    /// The physical chiplets columns, 18 elements.
    pub chiplets: Vec<Felt>,
}

impl TraceRow {
    /// Shape and canonical-form invariant of a row.
    pub open spec fn wf(self) -> bool {
        &&& self.decoder_hasher_state.len() == DECODER_HASHER_STATE_WIDTH
        &&& self.stack.len() == STACK_WIDTH
        &&& self.helpers.len() == NUM_HELPERS
        &&& self.chiplets.len() == CHIPLETS_WIDTH
        &&& is_felt(self.clk)
        &&& is_felt(self.ctx)
        &&& is_felt(self.addr)
        &&& is_felt(self.op_code)
        &&& forall|i: int|
            0 <= i < DECODER_HASHER_STATE_WIDTH ==> is_felt(#[trigger] self.decoder_hasher_state@[i])
        &&& forall|i: int| 0 <= i < STACK_WIDTH ==> is_felt(#[trigger] self.stack@[i])
        &&& forall|i: int| 0 <= i < NUM_HELPERS ==> is_felt(#[trigger] self.helpers@[i])
        &&& forall|i: int| 0 <= i < CHIPLETS_WIDTH ==> is_felt(#[trigger] self.chiplets@[i])
    }

    /// An all-zero row.
    pub fn zeroed() -> (r: TraceRow)
        ensures
            r.wf(),
            r.clk == (Felt { v: 0u64 }),
            r.ctx == (Felt { v: 0u64 }),
            r.addr == (Felt { v: 0u64 }),
            r.op_code == (Felt { v: 0u64 }),
            forall|i: int|
                0 <= i < CHIPLETS_WIDTH ==> (#[trigger] r.chiplets@[i]) == (Felt { v: 0u64 }),
    {
        let mut decoder_hasher_state: Vec<Felt> = Vec::new();
        let mut stack: Vec<Felt> = Vec::new();
        let mut helpers: Vec<Felt> = Vec::new();
        let mut chiplets: Vec<Felt> = Vec::new();
        let mut i: usize = 0;
        while i < DECODER_HASHER_STATE_WIDTH
            invariant
                decoder_hasher_state.len() == i,
                i <= DECODER_HASHER_STATE_WIDTH,
                forall|j: int|
                    0 <= j < i ==> (#[trigger] decoder_hasher_state@[j]) == (Felt { v: 0u64 }),
            decreases DECODER_HASHER_STATE_WIDTH - i,
        {
            decoder_hasher_state.push(Felt::zero());
            i = i + 1;
        }
        let mut i: usize = 0;
        while i < STACK_WIDTH
            invariant
                stack.len() == i,
                i <= STACK_WIDTH,
                forall|j: int| 0 <= j < i ==> (#[trigger] stack@[j]) == (Felt { v: 0u64 }),
            decreases STACK_WIDTH - i,
        {
            stack.push(Felt::zero());
            i = i + 1;
        }
        let mut i: usize = 0;
        while i < NUM_HELPERS
            invariant
                helpers.len() == i,
                i <= NUM_HELPERS,
                forall|j: int| 0 <= j < i ==> (#[trigger] helpers@[j]) == (Felt { v: 0u64 }),
            decreases NUM_HELPERS - i,
        {
            helpers.push(Felt::zero());
            i = i + 1;
        }
        let mut i: usize = 0;
        while i < CHIPLETS_WIDTH
            invariant
                chiplets.len() == i,
                i <= CHIPLETS_WIDTH,
                forall|j: int| 0 <= j < i ==> (#[trigger] chiplets@[j]) == (Felt { v: 0u64 }),
            decreases CHIPLETS_WIDTH - i,
        {
            chiplets.push(Felt::zero());
            i = i + 1;
        }
        TraceRow {
            clk: Felt::zero(),
            ctx: Felt::zero(),
            addr: Felt::zero(),
            op_code: Felt::zero(),
            decoder_hasher_state,
            stack,
            helpers,
            chiplets,
        }
    }
}

/// The finished main trace, one record per row.
pub struct MainTrace {
    pub rows: Vec<TraceRow>,
}

impl MainTrace {
    /// Every row is well-formed.
    pub open spec fn wf(self) -> bool {
        forall|i: int| 0 <= i < self.rows.len() ==> (#[trigger] self.rows@[i]).wf()
    }

    pub open spec fn spec_num_rows(self) -> int {
        self.rows.len() as int
    }

    pub fn new(rows: Vec<TraceRow>) -> (r: MainTrace)
        ensures
            r.rows == rows,
    {
        MainTrace { rows }
    }

    pub fn num_rows(&self) -> (r: usize)
        ensures
            r == self.spec_num_rows(),
    {
        self.rows.len()
    }

    /// The clock column.
    pub fn clk(&self, row: usize) -> (r: Felt)
        requires
            self.wf(),
            row < self.spec_num_rows(),
        ensures
            r == self.rows@[row as int].clk,
            is_felt(r),
    {
        self.rows[row].clk
    }

    /// The execution-context column.
    pub fn ctx(&self, row: usize) -> (r: Felt)
        requires
            self.wf(),
            row < self.spec_num_rows(),
        ensures
            r == self.rows@[row as int].ctx,
            is_felt(r),
    {
        self.rows[row].ctx
    }

    /// The decoder address column.
    pub fn addr(&self, row: usize) -> (r: Felt)
        requires
            self.wf(),
            row < self.spec_num_rows(),
        ensures
            r == self.rows@[row as int].addr,
            is_felt(r),
    {
        self.rows[row].addr
    }

    /// The opcode executed at `row`.
    pub fn get_op_code(&self, row: usize) -> (r: Felt)
        requires
            self.wf(),
            row < self.spec_num_rows(),
        ensures
            r == self.rows@[row as int].op_code,
            is_felt(r),
    {
        self.rows[row].op_code
    }

    /// One element of the decoder hasher state.
    pub fn decoder_hasher_state(&self, i: usize, row: usize) -> (r: Felt)
        requires
            self.wf(),
            row < self.spec_num_rows(),
            i < DECODER_HASHER_STATE_WIDTH,
        ensures
            r == self.rows@[row as int].decoder_hasher_state@[i as int],
            is_felt(r),
    {
        self.rows[row].decoder_hasher_state[i]
    }

    /// One element of the operand stack.
    pub fn stack_element(&self, i: usize, row: usize) -> (r: Felt)
        requires
            self.wf(),
            row < self.spec_num_rows(),
            i < STACK_WIDTH,
        ensures
            r == self.rows@[row as int].stack@[i as int],
            is_felt(r),
    {
        self.rows[row].stack[i]
    }

    /// One decoder helper register.
    pub fn helper_register(&self, i: usize, row: usize) -> (r: Felt)
        requires
            self.wf(),
            row < self.spec_num_rows(),
            i < NUM_HELPERS,
        ensures
            r == self.rows@[row as int].helpers@[i as int],
            is_felt(r),
    {
        self.rows[row].helpers[i]
    }

    /// One physical chiplets-segment cell.
    pub fn chiplet_cell(&self, col: usize, row: usize) -> (r: Felt)
        requires
            self.wf(),
            row < self.spec_num_rows(),
            col < CHIPLETS_WIDTH,
        ensures
            r == self.rows@[row as int].chiplets@[col as int],
            is_felt(r),
    {
        self.rows[row].chiplets[col]
    }

    /// The decoder hasher-state row, as a slice of 8 elements.
    pub fn decoder_hasher_state_row(&self, row: usize) -> (r: &[Felt])
        requires
            self.wf(),
            row < self.spec_num_rows(),
        ensures
            r@ == self.rows@[row as int].decoder_hasher_state@,
            r@.len() == DECODER_HASHER_STATE_WIDTH,
    {
        self.rows[row].decoder_hasher_state.as_slice()
    }

    /// The chiplets-segment cells of a row, as a slice of 18 elements.
    pub fn chiplets_row(&self, row: usize) -> (r: &[Felt])
        requires
            self.wf(),
            row < self.spec_num_rows(),
        ensures
            r@ == self.rows@[row as int].chiplets@,
            r@.len() == CHIPLETS_WIDTH,
    {
        self.rows[row].chiplets.as_slice()
    }
}

// SPEC-LEVEL COLUMN READS
// ================================================================================================

/// The chiplets-segment cell at `(col, row)`, spec level.
pub open spec fn cell(t: MainTrace, col: int, row: int) -> Felt {
    t.rows@[row].chiplets@[col]
}

/// The four unary segment-selector bits plus the per-segment fifth bit.
pub open spec fn sel(t: MainTrace, i: int, row: int) -> Felt {
    cell(t, i, row)
}

/// The hasher node-index column.
pub open spec fn node_index(t: MainTrace, row: int) -> Felt {
    cell(t, 16, row)
}

/// Merkle-path flag: a verification cycle starts at `row`.
pub open spec fn f_mv(t: MainTrace, row: int) -> bool {
    &&& row % (HASH_CYCLE_LEN as int) == 0
    &&& sel(t, 0, row).v == 0
    &&& sel(t, 1, row).v == 1
    &&& sel(t, 2, row).v == 1
    &&& sel(t, 3, row).v == 0
}

/// Merkle-path flag: a verification cycle is continued after `row`.
pub open spec fn f_mva(t: MainTrace, row: int) -> bool {
    &&& row % (HASH_CYCLE_LEN as int) == HASH_CYCLE_LEN - 1
    &&& sel(t, 0, row).v == 0
    &&& sel(t, 1, row).v == 1
    &&& sel(t, 2, row).v == 1
    &&& sel(t, 3, row).v == 0
}

/// Merkle-update flag: a new-root cycle starts at `row`.
pub open spec fn f_mu(t: MainTrace, row: int) -> bool {
    &&& row % (HASH_CYCLE_LEN as int) == 0
    &&& sel(t, 0, row).v == 0
    &&& sel(t, 1, row).v == 1
    &&& sel(t, 2, row).v == 1
    &&& sel(t, 3, row).v == 1
}

/// Merkle-update flag: a new-root cycle is continued after `row`.
pub open spec fn f_mua(t: MainTrace, row: int) -> bool {
    &&& row % (HASH_CYCLE_LEN as int) == HASH_CYCLE_LEN - 1
    &&& sel(t, 0, row).v == 0
    &&& sel(t, 1, row).v == 1
    &&& sel(t, 2, row).v == 1
    &&& sel(t, 3, row).v == 1
}

/// True when `row` belongs to the kernel-ROM segment.
pub open spec fn is_kernel_row(t: MainTrace, row: int) -> bool {
    &&& sel(t, 0, row).v == 1
    &&& sel(t, 1, row).v == 1
    &&& sel(t, 2, row).v == 1
    &&& sel(t, 3, row).v == 0
}

impl MainTrace {
    /// Exec form of [`f_mv`].
    pub fn f_mv(&self, row: usize) -> (r: bool)
        requires
            self.wf(),
            row < self.spec_num_rows(),
        ensures
            r == f_mv(*self, row as int),
    {
        row % HASH_CYCLE_LEN == 0 && self.chiplet_cell(0, row).as_int() == 0 && self.chiplet_cell(
            1,
            row,
        ).as_int() == 1 && self.chiplet_cell(2, row).as_int() == 1 && self.chiplet_cell(
            3,
            row,
        ).as_int() == 0
    }

    /// Exec form of [`f_mva`].
    pub fn f_mva(&self, row: usize) -> (r: bool)
        requires
            self.wf(),
            row < self.spec_num_rows(),
        ensures
            r == f_mva(*self, row as int),
    {
        row % HASH_CYCLE_LEN == HASH_CYCLE_LEN - 1 && self.chiplet_cell(0, row).as_int() == 0
            && self.chiplet_cell(1, row).as_int() == 1 && self.chiplet_cell(2, row).as_int() == 1
            && self.chiplet_cell(3, row).as_int() == 0
    }

    /// Exec form of [`f_mu`].
    pub fn f_mu(&self, row: usize) -> (r: bool)
        requires
            self.wf(),
            row < self.spec_num_rows(),
        ensures
            r == f_mu(*self, row as int),
    {
        row % HASH_CYCLE_LEN == 0 && self.chiplet_cell(0, row).as_int() == 0 && self.chiplet_cell(
            1,
            row,
        ).as_int() == 1 && self.chiplet_cell(2, row).as_int() == 1 && self.chiplet_cell(
            3,
            row,
        ).as_int() == 1
    }

    /// Exec form of [`f_mua`].
    pub fn f_mua(&self, row: usize) -> (r: bool)
        requires
            self.wf(),
            row < self.spec_num_rows(),
        ensures
            r == f_mua(*self, row as int),
    {
        row % HASH_CYCLE_LEN == HASH_CYCLE_LEN - 1 && self.chiplet_cell(0, row).as_int() == 0
            && self.chiplet_cell(1, row).as_int() == 1 && self.chiplet_cell(2, row).as_int() == 1
            && self.chiplet_cell(3, row).as_int() == 1
    }

    /// Exec form of [`is_kernel_row`].
    pub fn is_kernel_row(&self, row: usize) -> (r: bool)
        requires
            self.wf(),
            row < self.spec_num_rows(),
        ensures
            r == is_kernel_row(*self, row as int),
    {
        self.chiplet_cell(0, row).as_int() == 1 && self.chiplet_cell(1, row).as_int() == 1
            && self.chiplet_cell(2, row).as_int() == 1 && self.chiplet_cell(3, row).as_int() == 0
    }
}

} // verus!
