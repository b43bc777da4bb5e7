//! Builders for the two chiplets auxiliary columns.
//!
//! The bus column `b_chip` folds, row by row, a "request" value (what
//! the main trace asks of the chiplets) against a "response" value (what
//! the owning chiplet segment supplies). The virtual-table column
//! `t_chip` tracks the Merkle sibling deposit/withdraw discipline and
//! the once-per-procedure kernel inclusion set.
//!
//! Every executable builder has a specification twin (`s_`-prefixed)
//! stating the exact extension-field value it produces; the laws at the
//! end of the module are proved against those twins.

use crate::ext::{
    e_add, e_from, e_mul, e_mul_base, e_one, e_sub, e_zero, invertible, is_ext, lemma_e_cancel,
    lemma_e_mul_assoc, lemma_e_mul_comm, lemma_e_mul_four_swap, lemma_e_mul_one,
    lemma_e_ops_canonical, Ext2,
};
use crate::felt::{f_add, f_mul, f_one, f_sub, f_zero, is_felt, Felt};
use crate::main_trace::{
    cell, f_mu, f_mua, f_mv, f_mva, is_kernel_row, MainTrace, BITWISE_OP_CYCLE_LEN, HASH_CYCLE_LEN,
};
use vstd::prelude::*;

verus! {

// OPERATION LABELS AND OPCODES
// ================================================================================================
// The operation labels are the protocol constants both sides of the bus
// must agree on. A label is derived from the owning segment's selector
// bits via `get_op_label`, and is combined with +16 when the matched
// hasher row opens a cycle or +32 when it closes one.

/// Label of a linear-hash start (hasher selectors 1,0,0).
pub const LINEAR_HASH_LABEL: u8 = 3;

/// Label of a hash-result return (hasher selectors 0,0,0).
pub const RETURN_HASH_LABEL: u8 = 1;

/// Label of a full-state return (hasher selectors 0,0,1).
pub const RETURN_STATE_LABEL: u8 = 9;

/// Label of a Merkle-path verification start (hasher selectors 1,0,1).
pub const MP_VERIFY_LABEL: u8 = 11;

/// Label of a Merkle-root update, old-root pass (hasher selectors 1,1,0).
pub const MR_UPDATE_OLD_LABEL: u8 = 7;

/// Label of a Merkle-root update, new-root pass (hasher selectors 1,1,1).
pub const MR_UPDATE_NEW_LABEL: u8 = 15;

/// Label of a kernel-procedure access (segment selectors 1,1,1,0).
pub const KERNEL_PROC_LABEL: u8 = 8;

/// Label of a memory read (segment selectors 1,1,0 and read bit 1).
pub const MEMORY_READ_LABEL: u8 = 12;

/// Label of a memory write (segment selectors 1,1,0 and read bit 0).
pub const MEMORY_WRITE_LABEL: u8 = 4;

/// Number of alphas consumed by the header of a hasher bus value.
pub const NUM_HEADER_ALPHAS: usize = 4;

/// Number of rounds of the hash permutation; a cycle has one more row.
pub const NUM_ROUNDS: u8 = 7;

// The opcode table of the modeled instruction set: the values the
// decoder writes into the opcode column for the operations that talk to
// the chiplets.
pub const OPCODE_JOIN: u64 = 65;

pub const OPCODE_SPLIT: u64 = 66;

pub const OPCODE_LOOP: u64 = 67;

pub const OPCODE_DYN: u64 = 68;

pub const OPCODE_CALL: u64 = 69;

pub const OPCODE_SYSCALL: u64 = 70;

pub const OPCODE_SPAN: u64 = 71;

pub const OPCODE_RESPAN: u64 = 72;

pub const OPCODE_END: u64 = 73;

pub const OPCODE_U32AND: u64 = 74;

pub const OPCODE_U32XOR: u64 = 75;

pub const OPCODE_MLOADW: u64 = 76;

pub const OPCODE_MSTOREW: u64 = 77;

pub const OPCODE_MLOAD: u64 = 78;

pub const OPCODE_MSTORE: u64 = 79;

pub const OPCODE_MSTREAM: u64 = 80;

pub const OPCODE_RCOMBBASE: u64 = 81;

pub const OPCODE_HPERM: u64 = 82;

pub const OPCODE_MPVERIFY: u64 = 83;

pub const OPCODE_MRUPDATE: u64 = 84;

// SHARED PREDICATES AND HELPERS
// ================================================================================================

/// Every challenge is a canonical extension element.
pub open spec fn all_ext(s: Seq<Ext2>) -> bool {
    forall|i: int| 0 <= i < s.len() ==> is_ext(#[trigger] s[i])
}

/// Every element is canonical.
pub open spec fn all_felt(s: Seq<Felt>) -> bool {
    forall|i: int| 0 <= i < s.len() ==> is_felt(#[trigger] s[i])
}

/// The preconditions every builder places on the challenges.
pub open spec fn wf_alphas(alphas: Seq<Ext2>) -> bool {
    alphas.len() >= 16 && all_ext(alphas)
}

/// `Σ alphas[i] · elements[i]`, folded left to right.
pub open spec fn s_build_value(alphas: Seq<Ext2>, elements: Seq<Felt>) -> Ext2
    decreases alphas.len(),
{
    if alphas.len() == 0 {
        e_zero()
    } else {
        e_add(
            s_build_value(alphas.drop_last(), elements.drop_last()),
            e_mul_base(alphas.last(), elements.last()),
        )
    }
}

/// Reduces a slice of elements against a slice of challenges of the same
/// length into a single extension-field value.
pub fn build_value(alphas: &[Ext2], elements: &[Felt]) -> (r: Ext2)
    requires
        alphas@.len() == elements@.len(),
        all_ext(alphas@),
        all_felt(elements@),
    ensures
        r == s_build_value(alphas@, elements@),
        is_ext(r),
{
    let mut value = Ext2::zero();
    let mut i: usize = 0;
    let n = alphas.len();
    while i < n
        invariant
            n == alphas@.len(),
            alphas@.len() == elements@.len(),
            all_ext(alphas@),
            all_felt(elements@),
            i <= n,
            is_ext(value),
            value == s_build_value(alphas@.subrange(0, i as int), elements@.subrange(0, i as int)),
        decreases n - i,
    {
        let term = alphas[i].mul_base(elements[i]);
        value = value.add(term);
        proof {
            let ap = alphas@.subrange(0, i + 1 as int);
            let ep = elements@.subrange(0, i + 1 as int);
            assert(ap.drop_last() =~= alphas@.subrange(0, i as int));
            assert(ep.drop_last() =~= elements@.subrange(0, i as int));
        }
        i = i + 1;
    }
    proof {
        assert(alphas@.subrange(0, n as int) =~= alphas@);
        assert(elements@.subrange(0, n as int) =~= elements@);
    }
    value
}

/// The unique label of an operation, from the four selector bits that
/// identify it: `s3*8 + s2*4 + s1*2 + s0 + 1` in the field.
pub open spec fn s_get_op_label(s0: Felt, s1: Felt, s2: Felt, s3: Felt) -> Felt {
    f_add(
        f_add(f_add(f_mul(s3, Felt { v: 8u64 }), f_mul(s2, Felt { v: 4u64 })), f_mul(s1, Felt { v: 2u64 })),
        f_add(s0, f_one()),
    )
}

/// Returns the operation's unique label.
pub fn get_op_label(s0: Felt, s1: Felt, s2: Felt, s3: Felt) -> (r: Felt)
    requires
        is_felt(s0),
        is_felt(s1),
        is_felt(s2),
        is_felt(s3),
    ensures
        r == s_get_op_label(s0, s1, s2, s3),
        is_felt(r),
{
    s3.mul(Felt::new(8)).add(s2.mul(Felt::new(4))).add(s1.mul(Felt::new(2))).add(
        s0.add(Felt::one()),
    )
}

/// The trace row addressed by a hasher address, with the wrapping
/// subtraction the address convention implies (addresses start at 1).
pub open spec fn s_addr_to_row_index(addr: Felt) -> int {
    (addr.v - 1) % 0x1_0000_0000_0000_0000
}

/// Converts a hasher address to a row index.
pub fn addr_to_row_index(addr: Felt) -> (r: u64)
    ensures
        r == s_addr_to_row_index(addr),
{
    if addr.v == 0 {
        proof {
            vstd::arithmetic::div_mod::lemma_mod_sub_multiples_vanish(
                -1,
                0x1_0000_0000_0000_0000,
            );
            vstd::arithmetic::div_mod::lemma_small_mod(
                0xffff_ffff_ffff_ffffnat,
                0x1_0000_0000_0000_0000nat,
            );
        }
        0xffff_ffff_ffff_ffffu64
    } else {
        proof {
            vstd::arithmetic::div_mod::lemma_small_mod(
                (addr.v - 1) as nat,
                0x1_0000_0000_0000_0000nat,
            );
        }
        addr.v - 1
    }
}

/// Position within the 8-row hash cycle of the row a hasher address
/// points at.
pub open spec fn s_addr_to_hash_cycle(addr: Felt) -> int {
    s_addr_to_row_index(addr) % (HASH_CYCLE_LEN as int)
}

/// Returns the hash-cycle row of the provided hasher address.
pub fn addr_to_hash_cycle(addr: Felt) -> (r: u64)
    ensures
        r == s_addr_to_hash_cycle(addr),
{
    addr_to_row_index(addr) % (HASH_CYCLE_LEN as u64)
}

// MEMORY AND BITWISE REQUESTS
// ================================================================================================

/// Header-and-word combination of one memory access:
/// `alphas[0] + alphas[1]*label + alphas[2]*ctx + alphas[3]*addr +
///  alphas[4]*clk + Σ alphas[5..9]*value`.
pub open spec fn s_compute_memory_request(
    t: MainTrace,
    op_label: u8,
    alphas: Seq<Ext2>,
    row: int,
    addr: Felt,
    v0: Felt,
    v1: Felt,
    v2: Felt,
    v3: Felt,
) -> Ext2 {
    e_add(
        e_add(
            e_add(
                e_add(
                    e_add(
                        e_add(
                            e_add(
                                e_add(
                                    alphas[0],
                                    e_mul_base(alphas[1], Felt { v: op_label as u64 }),
                                ),
                                e_mul_base(alphas[2], t.rows@[row].ctx),
                            ),
                            e_mul_base(alphas[3], addr),
                        ),
                        e_mul_base(alphas[4], t.rows@[row].clk),
                    ),
                    e_mul_base(alphas[5], v0),
                ),
                e_mul_base(alphas[6], v1),
            ),
            e_mul_base(alphas[7], v2),
        ),
        e_mul_base(alphas[8], v3),
    )
}

/// Computes a memory read or write request at `row`, for address `addr`
/// and the four-element value `v0..v3`.
fn compute_memory_request(
    t: &MainTrace,
    op_label: u8,
    alphas: &[Ext2],
    row: usize,
    addr: Felt,
    v0: Felt,
    v1: Felt,
    v2: Felt,
    v3: Felt,
) -> (r: Ext2)
    requires
        t.wf(),
        row < t.spec_num_rows(),
        wf_alphas(alphas@),
        is_felt(addr),
        is_felt(v0),
        is_felt(v1),
        is_felt(v2),
        is_felt(v3),
    ensures
        r == s_compute_memory_request(*t, op_label, alphas@, row as int, addr, v0, v1, v2, v3),
        is_ext(r),
{
    let ctx = t.ctx(row);
    let clk = t.clk(row);
    alphas[0].add(alphas[1].mul_base(Felt::from_u32(op_label as u32))).add(
        alphas[2].mul_base(ctx),
    ).add(alphas[3].mul_base(addr)).add(alphas[4].mul_base(clk)).add(alphas[5].mul_base(v0)).add(
        alphas[6].mul_base(v1),
    ).add(alphas[7].mul_base(v2)).add(alphas[8].mul_base(v3))
}

/// The request of one bitwise operation:
/// `alphas[0] + alphas[1]*label + alphas[2]*a + alphas[3]*b + alphas[4]*z`
/// with operands read from the stack and the result from the next row.
pub open spec fn s_bitwise_request(t: MainTrace, is_xor: Felt, alphas: Seq<Ext2>, row: int) -> Ext2 {
    e_add(
        e_add(
            e_add(
                e_add(
                    alphas[0],
                    e_mul_base(
                        alphas[1],
                        s_get_op_label(Felt { v: 1u64 }, Felt { v: 0u64 }, is_xor, Felt { v: 0u64 }),
                    ),
                ),
                e_mul_base(alphas[2], t.rows@[row].stack@[1]),
            ),
            e_mul_base(alphas[3], t.rows@[row].stack@[0]),
        ),
        e_mul_base(alphas[4], t.rows@[row + 1].stack@[0]),
    )
}

/// Builds the request the stack makes of the bitwise chiplet at `row`.
fn build_bitwise_request(t: &MainTrace, is_xor: Felt, alphas: &[Ext2], row: usize) -> (r: Ext2)
    requires
        t.wf(),
        row + 1 < t.spec_num_rows(),
        wf_alphas(alphas@),
        is_felt(is_xor),
    ensures
        r == s_bitwise_request(*t, is_xor, alphas@, row as int),
        is_ext(r),
{
    let op_label = get_op_label(Felt::one(), Felt::zero(), is_xor, Felt::zero());
    let a = t.stack_element(1, row);
    let b = t.stack_element(0, row);
    let z = t.stack_element(0, row + 1);
    alphas[0].add(alphas[1].mul_base(op_label)).add(alphas[2].mul_base(a)).add(
        alphas[3].mul_base(b),
    ).add(alphas[4].mul_base(z))
}

/// The request of an element-wise memory operation: the value word is
/// reconstructed from the next row's stack top and three helpers.
pub open spec fn s_mem_request_element(
    t: MainTrace,
    op_label: u8,
    alphas: Seq<Ext2>,
    row: int,
) -> Ext2 {
    s_compute_memory_request(
        t,
        op_label,
        alphas,
        row,
        t.rows@[row].stack@[0],
        t.rows@[row + 1].stack@[0],
        t.rows@[row].helpers@[2],
        t.rows@[row].helpers@[1],
        t.rows@[row].helpers@[0],
    )
}

/// Builds an element-wise memory request (single-element load or store).
fn build_mem_request_element(t: &MainTrace, op_label: u8, alphas: &[Ext2], row: usize) -> (r: Ext2)
    requires
        t.wf(),
        row + 1 < t.spec_num_rows(),
        wf_alphas(alphas@),
    ensures
        r == s_mem_request_element(*t, op_label, alphas@, row as int),
        is_ext(r),
{
    let v0 = t.stack_element(0, row + 1);
    let v1 = t.helper_register(2, row);
    let v2 = t.helper_register(1, row);
    let v3 = t.helper_register(0, row);
    let addr = t.stack_element(0, row);
    compute_memory_request(t, op_label, alphas, row, addr, v0, v1, v2, v3)
}

/// The request of a word-wise memory operation: the value word is the
/// next row's four top stack elements.
pub open spec fn s_mem_request_word(t: MainTrace, op_label: u8, alphas: Seq<Ext2>, row: int) -> Ext2 {
    s_compute_memory_request(
        t,
        op_label,
        alphas,
        row,
        t.rows@[row].stack@[0],
        t.rows@[row + 1].stack@[3],
        t.rows@[row + 1].stack@[2],
        t.rows@[row + 1].stack@[1],
        t.rows@[row + 1].stack@[0],
    )
}

/// Builds a word-wise memory request (full-word load or store).
fn build_mem_request_word(t: &MainTrace, op_label: u8, alphas: &[Ext2], row: usize) -> (r: Ext2)
    requires
        t.wf(),
        row + 1 < t.spec_num_rows(),
        wf_alphas(alphas@),
    ensures
        r == s_mem_request_word(*t, op_label, alphas@, row as int),
        is_ext(r),
{
    let v0 = t.stack_element(3, row + 1);
    let v1 = t.stack_element(2, row + 1);
    let v2 = t.stack_element(1, row + 1);
    let v3 = t.stack_element(0, row + 1);
    let addr = t.stack_element(0, row);
    compute_memory_request(t, op_label, alphas, row, addr, v0, v1, v2, v3)
}

/// The double memory-read request of a stream operation: two consecutive
/// words, addressed from stack position 12.
pub open spec fn s_mstream_request(t: MainTrace, alphas: Seq<Ext2>, row: int) -> Ext2 {
    e_mul(
        s_compute_memory_request(
            t,
            MEMORY_READ_LABEL,
            alphas,
            row,
            t.rows@[row].stack@[12],
            t.rows@[row + 1].stack@[7],
            t.rows@[row + 1].stack@[6],
            t.rows@[row + 1].stack@[5],
            t.rows@[row + 1].stack@[4],
        ),
        s_compute_memory_request(
            t,
            MEMORY_READ_LABEL,
            alphas,
            row,
            f_add(t.rows@[row].stack@[12], f_one()),
            t.rows@[row + 1].stack@[3],
            t.rows@[row + 1].stack@[2],
            t.rows@[row + 1].stack@[1],
            t.rows@[row + 1].stack@[0],
        ),
    )
}

/// Builds the two chained memory requests of a stream operation.
fn build_mstream_request(t: &MainTrace, alphas: &[Ext2], row: usize) -> (r: Ext2)
    requires
        t.wf(),
        row + 1 < t.spec_num_rows(),
        wf_alphas(alphas@),
    ensures
        r == s_mstream_request(*t, alphas@, row as int),
        is_ext(r),
{
    let addr = t.stack_element(12, row);
    let factor1 = compute_memory_request(
        t,
        MEMORY_READ_LABEL,
        alphas,
        row,
        addr,
        t.stack_element(7, row + 1),
        t.stack_element(6, row + 1),
        t.stack_element(5, row + 1),
        t.stack_element(4, row + 1),
    );
    let factor2 = compute_memory_request(
        t,
        MEMORY_READ_LABEL,
        alphas,
        row,
        addr.add(Felt::one()),
        t.stack_element(3, row + 1),
        t.stack_element(2, row + 1),
        t.stack_element(1, row + 1),
        t.stack_element(0, row + 1),
    );
    factor1.mul(factor2)
}

/// The double memory-read request of a random-combination step: a word
/// of evaluations and a pair of coefficients from helper registers.
pub open spec fn s_rcomb_base_request(t: MainTrace, alphas: Seq<Ext2>, row: int) -> Ext2 {
    e_mul(
        s_compute_memory_request(
            t,
            MEMORY_READ_LABEL,
            alphas,
            row,
            t.rows@[row].stack@[13],
            t.rows@[row].helpers@[0],
            t.rows@[row].helpers@[1],
            t.rows@[row].helpers@[2],
            t.rows@[row].helpers@[3],
        ),
        s_compute_memory_request(
            t,
            MEMORY_READ_LABEL,
            alphas,
            row,
            t.rows@[row].stack@[14],
            t.rows@[row].helpers@[4],
            t.rows@[row].helpers@[5],
            f_zero(),
            f_zero(),
        ),
    )
}

/// Builds the two memory requests of a random-combination step.
fn build_rcomb_base_request(t: &MainTrace, alphas: &[Ext2], row: usize) -> (r: Ext2)
    requires
        t.wf(),
        row < t.spec_num_rows(),
        wf_alphas(alphas@),
    ensures
        r == s_rcomb_base_request(*t, alphas@, row as int),
        is_ext(r),
{
    let factor1 = compute_memory_request(
        t,
        MEMORY_READ_LABEL,
        alphas,
        row,
        t.stack_element(13, row),
        t.helper_register(0, row),
        t.helper_register(1, row),
        t.helper_register(2, row),
        t.helper_register(3, row),
    );
    let factor2 = compute_memory_request(
        t,
        MEMORY_READ_LABEL,
        alphas,
        row,
        t.stack_element(14, row),
        t.helper_register(4, row),
        t.helper_register(5, row),
        Felt::zero(),
        Felt::zero(),
    );
    factor1.mul(factor2)
}


// HASHER REQUESTS
// ================================================================================================

/// The cycle-phase transition label: the operation label plus 16 at a
/// cycle-opening row, plus 32 at a cycle-closing row.
pub open spec fn s_transition_label(op_label: u8, first_cycle_row: bool) -> Felt {
    if first_cycle_row {
        Felt { v: (op_label + 16) as u64 }
    } else {
        Felt { v: (op_label + 32) as u64 }
    }
}

/// The request opening a control block: a linear-hash header over the
/// next row's hasher address, the decoder hasher state, and the opcode.
pub open spec fn s_control_block_request(
    t: MainTrace,
    op_code_felt: Felt,
    alphas: Seq<Ext2>,
    row: int,
) -> Ext2 {
    let addr_nxt = t.rows@[row + 1].addr;
    let first = s_addr_to_row_index(addr_nxt) % (HASH_CYCLE_LEN as int) == 0;
    let header = e_add(
        e_add(alphas[0], e_mul_base(alphas[1], s_transition_label(LINEAR_HASH_LABEL, first))),
        e_mul_base(alphas[2], addr_nxt),
    );
    e_add(
        e_add(header, s_build_value(alphas.subrange(8, 16), t.rows@[row].decoder_hasher_state@)),
        e_mul_base(alphas[5], op_code_felt),
    )
}

/// Builds the request made to the hasher chiplet at the start of a
/// control block.
fn build_control_block_request(
    t: &MainTrace,
    op_code_felt: Felt,
    alphas: &[Ext2],
    row: usize,
) -> (r: Ext2)
    requires
        t.wf(),
        row + 1 < t.spec_num_rows(),
        wf_alphas(alphas@),
        is_felt(op_code_felt),
    ensures
        r == s_control_block_request(*t, op_code_felt, alphas@, row as int),
        is_ext(r),
{
    let addr_nxt = t.addr(row + 1);
    let first_cycle_row = addr_to_row_index(addr_nxt) % (HASH_CYCLE_LEN as u64) == 0;
    let transition_label: u32 = if first_cycle_row {
        LINEAR_HASH_LABEL as u32 + 16
    } else {
        LINEAR_HASH_LABEL as u32 + 32
    };
    let header = alphas[0].add(alphas[1].mul_base(Felt::from_u32(transition_label))).add(
        alphas[2].mul_base(addr_nxt),
    );
    let state = t.decoder_hasher_state_row(row);
    header.add(build_value(&alphas[8..16], state)).add(alphas[5].mul_base(op_code_felt))
}

/// The request of a syscall: the control-block opening times a
/// kernel-ROM lookup keyed on the callee digest.
pub open spec fn s_syscall_block_request(
    t: MainTrace,
    op_code_felt: Felt,
    alphas: Seq<Ext2>,
    row: int,
) -> Ext2 {
    let s = t.rows@[row].decoder_hasher_state@;
    let factor2 = e_add(
        e_add(
            e_add(
                e_add(
                    e_add(alphas[0], e_mul_base(alphas[1], Felt { v: KERNEL_PROC_LABEL as u64 })),
                    e_mul_base(alphas[2], s[0]),
                ),
                e_mul_base(alphas[3], s[1]),
            ),
            e_mul_base(alphas[4], s[2]),
        ),
        e_mul_base(alphas[5], s[3]),
    );
    e_mul(s_control_block_request(t, op_code_felt, alphas, row), factor2)
}

/// Builds the request made when initializing a syscall block.
fn build_syscall_block_request(
    t: &MainTrace,
    op_code_felt: Felt,
    alphas: &[Ext2],
    row: usize,
) -> (r: Ext2)
    requires
        t.wf(),
        row + 1 < t.spec_num_rows(),
        wf_alphas(alphas@),
        is_felt(op_code_felt),
    ensures
        r == s_syscall_block_request(*t, op_code_felt, alphas@, row as int),
        is_ext(r),
{
    let factor1 = build_control_block_request(t, op_code_felt, alphas, row);
    let factor2 = alphas[0].add(
        alphas[1].mul_base(Felt::from_u32(KERNEL_PROC_LABEL as u32)),
    ).add(alphas[2].mul_base(t.decoder_hasher_state(0, row))).add(
        alphas[3].mul_base(t.decoder_hasher_state(1, row)),
    ).add(alphas[4].mul_base(t.decoder_hasher_state(2, row))).add(
        alphas[5].mul_base(t.decoder_hasher_state(3, row)),
    );
    factor1.mul(factor2)
}

/// The request opening a basic block: like a control-block opening but
/// without the opcode term.
pub open spec fn s_span_block_request(t: MainTrace, alphas: Seq<Ext2>, row: int) -> Ext2 {
    let addr_nxt = t.rows@[row + 1].addr;
    let first = s_addr_to_row_index(addr_nxt) % (HASH_CYCLE_LEN as int) == 0;
    let header = e_add(
        e_add(alphas[0], e_mul_base(alphas[1], s_transition_label(LINEAR_HASH_LABEL, first))),
        e_mul_base(alphas[2], addr_nxt),
    );
    e_add(header, s_build_value(alphas.subrange(8, 16), t.rows@[row].decoder_hasher_state@))
}

/// Builds the request made to the hasher chiplet at the start of a span
/// block.
fn build_span_block_request(t: &MainTrace, alphas: &[Ext2], row: usize) -> (r: Ext2)
    requires
        t.wf(),
        row + 1 < t.spec_num_rows(),
        wf_alphas(alphas@),
    ensures
        r == s_span_block_request(*t, alphas@, row as int),
        is_ext(r),
{
    let addr_nxt = t.addr(row + 1);
    let first_cycle_row = addr_to_row_index(addr_nxt) % (HASH_CYCLE_LEN as u64) == 0;
    let transition_label: u32 = if first_cycle_row {
        LINEAR_HASH_LABEL as u32 + 16
    } else {
        LINEAR_HASH_LABEL as u32 + 32
    };
    let header = alphas[0].add(alphas[1].mul_base(Felt::from_u32(transition_label))).add(
        alphas[2].mul_base(addr_nxt),
    );
    let state = t.decoder_hasher_state_row(row);
    header.add(build_value(&alphas[8..16], state))
}

/// The request continuing an absorption: the difference of the two
/// post-capacity chiplet hasher states recorded just before this row.
pub open spec fn s_respan_block_request(t: MainTrace, alphas: Seq<Ext2>, row: int) -> Ext2 {
    let addr_nxt = t.rows@[row + 1].addr;
    let addr = f_sub(addr_nxt, f_one());
    let first = s_addr_to_row_index(addr) % (HASH_CYCLE_LEN as int) == 0;
    let header = e_add(
        e_add(
            e_add(alphas[0], e_mul_base(alphas[1], s_transition_label(LINEAR_HASH_LABEL, first))),
            e_mul_base(alphas[2], addr),
        ),
        e_mul_base(alphas[3], f_zero()),
    );
    let state = t.rows@[row - 2].chiplets@.subrange(8, 16);
    let state_nxt = t.rows@[row - 1].chiplets@.subrange(8, 16);
    e_sub(
        e_add(header, s_build_value(alphas.subrange(8, 16), state_nxt)),
        s_build_value(alphas.subrange(8, 16), state),
    )
}

/// Builds the request made to the hasher chiplet at the start of a
/// respan block.
fn build_respan_block_request(t: &MainTrace, alphas: &[Ext2], row: usize) -> (r: Ext2)
    requires
        t.wf(),
        2 <= row,
        row + 1 < t.spec_num_rows(),
        wf_alphas(alphas@),
    ensures
        r == s_respan_block_request(*t, alphas@, row as int),
        is_ext(r),
{
    let addr_nxt = t.addr(row + 1);
    let addr = addr_nxt.sub(Felt::one());
    let first_cycle_row = addr_to_row_index(addr) % (HASH_CYCLE_LEN as u64) == 0;
    let transition_label: u32 = if first_cycle_row {
        LINEAR_HASH_LABEL as u32 + 16
    } else {
        LINEAR_HASH_LABEL as u32 + 32
    };
    let header = alphas[0].add(alphas[1].mul_base(Felt::from_u32(transition_label))).add(
        alphas[2].mul_base(addr),
    ).add(alphas[3].mul_base(Felt::zero()));
    let state = &t.chiplets_row(row - 2)[8..16];
    let state_nxt = &t.chiplets_row(row - 1)[8..16];
    header.add(build_value(&alphas[8..16], state_nxt)).sub(build_value(&alphas[8..16], state))
}

/// The request closing a block: a return-hash header over the digest
/// half of the decoder hasher state.
pub open spec fn s_end_block_request(t: MainTrace, alphas: Seq<Ext2>, row: int) -> Ext2 {
    let addr = f_add(t.rows@[row].addr, Felt { v: NUM_ROUNDS as u64 });
    let first = s_addr_to_row_index(addr) % (HASH_CYCLE_LEN as int) == 0;
    let header = e_add(
        e_add(alphas[0], e_mul_base(alphas[1], s_transition_label(RETURN_HASH_LABEL, first))),
        e_mul_base(alphas[2], addr),
    );
    e_add(
        header,
        s_build_value(alphas.subrange(8, 12), t.rows@[row].decoder_hasher_state@.subrange(0, 4)),
    )
}

/// Builds the request made to the hasher chiplet at the end of a block.
fn build_end_block_request(t: &MainTrace, alphas: &[Ext2], row: usize) -> (r: Ext2)
    requires
        t.wf(),
        row + 1 < t.spec_num_rows(),
        wf_alphas(alphas@),
    ensures
        r == s_end_block_request(*t, alphas@, row as int),
        is_ext(r),
{
    let addr = t.addr(row).add(Felt::from_u32(NUM_ROUNDS as u32));
    let first_cycle_row = addr_to_row_index(addr) % (HASH_CYCLE_LEN as u64) == 0;
    let transition_label: u32 = if first_cycle_row {
        RETURN_HASH_LABEL as u32 + 16
    } else {
        RETURN_HASH_LABEL as u32 + 32
    };
    let header = alphas[0].add(alphas[1].mul_base(Felt::from_u32(transition_label))).add(
        alphas[2].mul_base(addr),
    );
    let state = t.decoder_hasher_state_row(row);
    let digest = &state[0..4];
    header.add(build_value(&alphas[8..12], digest))
}


// STACK-WINDOW HELPERS
// ================================================================================================

/// The `len` stack elements `hi, hi-1, ..., hi-len+1` of `row`, in that
/// order. Hasher requests combine stack windows against the challenges
/// in reverse.
fn stack_rev_window(t: &MainTrace, row: usize, hi: usize, len: usize) -> (r: Vec<Felt>)
    requires
        t.wf(),
        row < t.spec_num_rows(),
        hi < 16,
        len <= hi + 1,
    ensures
        r@.len() == len,
        forall|j: int| 0 <= j < len ==> r@[j] == t.rows@[row as int].stack@[hi - j],
        all_felt(r@),
{
    let mut r: Vec<Felt> = Vec::new();
    let mut j: usize = 0;
    while j < len
        invariant
            t.wf(),
            row < t.spec_num_rows(),
            hi < 16,
            len <= hi + 1,
            j <= len,
            r@.len() == j,
            forall|k: int| 0 <= k < j ==> r@[k] == t.rows@[row as int].stack@[hi - k],
            all_felt(r@),
        decreases len - j,
    {
        r.push(t.stack_element(hi - j, row));
        j = j + 1;
    }
    r
}

// HASH-OPERATION REQUESTS
// ================================================================================================

/// A hasher request header: `alphas[0] + alphas[1]*label + alphas[2]*addr`.
pub open spec fn s_req_header(alphas: Seq<Ext2>, label: u8, first: bool, addr: Felt) -> Ext2 {
    e_add(
        e_add(alphas[0], e_mul_base(alphas[1], s_transition_label(label, first))),
        e_mul_base(alphas[2], addr),
    )
}

/// The paired request of a permutation operation: the full input state
/// offered at the cycle-opening address and the full output state
/// claimed back at the cycle-closing address.
pub open spec fn s_hperm_request(t: MainTrace, alphas: Seq<Ext2>, row: int) -> Ext2 {
    let h0 = t.rows@[row].helpers@[0];
    let v_input = e_add(
        s_req_header(alphas, LINEAR_HASH_LABEL, s_addr_to_hash_cycle(h0) == 0, h0),
        s_build_value(alphas.subrange(4, 16), Seq::new(12, |j: int| t.rows@[row].stack@[11 - j])),
    );
    let h7 = f_add(h0, Felt { v: 7u64 });
    let v_output = e_add(
        s_req_header(alphas, RETURN_STATE_LABEL, s_addr_to_hash_cycle(h7) == 0, h7),
        s_build_value(
            alphas.subrange(4, 16),
            Seq::new(12, |j: int| t.rows@[row + 1].stack@[11 - j]),
        ),
    );
    e_mul(v_input, v_output)
}

/// Builds the paired permutation request made to the hash chiplet.
fn build_hperm_request(t: &MainTrace, alphas: &[Ext2], row: usize) -> (r: Ext2)
    requires
        t.wf(),
        row + 1 < t.spec_num_rows(),
        wf_alphas(alphas@),
    ensures
        r == s_hperm_request(*t, alphas@, row as int),
        is_ext(r),
{
    let helper_0 = t.helper_register(0, row);

    let label_in: u32 = if addr_to_hash_cycle(helper_0) == 0 {
        LINEAR_HASH_LABEL as u32 + 16
    } else {
        LINEAR_HASH_LABEL as u32 + 32
    };
    let cur_rev = stack_rev_window(t, row, 11, 12);
    let sum_input = build_value(&alphas[4..16], cur_rev.as_slice());
    let v_input = alphas[0].add(alphas[1].mul_base(Felt::from_u32(label_in))).add(
        alphas[2].mul_base(helper_0),
    ).add(sum_input);

    let addr_out = helper_0.add(Felt::from_u32(7));
    let label_out: u32 = if addr_to_hash_cycle(addr_out) == 0 {
        RETURN_STATE_LABEL as u32 + 16
    } else {
        RETURN_STATE_LABEL as u32 + 32
    };
    let nxt_rev = stack_rev_window(t, row + 1, 11, 12);
    let sum_output = build_value(&alphas[4..16], nxt_rev.as_slice());
    let v_output = alphas[0].add(alphas[1].mul_base(Felt::from_u32(label_out))).add(
        alphas[2].mul_base(addr_out),
    ).add(sum_output);

    proof {
        assert(cur_rev@ =~= Seq::new(12, |j: int| t.rows@[row as int].stack@[11 - j]));
        assert(nxt_rev@ =~= Seq::new(12, |j: int| t.rows@[row as int + 1].stack@[11 - j]));
    }
    v_input.mul(v_output)
}

/// The paired request of a Merkle-path verification: the leaf offered
/// at the opening address and the root claimed back at the closing one.
pub open spec fn s_mpverify_request(t: MainTrace, alphas: Seq<Ext2>, row: int) -> Ext2 {
    let h0 = t.rows@[row].helpers@[0];
    let s4 = t.rows@[row].stack@[4];
    let s5 = t.rows@[row].stack@[5];
    let v_input = e_add(
        e_add(
            s_req_header(alphas, MP_VERIFY_LABEL, s_addr_to_hash_cycle(h0) == 0, h0),
            e_mul_base(alphas[3], s5),
        ),
        s_build_value(alphas.subrange(8, 12), Seq::new(4, |j: int| t.rows@[row].stack@[3 - j])),
    );
    let addr_out = f_sub(f_add(h0, f_mul(s4, Felt { v: 8u64 })), f_one());
    let v_output = e_add(
        s_req_header(alphas, RETURN_HASH_LABEL, h0.v % 8 == 0, addr_out),
        s_build_value(alphas.subrange(8, 12), Seq::new(4, |j: int| t.rows@[row].stack@[9 - j])),
    );
    e_mul(v_input, v_output)
}

/// Builds the paired Merkle-path verification request.
fn build_mpverify_request(t: &MainTrace, alphas: &[Ext2], row: usize) -> (r: Ext2)
    requires
        t.wf(),
        row + 1 < t.spec_num_rows(),
        wf_alphas(alphas@),
    ensures
        r == s_mpverify_request(*t, alphas@, row as int),
        is_ext(r),
{
    let helper_0 = t.helper_register(0, row);
    let s4 = t.stack_element(4, row);
    let s5 = t.stack_element(5, row);

    let label_in: u32 = if addr_to_hash_cycle(helper_0) == 0 {
        MP_VERIFY_LABEL as u32 + 16
    } else {
        MP_VERIFY_LABEL as u32 + 32
    };
    let leaf_rev = stack_rev_window(t, row, 3, 4);
    let sum_input = build_value(&alphas[8..12], leaf_rev.as_slice());
    let v_input = alphas[0].add(alphas[1].mul_base(Felt::from_u32(label_in))).add(
        alphas[2].mul_base(helper_0),
    ).add(alphas[3].mul_base(s5)).add(sum_input);

    let label_out: u32 = if helper_0.as_int() % 8 == 0 {
        RETURN_HASH_LABEL as u32 + 16
    } else {
        RETURN_HASH_LABEL as u32 + 32
    };
    let addr_out = helper_0.add(s4.mul(Felt::from_u32(8))).sub(Felt::one());
    let root_rev = stack_rev_window(t, row, 9, 4);
    let sum_output = build_value(&alphas[8..12], root_rev.as_slice());
    let v_output = alphas[0].add(alphas[1].mul_base(Felt::from_u32(label_out))).add(
        alphas[2].mul_base(addr_out),
    ).add(sum_output);

    proof {
        assert(leaf_rev@ =~= Seq::new(4, |j: int| t.rows@[row as int].stack@[3 - j]));
        assert(root_rev@ =~= Seq::new(4, |j: int| t.rows@[row as int].stack@[9 - j]));
    }
    v_input.mul(v_output)
}

/// The four chained requests of a Merkle-root update: old leaf in, old
/// root out, new leaf in, new root out.
pub open spec fn s_mrupdate_request(t: MainTrace, alphas: Seq<Ext2>, row: int) -> Ext2 {
    let h0 = t.rows@[row].helpers@[0];
    let s4 = t.rows@[row].stack@[4];
    let s5 = t.rows@[row].stack@[5];
    let addr_old_out = f_sub(f_add(h0, f_mul(s4, Felt { v: 8u64 })), f_one());
    let addr_new_in = f_add(h0, f_mul(s4, Felt { v: 8u64 }));
    let addr_new_out = f_sub(f_add(h0, f_mul(s4, Felt { v: 16u64 })), f_one());
    let v_input_old = e_add(
        e_add(
            s_req_header(alphas, MR_UPDATE_OLD_LABEL, s_addr_to_hash_cycle(h0) == 0, h0),
            e_mul_base(alphas[3], s5),
        ),
        s_build_value(alphas.subrange(8, 12), Seq::new(4, |j: int| t.rows@[row].stack@[3 - j])),
    );
    let v_output_old = e_add(
        s_req_header(
            alphas,
            RETURN_HASH_LABEL,
            s_addr_to_hash_cycle(addr_old_out) == 0,
            addr_old_out,
        ),
        s_build_value(alphas.subrange(8, 12), Seq::new(4, |j: int| t.rows@[row].stack@[9 - j])),
    );
    let v_input_new = e_add(
        e_add(
            s_req_header(
                alphas,
                MR_UPDATE_NEW_LABEL,
                s_addr_to_hash_cycle(addr_new_in) == 0,
                addr_new_in,
            ),
            e_mul_base(alphas[3], s5),
        ),
        s_build_value(alphas.subrange(8, 12), Seq::new(4, |j: int| t.rows@[row].stack@[13 - j])),
    );
    let v_output_new = e_add(
        s_req_header(
            alphas,
            RETURN_HASH_LABEL,
            s_addr_to_hash_cycle(addr_new_out) == 0,
            addr_new_out,
        ),
        s_build_value(
            alphas.subrange(8, 12),
            Seq::new(4, |j: int| t.rows@[row + 1].stack@[3 - j]),
        ),
    );
    e_mul(e_mul(e_mul(v_input_new, v_input_old), v_output_new), v_output_old)
}

/// Builds the four chained Merkle-root update requests.
fn build_mrupdate_request(t: &MainTrace, alphas: &[Ext2], row: usize) -> (r: Ext2)
    requires
        t.wf(),
        row + 1 < t.spec_num_rows(),
        wf_alphas(alphas@),
    ensures
        r == s_mrupdate_request(*t, alphas@, row as int),
        is_ext(r),
{
    let helper_0 = t.helper_register(0, row);
    let s4 = t.stack_element(4, row);
    let s5 = t.stack_element(5, row);
    let addr_old_out = helper_0.add(s4.mul(Felt::from_u32(8))).sub(Felt::one());
    let addr_new_in = helper_0.add(s4.mul(Felt::from_u32(8)));
    let addr_new_out = helper_0.add(s4.mul(Felt::from_u32(16))).sub(Felt::one());

    let label_in_old: u32 = if addr_to_hash_cycle(helper_0) == 0 {
        MR_UPDATE_OLD_LABEL as u32 + 16
    } else {
        MR_UPDATE_OLD_LABEL as u32 + 32
    };
    let old_leaf_rev = stack_rev_window(t, row, 3, 4);
    let v_input_old = alphas[0].add(alphas[1].mul_base(Felt::from_u32(label_in_old))).add(
        alphas[2].mul_base(helper_0),
    ).add(alphas[3].mul_base(s5)).add(build_value(&alphas[8..12], old_leaf_rev.as_slice()));

    let label_out_old: u32 = if addr_to_hash_cycle(addr_old_out) == 0 {
        RETURN_HASH_LABEL as u32 + 16
    } else {
        RETURN_HASH_LABEL as u32 + 32
    };
    let old_root_rev = stack_rev_window(t, row, 9, 4);
    let v_output_old = alphas[0].add(alphas[1].mul_base(Felt::from_u32(label_out_old))).add(
        alphas[2].mul_base(addr_old_out),
    ).add(build_value(&alphas[8..12], old_root_rev.as_slice()));

    let label_in_new: u32 = if addr_to_hash_cycle(addr_new_in) == 0 {
        MR_UPDATE_NEW_LABEL as u32 + 16
    } else {
        MR_UPDATE_NEW_LABEL as u32 + 32
    };
    let new_leaf_rev = stack_rev_window(t, row, 13, 4);
    let v_input_new = alphas[0].add(alphas[1].mul_base(Felt::from_u32(label_in_new))).add(
        alphas[2].mul_base(addr_new_in),
    ).add(alphas[3].mul_base(s5)).add(build_value(&alphas[8..12], new_leaf_rev.as_slice()));

    let label_out_new: u32 = if addr_to_hash_cycle(addr_new_out) == 0 {
        RETURN_HASH_LABEL as u32 + 16
    } else {
        RETURN_HASH_LABEL as u32 + 32
    };
    let new_root_rev = stack_rev_window(t, row + 1, 3, 4);
    let v_output_new = alphas[0].add(alphas[1].mul_base(Felt::from_u32(label_out_new))).add(
        alphas[2].mul_base(addr_new_out),
    ).add(build_value(&alphas[8..12], new_root_rev.as_slice()));

    proof {
        assert(old_leaf_rev@ =~= Seq::new(4, |j: int| t.rows@[row as int].stack@[3 - j]));
        assert(old_root_rev@ =~= Seq::new(4, |j: int| t.rows@[row as int].stack@[9 - j]));
        assert(new_leaf_rev@ =~= Seq::new(4, |j: int| t.rows@[row as int].stack@[13 - j]));
        assert(new_root_rev@ =~= Seq::new(4, |j: int| t.rows@[row as int + 1].stack@[3 - j]));
    }
    v_input_new.mul(v_input_old).mul(v_output_new).mul(v_output_old)
}


// CHIPLET RESPONSES
// ================================================================================================

/// The row address a hasher response carries: the one-based row number,
/// truncated to 32 bits as the trace convention fixes.
pub open spec fn s_row_addr(row: int) -> Felt {
    Felt { v: ((row + 1) % 0x1_0000_0000) as u64 }
}

/// A hasher response header:
/// `alphas[0] + alphas[1]*label + alphas[2]*(row+1) + alphas[3]*index`.
pub open spec fn s_resp_header(alphas: Seq<Ext2>, transition_label: Felt, row: int, index: Felt) -> Ext2 {
    e_add(
        e_add(
            e_add(alphas[0], e_mul_base(alphas[1], transition_label)),
            e_mul_base(alphas[2], s_row_addr(row)),
        ),
        e_mul_base(alphas[3], index),
    )
}

/// The response the hash chiplet supplies at `row`: a cycle-opening row
/// offers the absorbed state (or the selected digest half of a Merkle
/// step), a cycle-closing row returns the digest, the full state, or an
/// absorption difference; exactly one case applies, selected by the
/// row's position in the cycle and the three hasher selector bits.
pub open spec fn s_hasher_chiplet_response(t: MainTrace, alphas: Seq<Ext2>, row: int) -> Ext2 {
    let s1 = cell(t, 1, row);
    let s2 = cell(t, 2, row);
    let s3 = cell(t, 3, row);
    let op_label = s_get_op_label(cell(t, 0, row), s1, s2, s3);
    let index = cell(t, 16, row);
    let state = t.rows@[row].chiplets@.subrange(4, 16);
    if row % (HASH_CYCLE_LEN as int) == 0 {
        let header = s_resp_header(alphas, f_add(op_label, Felt { v: 16u64 }), row, index);
        if s1.v == 1 && s2.v == 0 && s3.v == 0 {
            e_add(header, s_build_value(alphas.subrange(4, 16), state))
        } else if s1.v == 1 {
            let bit = (index.v % 2) as u64;
            let left_word = s_build_value(
                alphas.subrange(8, 12),
                t.rows@[row].chiplets@.subrange(8, 12),
            );
            let right_word = s_build_value(
                alphas.subrange(8, 12),
                t.rows@[row].chiplets@.subrange(12, 16),
            );
            e_add(
                e_add(header, e_mul(e_from(Felt { v: (1 - bit) as u64 }), left_word)),
                e_mul(e_from(Felt { v: bit }), right_word),
            )
        } else {
            e_one()
        }
    } else if row % (HASH_CYCLE_LEN as int) == HASH_CYCLE_LEN - 1 {
        let header = s_resp_header(alphas, f_add(op_label, Felt { v: 32u64 }), row, index);
        if s1.v == 0 && s2.v == 0 && s3.v == 0 {
            e_add(
                header,
                s_build_value(alphas.subrange(8, 12), t.rows@[row].chiplets@.subrange(8, 12)),
            )
        } else if s1.v == 0 && s2.v == 0 && s3.v == 1 {
            e_add(header, s_build_value(alphas.subrange(4, 16), state))
        } else if s1.v == 1 && s2.v == 0 && s3.v == 0 {
            e_sub(
                e_add(
                    header,
                    s_build_value(
                        alphas.subrange(8, 16),
                        t.rows@[row + 1].chiplets@.subrange(8, 16),
                    ),
                ),
                s_build_value(alphas.subrange(8, 16), t.rows@[row].chiplets@.subrange(8, 16)),
            )
        } else {
            e_one()
        }
    } else {
        e_one()
    }
}

/// The hasher response of a cycle-opening row.
#[verifier::spinoff_prover]
fn hasher_response_cycle_start(t: &MainTrace, row: usize, alphas: &[Ext2], header: Ext2) -> (r:
    Ext2)
    requires
        t.wf(),
        row < t.spec_num_rows(),
        wf_alphas(alphas@),
        is_ext(header),
        row as int % (HASH_CYCLE_LEN as int) == 0,
        header == s_resp_header(
            alphas@,
            f_add(
                s_get_op_label(
                    cell(*t, 0, row as int),
                    cell(*t, 1, row as int),
                    cell(*t, 2, row as int),
                    cell(*t, 3, row as int),
                ),
                Felt { v: 16u64 },
            ),
            row as int,
            cell(*t, 16, row as int),
        ),
    ensures
        r == s_hasher_chiplet_response(*t, alphas@, row as int),
        is_ext(r),
{
    let s1 = t.chiplet_cell(1, row);
    let s2 = t.chiplet_cell(2, row);
    let s3 = t.chiplet_cell(3, row);
    if s1.as_int() == 1 && s2.as_int() == 0 && s3.as_int() == 0 {
        let state = &t.chiplets_row(row)[4..16];
        header.add(build_value(&alphas[4..16], state))
    } else if s1.as_int() == 1 {
        let node_index = t.chiplet_cell(16, row);
        let bit = node_index.as_int() % 2;
        let left_word = build_value(&alphas[8..12], &t.chiplets_row(row)[8..12]);
        let right_word = build_value(&alphas[8..12], &t.chiplets_row(row)[12..16]);
        let b = Ext2::from_base(Felt { v: bit });
        let nb = Ext2::from_base(Felt { v: 1 - bit });
        header.add(nb.mul(left_word)).add(b.mul(right_word))
    } else {
        Ext2::one()
    }
}

/// The hasher response of a cycle-closing row.
#[verifier::spinoff_prover]
fn hasher_response_cycle_end(t: &MainTrace, row: usize, alphas: &[Ext2], header: Ext2) -> (r: Ext2)
    requires
        t.wf(),
        row + 1 < t.spec_num_rows(),
        wf_alphas(alphas@),
        is_ext(header),
        row as int % (HASH_CYCLE_LEN as int) == HASH_CYCLE_LEN - 1,
        header == s_resp_header(
            alphas@,
            f_add(
                s_get_op_label(
                    cell(*t, 0, row as int),
                    cell(*t, 1, row as int),
                    cell(*t, 2, row as int),
                    cell(*t, 3, row as int),
                ),
                Felt { v: 32u64 },
            ),
            row as int,
            cell(*t, 16, row as int),
        ),
    ensures
        r == s_hasher_chiplet_response(*t, alphas@, row as int),
        is_ext(r),
{
    let s1 = t.chiplet_cell(1, row);
    let s2 = t.chiplet_cell(2, row);
    let s3 = t.chiplet_cell(3, row);
    if s1.as_int() == 0 && s2.as_int() == 0 && s3.as_int() == 0 {
        header.add(build_value(&alphas[8..12], &t.chiplets_row(row)[8..12]))
    } else if s1.as_int() == 0 && s2.as_int() == 0 && s3.as_int() == 1 {
        header.add(build_value(&alphas[4..16], &t.chiplets_row(row)[4..16]))
    } else if s1.as_int() == 1 && s2.as_int() == 0 && s3.as_int() == 0 {
        let next_state_value = build_value(&alphas[8..16], &t.chiplets_row(row + 1)[8..16]);
        let state_value = build_value(&alphas[8..16], &t.chiplets_row(row)[8..16]);
        header.add(next_state_value).sub(state_value)
    } else {
        Ext2::one()
    }
}

/// Builds the response from the hash chiplet at `row`.
#[verifier::spinoff_prover]
fn build_hasher_chiplet_responses(t: &MainTrace, row: usize, alphas: &[Ext2]) -> (r: Ext2)
    requires
        t.wf(),
        row + 1 < t.spec_num_rows(),
        wf_alphas(alphas@),
    ensures
        r == s_hasher_chiplet_response(*t, alphas@, row as int),
        is_ext(r),
{
    let s1 = t.chiplet_cell(1, row);
    let s2 = t.chiplet_cell(2, row);
    let s3 = t.chiplet_cell(3, row);
    let op_label = get_op_label(t.chiplet_cell(0, row), s1, s2, s3);
    let node_index = t.chiplet_cell(16, row);
    let row_addr = Felt::from_u32(((row as u64 + 1) % 0x1_0000_0000) as u32);
    assert(row_addr == s_row_addr(row as int));

    if row % HASH_CYCLE_LEN == 0 {
        let transition_label = op_label.add(Felt::from_u32(16));
        let header = alphas[0].add(alphas[1].mul_base(transition_label)).add(
            alphas[2].mul_base(row_addr),
        ).add(alphas[3].mul_base(node_index));
        hasher_response_cycle_start(t, row, alphas, header)
    } else if row % HASH_CYCLE_LEN == HASH_CYCLE_LEN - 1 {
        let transition_label = op_label.add(Felt::from_u32(32));
        let header = alphas[0].add(alphas[1].mul_base(transition_label)).add(
            alphas[2].mul_base(row_addr),
        ).add(alphas[3].mul_base(node_index));
        hasher_response_cycle_end(t, row, alphas, header)
    } else {
        Ext2::one()
    }
}

/// The response the bitwise chiplet supplies: one value per operation,
/// emitted at the closing row of its cycle.
pub open spec fn s_bitwise_chiplet_response(t: MainTrace, alphas: Seq<Ext2>, row: int) -> Ext2 {
    if row % (BITWISE_OP_CYCLE_LEN as int) == BITWISE_OP_CYCLE_LEN - 1 {
        let op_label = s_get_op_label(
            Felt { v: 1u64 },
            Felt { v: 0u64 },
            cell(t, 2, row),
            Felt { v: 0u64 },
        );
        e_add(
            e_add(
                e_add(
                    e_add(alphas[0], e_mul_base(alphas[1], op_label)),
                    e_mul_base(alphas[2], cell(t, 3, row)),
                ),
                e_mul_base(alphas[3], cell(t, 4, row)),
            ),
            e_mul_base(alphas[4], cell(t, 14, row)),
        )
    } else {
        e_one()
    }
}

/// Builds the response from the bitwise chiplet at `row`.
fn build_bitwise_chiplet_responses(t: &MainTrace, row: usize, alphas: &[Ext2]) -> (r: Ext2)
    requires
        t.wf(),
        row < t.spec_num_rows(),
        wf_alphas(alphas@),
    ensures
        r == s_bitwise_chiplet_response(*t, alphas@, row as int),
        is_ext(r),
{
    if row % BITWISE_OP_CYCLE_LEN == BITWISE_OP_CYCLE_LEN - 1 {
        let is_xor = t.chiplet_cell(2, row);
        let op_label = get_op_label(Felt::one(), Felt::zero(), is_xor, Felt::zero());
        let a = t.chiplet_cell(3, row);
        let b = t.chiplet_cell(4, row);
        let z = t.chiplet_cell(14, row);
        alphas[0].add(alphas[1].mul_base(op_label)).add(alphas[2].mul_base(a)).add(
            alphas[3].mul_base(b),
        ).add(alphas[4].mul_base(z))
    } else {
        Ext2::one()
    }
}

/// The response the memory chiplet supplies: every row is one access,
/// tagged read or write by the segment's fifth selector bit.
pub open spec fn s_memory_chiplet_response(t: MainTrace, alphas: Seq<Ext2>, row: int) -> Ext2 {
    let op_label = s_get_op_label(
        Felt { v: 1u64 },
        Felt { v: 1u64 },
        Felt { v: 0u64 },
        cell(t, 3, row),
    );
    e_add(
        e_add(
            e_add(
                e_add(
                    e_add(
                        e_add(
                            e_add(
                                e_add(alphas[0], e_mul_base(alphas[1], op_label)),
                                e_mul_base(alphas[2], cell(t, 4, row)),
                            ),
                            e_mul_base(alphas[3], cell(t, 5, row)),
                        ),
                        e_mul_base(alphas[4], cell(t, 6, row)),
                    ),
                    e_mul_base(alphas[5], cell(t, 7, row)),
                ),
                e_mul_base(alphas[6], cell(t, 8, row)),
            ),
            e_mul_base(alphas[7], cell(t, 9, row)),
        ),
        e_mul_base(alphas[8], cell(t, 10, row)),
    )
}

/// Builds the response from the memory chiplet at `row`.
fn build_memory_chiplet_responses(t: &MainTrace, row: usize, alphas: &[Ext2]) -> (r: Ext2)
    requires
        t.wf(),
        row < t.spec_num_rows(),
        wf_alphas(alphas@),
    ensures
        r == s_memory_chiplet_response(*t, alphas@, row as int),
        is_ext(r),
{
    let is_read = t.chiplet_cell(3, row);
    let op_label = get_op_label(Felt::one(), Felt::one(), Felt::zero(), is_read);
    let ctx = t.chiplet_cell(4, row);
    let addr = t.chiplet_cell(5, row);
    let clk = t.chiplet_cell(6, row);
    alphas[0].add(alphas[1].mul_base(op_label)).add(alphas[2].mul_base(ctx)).add(
        alphas[3].mul_base(addr),
    ).add(alphas[4].mul_base(clk)).add(alphas[5].mul_base(t.chiplet_cell(7, row))).add(
        alphas[6].mul_base(t.chiplet_cell(8, row)),
    ).add(alphas[7].mul_base(t.chiplet_cell(9, row))).add(
        alphas[8].mul_base(t.chiplet_cell(10, row)),
    )
}

/// The response the kernel ROM supplies at `row`: the per-procedure
/// root combination when the row's access bit is set, the identity
/// otherwise.
pub open spec fn s_kernel_chiplet_response(t: MainTrace, alphas: Seq<Ext2>, row: int) -> Ext2 {
    let active = cell(t, 4, row);
    let v = e_add(
        e_add(
            e_add(
                e_add(
                    e_add(alphas[0], e_mul_base(alphas[1], Felt { v: KERNEL_PROC_LABEL as u64 })),
                    e_mul_base(alphas[2], cell(t, 6, row)),
                ),
                e_mul_base(alphas[3], cell(t, 7, row)),
            ),
            e_mul_base(alphas[4], cell(t, 8, row)),
        ),
        e_mul_base(alphas[5], cell(t, 9, row)),
    );
    e_add(e_mul_base(v, active), e_from(f_sub(f_one(), active)))
}

/// Builds the response from the kernel ROM chiplet at `row`.
fn build_kernel_chiplet_responses(t: &MainTrace, row: usize, alphas: &[Ext2]) -> (r: Ext2)
    requires
        t.wf(),
        row < t.spec_num_rows(),
        wf_alphas(alphas@),
    ensures
        r == s_kernel_chiplet_response(*t, alphas@, row as int),
        is_ext(r),
{
    let active = t.chiplet_cell(4, row);
    let v = alphas[0].add(alphas[1].mul_base(Felt::from_u32(KERNEL_PROC_LABEL as u32))).add(
        alphas[2].mul_base(t.chiplet_cell(6, row)),
    ).add(alphas[3].mul_base(t.chiplet_cell(7, row))).add(
        alphas[4].mul_base(t.chiplet_cell(8, row)),
    ).add(alphas[5].mul_base(t.chiplet_cell(9, row)));
    v.mul_base(active).add(Ext2::from_base(Felt::one().sub(active)))
}

/// The once-per-procedure term of the kernel virtual table on the bus
/// side: the address-and-root combination, weighted by the address
/// delta into the next row so that only boundary rows contribute.
pub open spec fn s_kernel_procedure_table_response(t: MainTrace, alphas: Seq<Ext2>, row: int) -> Ext2 {
    let addr_delta = f_sub(cell(t, 5, row + 1), cell(t, 5, row));
    let v = e_add(
        e_add(
            e_add(
                e_add(
                    e_add(alphas[0], e_mul_base(alphas[1], cell(t, 5, row))),
                    e_mul_base(alphas[2], cell(t, 6, row)),
                ),
                e_mul_base(alphas[3], cell(t, 7, row)),
            ),
            e_mul_base(alphas[4], cell(t, 8, row)),
        ),
        e_mul_base(alphas[5], cell(t, 9, row)),
    );
    e_add(e_mul_base(v, addr_delta), e_from(f_sub(f_one(), addr_delta)))
}

/// Builds the response from the kernel procedure table at `row`.
fn build_kernel_procedure_table_responses(t: &MainTrace, row: usize, alphas: &[Ext2]) -> (r: Ext2)
    requires
        t.wf(),
        row + 1 < t.spec_num_rows(),
        wf_alphas(alphas@),
    ensures
        r == s_kernel_procedure_table_response(*t, alphas@, row as int),
        is_ext(r),
{
    let addr = t.chiplet_cell(5, row);
    let addr_nxt = t.chiplet_cell(5, row + 1);
    let addr_delta = addr_nxt.sub(addr);
    let v = alphas[0].add(alphas[1].mul_base(addr)).add(
        alphas[2].mul_base(t.chiplet_cell(6, row)),
    ).add(alphas[3].mul_base(t.chiplet_cell(7, row))).add(
        alphas[4].mul_base(t.chiplet_cell(8, row)),
    ).add(alphas[5].mul_base(t.chiplet_cell(9, row)));
    v.mul_base(addr_delta).add(Ext2::from_base(Felt::one().sub(addr_delta)))
}

// VIRTUAL-TABLE TERMS
// ================================================================================================

/// A sibling-table entry keyed on a node index and a sibling word:
/// `alphas[0] + alphas[3]*index + Σ word_alphas*sibling`.
pub open spec fn s_sibling_entry(
    alphas: Seq<Ext2>,
    index: Felt,
    first_alpha: int,
    sib: Seq<Felt>,
) -> Ext2 {
    e_add(
        e_add(
            e_add(
                e_add(
                    e_add(alphas[0], e_mul_base(alphas[3], index)),
                    e_mul_base(alphas[first_alpha], sib[0]),
                ),
                e_mul_base(alphas[first_alpha + 1], sib[1]),
            ),
            e_mul_base(alphas[first_alpha + 2], sib[2]),
        ),
        e_mul_base(alphas[first_alpha + 3], sib[3]),
    )
}

/// The deposit the sibling table receives at `row`: while the old
/// Merkle root is recomputed, the sibling absorbed by the hasher is
/// added to the table, selected from the digest half the node index's
/// parity points away from.
pub open spec fn s_vtable_add_sibling(t: MainTrace, alphas: Seq<Ext2>, row: int) -> Ext2 {
    let gate_mv = f_mv(t, row);
    let gate_mva = if row == 0 {
        false
    } else {
        f_mva(t, row - 1)
    };
    if gate_mv || gate_mva {
        let index = if gate_mva {
            cell(t, 16, row - 1)
        } else {
            cell(t, 16, row)
        };
        if index.v % 2 == 0 {
            s_sibling_entry(alphas, index, 12, t.rows@[row].chiplets@.subrange(12, 16))
        } else {
            s_sibling_entry(alphas, index, 8, t.rows@[row].chiplets@.subrange(8, 12))
        }
    } else {
        e_one()
    }
}

/// The withdrawal the sibling table suffers at `row`: the symmetric
/// removal while the new Merkle root is recomputed.
pub open spec fn s_vtable_remove_sibling(t: MainTrace, alphas: Seq<Ext2>, row: int) -> Ext2 {
    let gate_mu = f_mu(t, row);
    let gate_mua = if row == 0 {
        false
    } else {
        f_mua(t, row - 1)
    };
    if gate_mu || gate_mua {
        let index = if gate_mua {
            cell(t, 16, row - 1)
        } else {
            cell(t, 16, row)
        };
        if index.v % 2 == 0 {
            s_sibling_entry(alphas, index, 12, t.rows@[row].chiplets@.subrange(12, 16))
        } else {
            s_sibling_entry(alphas, index, 8, t.rows@[row].chiplets@.subrange(8, 12))
        }
    } else {
        e_one()
    }
}

/// Exec form of one sibling-table entry.
fn build_sibling_entry(t: &MainTrace, alphas: &[Ext2], row: usize, index: Felt) -> (r: Ext2)
    requires
        t.wf(),
        row < t.spec_num_rows(),
        wf_alphas(alphas@),
        is_felt(index),
    ensures
        index.v % 2 == 0 ==> r == s_sibling_entry(
            alphas@,
            index,
            12,
            t.rows@[row as int].chiplets@.subrange(12, 16),
        ),
        index.v % 2 != 0 ==> r == s_sibling_entry(
            alphas@,
            index,
            8,
            t.rows@[row as int].chiplets@.subrange(8, 12),
        ),
        is_ext(r),
{
    if index.as_int() % 2 == 0 {
        alphas[0].add(alphas[3].mul_base(index)).add(
            alphas[12].mul_base(t.chiplet_cell(12, row)),
        ).add(alphas[13].mul_base(t.chiplet_cell(13, row))).add(
            alphas[14].mul_base(t.chiplet_cell(14, row)),
        ).add(alphas[15].mul_base(t.chiplet_cell(15, row)))
    } else {
        alphas[0].add(alphas[3].mul_base(index)).add(
            alphas[8].mul_base(t.chiplet_cell(8, row)),
        ).add(alphas[9].mul_base(t.chiplet_cell(9, row))).add(
            alphas[10].mul_base(t.chiplet_cell(10, row)),
        ).add(alphas[11].mul_base(t.chiplet_cell(11, row)))
    }
}

/// Builds the sibling-table deposit at `row`.
fn chiplets_vtable_add_sibling(t: &MainTrace, alphas: &[Ext2], row: usize) -> (r: Ext2)
    requires
        t.wf(),
        row < t.spec_num_rows(),
        wf_alphas(alphas@),
    ensures
        r == s_vtable_add_sibling(*t, alphas@, row as int),
        is_ext(r),
{
    let gate_mv = t.f_mv(row);
    let gate_mva = if row == 0 {
        false
    } else {
        t.f_mva(row - 1)
    };
    if gate_mv || gate_mva {
        let index = if gate_mva {
            t.chiplet_cell(16, row - 1)
        } else {
            t.chiplet_cell(16, row)
        };
        build_sibling_entry(t, alphas, row, index)
    } else {
        Ext2::one()
    }
}

/// Builds the sibling-table withdrawal at `row`.
fn chiplets_vtable_remove_sibling(t: &MainTrace, alphas: &[Ext2], row: usize) -> (r: Ext2)
    requires
        t.wf(),
        row < t.spec_num_rows(),
        wf_alphas(alphas@),
    ensures
        r == s_vtable_remove_sibling(*t, alphas@, row as int),
        is_ext(r),
{
    let gate_mu = t.f_mu(row);
    let gate_mua = if row == 0 {
        false
    } else {
        t.f_mua(row - 1)
    };
    if gate_mu || gate_mua {
        let index = if gate_mua {
            t.chiplet_cell(16, row - 1)
        } else {
            t.chiplet_cell(16, row)
        };
        build_sibling_entry(t, alphas, row, index)
    } else {
        Ext2::one()
    }
}

/// The kernel inclusion term at `row`: a kernel-segment row whose
/// address differs from the next row's address contributes the
/// address-and-root combination once; unchanged addresses contribute
/// the identity.
pub open spec fn s_kernel_table_include(t: MainTrace, alphas: Seq<Ext2>, row: int) -> Ext2 {
    if is_kernel_row(t, row) && cell(t, 5, row).v != cell(t, 5, row + 1).v {
        e_add(
            e_add(
                e_add(
                    e_add(
                        e_add(alphas[0], e_mul_base(alphas[1], cell(t, 5, row))),
                        e_mul_base(alphas[2], cell(t, 6, row)),
                    ),
                    e_mul_base(alphas[3], cell(t, 7, row)),
                ),
                e_mul_base(alphas[4], cell(t, 8, row)),
            ),
            e_mul_base(alphas[5], cell(t, 9, row)),
        )
    } else {
        e_one()
    }
}

/// Builds the kernel procedure-inclusion term at `row`.
fn chiplets_kernel_table_include(t: &MainTrace, alphas: &[Ext2], row: usize) -> (r: Ext2)
    requires
        t.wf(),
        row + 1 < t.spec_num_rows(),
        wf_alphas(alphas@),
    ensures
        r == s_kernel_table_include(*t, alphas@, row as int),
        is_ext(r),
{
    if t.is_kernel_row(row) && t.chiplet_cell(5, row).as_int() != t.chiplet_cell(
        5,
        row + 1,
    ).as_int() {
        alphas[0].add(alphas[1].mul_base(t.chiplet_cell(5, row))).add(
            alphas[2].mul_base(t.chiplet_cell(6, row)),
        ).add(alphas[3].mul_base(t.chiplet_cell(7, row))).add(
            alphas[4].mul_base(t.chiplet_cell(8, row)),
        ).add(alphas[5].mul_base(t.chiplet_cell(9, row)))
    } else {
        Ext2::one()
    }
}


// REQUEST AND RESPONSE DISPATCH
// ================================================================================================

/// The request the main trace makes of the chiplets at `row`, selected
/// by the row's opcode; an opcode without chiplet interaction
/// contributes the identity.
pub open spec fn s_requests_at(t: MainTrace, alphas: Seq<Ext2>, row: int) -> Ext2 {
    let opf = t.rows@[row].op_code;
    let op = opf.v % 256;
    if op == OPCODE_JOIN || op == OPCODE_SPLIT || op == OPCODE_LOOP || op == OPCODE_DYN || op
        == OPCODE_CALL {
        s_control_block_request(t, opf, alphas, row)
    } else if op == OPCODE_SYSCALL {
        s_syscall_block_request(t, opf, alphas, row)
    } else if op == OPCODE_SPAN {
        s_span_block_request(t, alphas, row)
    } else if op == OPCODE_RESPAN {
        s_respan_block_request(t, alphas, row)
    } else if op == OPCODE_END {
        s_end_block_request(t, alphas, row)
    } else if op == OPCODE_U32AND {
        s_bitwise_request(t, f_zero(), alphas, row)
    } else if op == OPCODE_U32XOR {
        s_bitwise_request(t, f_one(), alphas, row)
    } else if op == OPCODE_MLOADW {
        s_mem_request_word(t, MEMORY_READ_LABEL, alphas, row)
    } else if op == OPCODE_MSTOREW {
        s_mem_request_word(t, MEMORY_WRITE_LABEL, alphas, row)
    } else if op == OPCODE_MLOAD {
        s_mem_request_element(t, MEMORY_READ_LABEL, alphas, row)
    } else if op == OPCODE_MSTORE {
        s_mem_request_element(t, MEMORY_WRITE_LABEL, alphas, row)
    } else if op == OPCODE_MSTREAM {
        s_mstream_request(t, alphas, row)
    } else if op == OPCODE_RCOMBBASE {
        s_rcomb_base_request(t, alphas, row)
    } else if op == OPCODE_HPERM {
        s_hperm_request(t, alphas, row)
    } else if op == OPCODE_MPVERIFY {
        s_mpverify_request(t, alphas, row)
    } else if op == OPCODE_MRUPDATE {
        s_mrupdate_request(t, alphas, row)
    } else {
        e_one()
    }
}

/// The response the chiplets give at `row`, selected by the unary
/// segment selectors; a padding row contributes the identity.
pub open spec fn s_responses_at(t: MainTrace, alphas: Seq<Ext2>, row: int) -> Ext2 {
    if cell(t, 0, row).v == 0 {
        s_hasher_chiplet_response(t, alphas, row)
    } else if cell(t, 1, row).v == 0 {
        s_bitwise_chiplet_response(t, alphas, row)
    } else if cell(t, 2, row).v == 0 {
        s_memory_chiplet_response(t, alphas, row)
    } else if cell(t, 3, row).v == 0 {
        e_mul(
            s_kernel_chiplet_response(t, alphas, row),
            s_kernel_procedure_table_response(t, alphas, row),
        )
    } else {
        e_one()
    }
}

/// No absorption-continuing opcode may stand on the first two rows:
/// its request reads the two chiplet hasher states recorded just
/// before it.
pub open spec fn respan_rows_ok(t: MainTrace) -> bool {
    forall|row: int|
        0 <= row < t.rows.len() && (#[trigger] t.rows@[row]).op_code.v % 256 == OPCODE_RESPAN
            ==> row >= 2
}

/// Describes how to construct the bus auxiliary column `b_chip`.
pub struct BusColumnBuilder {}

impl BusColumnBuilder {
    pub fn new() -> (r: BusColumnBuilder) {
        BusColumnBuilder {  }
    }

    /// Constructs the request made by the main trace of the chiplets at
    /// `row`.
    pub fn get_requests_at(&self, main_trace: &MainTrace, alphas: &[Ext2], row: usize) -> (r: Ext2)
        requires
            main_trace.wf(),
            row + 1 < main_trace.spec_num_rows(),
            wf_alphas(alphas@),
            main_trace.rows@[row as int].op_code.v % 256 == OPCODE_RESPAN ==> row >= 2,
        ensures
            r == s_requests_at(*main_trace, alphas@, row as int),
            is_ext(r),
    {
        let op_code_felt = main_trace.get_op_code(row);
        let op_code = op_code_felt.as_int() % 256;
        if op_code == OPCODE_JOIN || op_code == OPCODE_SPLIT || op_code == OPCODE_LOOP || op_code
            == OPCODE_DYN || op_code == OPCODE_CALL {
            build_control_block_request(main_trace, op_code_felt, alphas, row)
        } else if op_code == OPCODE_SYSCALL {
            build_syscall_block_request(main_trace, op_code_felt, alphas, row)
        } else if op_code == OPCODE_SPAN {
            build_span_block_request(main_trace, alphas, row)
        } else if op_code == OPCODE_RESPAN {
            build_respan_block_request(main_trace, alphas, row)
        } else if op_code == OPCODE_END {
            build_end_block_request(main_trace, alphas, row)
        } else if op_code == OPCODE_U32AND {
            build_bitwise_request(main_trace, Felt::zero(), alphas, row)
        } else if op_code == OPCODE_U32XOR {
            build_bitwise_request(main_trace, Felt::one(), alphas, row)
        } else if op_code == OPCODE_MLOADW {
            build_mem_request_word(main_trace, MEMORY_READ_LABEL, alphas, row)
        } else if op_code == OPCODE_MSTOREW {
            build_mem_request_word(main_trace, MEMORY_WRITE_LABEL, alphas, row)
        } else if op_code == OPCODE_MLOAD {
            build_mem_request_element(main_trace, MEMORY_READ_LABEL, alphas, row)
        } else if op_code == OPCODE_MSTORE {
            build_mem_request_element(main_trace, MEMORY_WRITE_LABEL, alphas, row)
        } else if op_code == OPCODE_MSTREAM {
            build_mstream_request(main_trace, alphas, row)
        } else if op_code == OPCODE_RCOMBBASE {
            build_rcomb_base_request(main_trace, alphas, row)
        } else if op_code == OPCODE_HPERM {
            build_hperm_request(main_trace, alphas, row)
        } else if op_code == OPCODE_MPVERIFY {
            build_mpverify_request(main_trace, alphas, row)
        } else if op_code == OPCODE_MRUPDATE {
            build_mrupdate_request(main_trace, alphas, row)
        } else {
            Ext2::one()
        }
    }

    /// Constructs the response supplied by the chiplets at `row`.
    pub fn get_responses_at(&self, main_trace: &MainTrace, alphas: &[Ext2], row: usize) -> (r:
        Ext2)
        requires
            main_trace.wf(),
            row + 1 < main_trace.spec_num_rows(),
            wf_alphas(alphas@),
        ensures
            r == s_responses_at(*main_trace, alphas@, row as int),
            is_ext(r),
    {
        if main_trace.chiplet_cell(0, row).as_int() == 0 {
            build_hasher_chiplet_responses(main_trace, row, alphas)
        } else if main_trace.chiplet_cell(1, row).as_int() == 0 {
            build_bitwise_chiplet_responses(main_trace, row, alphas)
        } else if main_trace.chiplet_cell(2, row).as_int() == 0 {
            build_memory_chiplet_responses(main_trace, row, alphas)
        } else if main_trace.chiplet_cell(3, row).as_int() == 0 {
            let a = build_kernel_chiplet_responses(main_trace, row, alphas);
            let b = build_kernel_procedure_table_responses(main_trace, row, alphas);
            a.mul(b)
        } else {
            Ext2::one()
        }
    }
}

// THE RUNNING-PRODUCT COLUMNS
// ================================================================================================

/// The bus request folded at `row`; the final row, which always pads
/// the trace, contributes the identity.
pub open spec fn s_bus_req_term(t: MainTrace, alphas: Seq<Ext2>, row: int) -> Ext2 {
    if row + 1 < t.rows.len() {
        s_requests_at(t, alphas, row)
    } else {
        e_one()
    }
}

/// The bus response folded at `row`.
pub open spec fn s_bus_resp_term(t: MainTrace, alphas: Seq<Ext2>, row: int) -> Ext2 {
    if row + 1 < t.rows.len() {
        s_responses_at(t, alphas, row)
    } else {
        e_one()
    }
}

/// The virtual-table withdrawal folded at `row`.
pub open spec fn s_vtable_req_term(t: MainTrace, alphas: Seq<Ext2>, row: int) -> Ext2 {
    if row + 1 < t.rows.len() {
        s_vtable_remove_sibling(t, alphas, row)
    } else {
        e_one()
    }
}

/// The virtual-table deposit and inclusion folded at `row`.
pub open spec fn s_vtable_resp_term(t: MainTrace, alphas: Seq<Ext2>, row: int) -> Ext2 {
    if row + 1 < t.rows.len() {
        e_mul(s_vtable_add_sibling(t, alphas, row), s_kernel_table_include(t, alphas, row))
    } else {
        e_one()
    }
}

/// The value standing before `b[i]` in a running column: one at the
/// start, the previous entry after.
pub open spec fn prev_or_one(b: Seq<Ext2>, i: int) -> Ext2 {
    if i == 0 {
        e_one()
    } else {
        b[i - 1]
    }
}

/// What it is to be the bus column of a trace under given challenges:
/// one entry per row, each step satisfying
/// `b[i] * request(i) == b[i-1] * response(i)` with `b[-1] == 1`.
pub open spec fn is_bus_column(t: MainTrace, alphas: Seq<Ext2>, b: Seq<Ext2>) -> bool {
    &&& b.len() == t.rows.len()
    &&& all_ext(b)
    &&& forall|i: int|
        0 <= i < b.len() ==> e_mul(#[trigger] b[i], s_bus_req_term(t, alphas, i)) == e_mul(
            prev_or_one(b, i),
            s_bus_resp_term(t, alphas, i),
        )
}

/// The same discipline for the virtual-table column `t_chip`.
pub open spec fn is_vtable_column(t: MainTrace, alphas: Seq<Ext2>, b: Seq<Ext2>) -> bool {
    &&& b.len() == t.rows.len()
    &&& all_ext(b)
    &&& forall|i: int|
        0 <= i < b.len() ==> e_mul(#[trigger] b[i], s_vtable_req_term(t, alphas, i)) == e_mul(
            prev_or_one(b, i),
            s_vtable_resp_term(t, alphas, i),
        )
}

/// Dividing by an element and multiplying it back is the identity.
proof fn lemma_div_step(x: Ext2, q_inv: Ext2, q: Ext2)
    requires
        is_ext(x),
        e_mul(q_inv, q) == e_one(),
    ensures
        e_mul(e_mul(x, q_inv), q) == x,
{
    lemma_e_mul_assoc(x, q_inv, q);
    lemma_e_mul_one(x);
}

impl BusColumnBuilder {
    /// Builds the bus column: entry `i` extends the running product by
    /// `response(i) / request(i)`. It succeeds exactly when every
    /// folded request is invertible — under random challenges, all but
    /// a negligible set of draws.
    #[verifier::rlimit(60)]
    #[verifier::spinoff_prover]
    pub fn build_aux_column(&self, main_trace: &MainTrace, alphas: &[Ext2]) -> (r: Option<
        Vec<Ext2>,
    >)
        requires
            main_trace.wf(),
            wf_alphas(alphas@),
            respan_rows_ok(*main_trace),
        ensures
            (r is Some) <==> (forall|i: int|
                0 <= i < main_trace.rows.len() ==> invertible(
                    #[trigger] s_bus_req_term(*main_trace, alphas@, i),
                )),
            match r {
                Some(b) => is_bus_column(*main_trace, alphas@, b@),
                None => true,
            },
    {
        let n = main_trace.num_rows();
        let mut b: Vec<Ext2> = Vec::new();
        let mut last = Ext2::one();
        let mut row: usize = 0;
        proof {
            lemma_e_mul_one(e_one());
        }
        while row < n
            invariant
                main_trace.wf(),
                wf_alphas(alphas@),
                respan_rows_ok(*main_trace),
                n == main_trace.spec_num_rows(),
                row <= n,
                b@.len() == row,
                all_ext(b@),
                is_ext(last),
                last == prev_or_one(b@, row as int),
                forall|i: int|
                    0 <= i < row ==> invertible(
                        #[trigger] s_bus_req_term(*main_trace, alphas@, i),
                    ),
                forall|i: int|
                    0 <= i < row ==> e_mul(#[trigger] b@[i], s_bus_req_term(*main_trace, alphas@, i))
                        == e_mul(
                        prev_or_one(b@, i),
                        s_bus_resp_term(*main_trace, alphas@, i),
                    ),
            decreases n - row,
        {
            if row + 1 < n {
                let req = self.get_requests_at(main_trace, alphas, row);
                let resp = self.get_responses_at(main_trace, alphas, row);
                let req_inv = match req.try_inv() {
                    Some(v) => v,
                    None => {
                        proof {
                            assert(!invertible(s_bus_req_term(*main_trace, alphas@, row as int)));
                        }
                        return None;
                    },
                };
                let next = last.mul(resp).mul(req_inv);
                proof {
                    lemma_div_step(e_mul(last, resp), req_inv, req);
                    assert(e_mul(req_inv, s_bus_req_term(*main_trace, alphas@, row as int))
                        == e_one());
                }
                b.push(next);
                last = next;
            } else {
                proof {
                    lemma_e_mul_one(last);
                    lemma_e_mul_one(e_one());
                    assert(e_mul(e_one(), s_bus_req_term(*main_trace, alphas@, row as int))
                        == e_one());
                }
                b.push(last);
            }
            row = row + 1;
        }
        Some(b)
    }
}

/// Describes how to construct the virtual-table auxiliary column
/// `t_chip`.
pub struct ChipletsVTableColBuilder {}

impl ChipletsVTableColBuilder {
    pub fn new() -> (r: ChipletsVTableColBuilder) {
        ChipletsVTableColBuilder {  }
    }

    /// Constructs the virtual-table withdrawal at `row`.
    pub fn get_requests_at(&self, main_trace: &MainTrace, alphas: &[Ext2], row: usize) -> (r: Ext2)
        requires
            main_trace.wf(),
            row < main_trace.spec_num_rows(),
            wf_alphas(alphas@),
        ensures
            r == s_vtable_remove_sibling(*main_trace, alphas@, row as int),
            is_ext(r),
    {
        chiplets_vtable_remove_sibling(main_trace, alphas, row)
    }

    /// Constructs the virtual-table deposit and kernel inclusion at
    /// `row`.
    pub fn get_responses_at(&self, main_trace: &MainTrace, alphas: &[Ext2], row: usize) -> (r:
        Ext2)
        requires
            main_trace.wf(),
            row + 1 < main_trace.spec_num_rows(),
            wf_alphas(alphas@),
        ensures
            r == e_mul(
                s_vtable_add_sibling(*main_trace, alphas@, row as int),
                s_kernel_table_include(*main_trace, alphas@, row as int),
            ),
            is_ext(r),
    {
        let a = chiplets_vtable_add_sibling(main_trace, alphas, row);
        let b = chiplets_kernel_table_include(main_trace, alphas, row);
        a.mul(b)
    }

    /// Builds the virtual-table column under the same discipline as the
    /// bus column: it succeeds exactly when every folded withdrawal is
    /// invertible.
    #[verifier::rlimit(60)]
    #[verifier::spinoff_prover]
    pub fn build_aux_column(&self, main_trace: &MainTrace, alphas: &[Ext2]) -> (r: Option<
        Vec<Ext2>,
    >)
        requires
            main_trace.wf(),
            wf_alphas(alphas@),
        ensures
            (r is Some) <==> (forall|i: int|
                0 <= i < main_trace.rows.len() ==> invertible(
                    #[trigger] s_vtable_req_term(*main_trace, alphas@, i),
                )),
            match r {
                Some(b) => is_vtable_column(*main_trace, alphas@, b@),
                None => true,
            },
    {
        let n = main_trace.num_rows();
        let mut b: Vec<Ext2> = Vec::new();
        let mut last = Ext2::one();
        let mut row: usize = 0;
        proof {
            lemma_e_mul_one(e_one());
        }
        while row < n
            invariant
                main_trace.wf(),
                wf_alphas(alphas@),
                n == main_trace.spec_num_rows(),
                row <= n,
                b@.len() == row,
                all_ext(b@),
                is_ext(last),
                last == prev_or_one(b@, row as int),
                forall|i: int|
                    0 <= i < row ==> invertible(
                        #[trigger] s_vtable_req_term(*main_trace, alphas@, i),
                    ),
                forall|i: int|
                    0 <= i < row ==> e_mul(
                        #[trigger] b@[i],
                        s_vtable_req_term(*main_trace, alphas@, i),
                    ) == e_mul(prev_or_one(b@, i), s_vtable_resp_term(*main_trace, alphas@, i)),
            decreases n - row,
        {
            if row + 1 < n {
                let req = self.get_requests_at(main_trace, alphas, row);
                let resp = self.get_responses_at(main_trace, alphas, row);
                let req_inv = match req.try_inv() {
                    Some(v) => v,
                    None => {
                        proof {
                            assert(!invertible(
                                s_vtable_req_term(*main_trace, alphas@, row as int),
                            ));
                        }
                        return None;
                    },
                };
                let next = last.mul(resp).mul(req_inv);
                proof {
                    lemma_div_step(e_mul(last, resp), req_inv, req);
                    assert(e_mul(req_inv, s_vtable_req_term(*main_trace, alphas@, row as int))
                        == e_one());
                }
                b.push(next);
                last = next;
            } else {
                proof {
                    lemma_e_mul_one(last);
                    lemma_e_mul_one(e_one());
                    assert(e_mul(e_one(), s_vtable_req_term(*main_trace, alphas@, row as int))
                        == e_one());
                }
                b.push(last);
            }
            row = row + 1;
        }
        Some(b)
    }
}

/// Constructs the two chiplets auxiliary columns.
pub struct AuxTraceBuilder {}

impl AuxTraceBuilder {
    pub fn new() -> (r: AuxTraceBuilder) {
        AuxTraceBuilder {  }
    }

    /// Builds and returns the chiplets auxiliary columns: the virtual
    /// table column `t_chip` followed by the bus column `b_chip`. It
    /// succeeds exactly when every folded request of both columns is
    /// invertible.
    pub fn build_aux_columns(&self, main_trace: &MainTrace, rand_elements: &[Ext2]) -> (r: Option<
        Vec<Vec<Ext2>>,
    >)
        requires
            main_trace.wf(),
            wf_alphas(rand_elements@),
            respan_rows_ok(*main_trace),
        ensures
            (r is Some) <==> ((forall|i: int|
                0 <= i < main_trace.rows.len() ==> invertible(
                    #[trigger] s_vtable_req_term(*main_trace, rand_elements@, i),
                )) && (forall|i: int|
                0 <= i < main_trace.rows.len() ==> invertible(
                    #[trigger] s_bus_req_term(*main_trace, rand_elements@, i),
                ))),
            match r {
                Some(cols) => {
                    &&& cols@.len() == 2
                    &&& is_vtable_column(*main_trace, rand_elements@, cols@[0]@)
                    &&& is_bus_column(*main_trace, rand_elements@, cols@[1]@)
                },
                None => true,
            },
    {
        let v_table_col_builder = ChipletsVTableColBuilder::new();
        let bus_col_builder = BusColumnBuilder::new();
        let t_chip = v_table_col_builder.build_aux_column(main_trace, rand_elements);
        let b_chip = bus_col_builder.build_aux_column(main_trace, rand_elements);
        match (t_chip, b_chip) {
            (Some(tc), Some(bc)) => {
                let mut cols: Vec<Vec<Ext2>> = Vec::new();
                cols.push(tc);
                cols.push(bc);
                Some(cols)
            },
            _ => None,
        }
    }
}


// LAWS OF THE BUS AND VIRTUAL-TABLE ARGUMENTS
// ================================================================================================

/// The running product of a sequence of terms.
pub open spec fn s_prod(terms: Seq<Ext2>) -> Ext2
    decreases terms.len(),
{
    if terms.len() == 0 {
        e_one()
    } else {
        e_mul(s_prod(terms.drop_last()), terms.last())
    }
}

/// The folded bus requests of a whole trace.
pub open spec fn bus_req_terms(t: MainTrace, alphas: Seq<Ext2>) -> Seq<Ext2> {
    Seq::new(t.rows.len() as nat, |i: int| s_bus_req_term(t, alphas, i))
}

/// The folded bus responses of a whole trace.
pub open spec fn bus_resp_terms(t: MainTrace, alphas: Seq<Ext2>) -> Seq<Ext2> {
    Seq::new(t.rows.len() as nat, |i: int| s_bus_resp_term(t, alphas, i))
}

/// After `k+1` steps of the bus recurrence, the column entry carries
/// exactly the ratio of the folded responses to the folded requests:
/// `b[k] * (req_0 * ... * req_k) == resp_0 * ... * resp_k`.
proof fn lemma_bus_prefix(t: MainTrace, alphas: Seq<Ext2>, b: Seq<Ext2>, k: int)
    requires
        is_bus_column(t, alphas, b),
        0 <= k < b.len(),
    ensures
        e_mul(b[k], s_prod(bus_req_terms(t, alphas).take(k + 1))) == s_prod(
            bus_resp_terms(t, alphas).take(k + 1),
        ),
    decreases k,
{
    lemma_e_ops_canonical();
    let reqs = bus_req_terms(t, alphas);
    let resps = bus_resp_terms(t, alphas);
    assert(reqs.take(k + 1).drop_last() =~= reqs.take(k));
    assert(resps.take(k + 1).drop_last() =~= resps.take(k));
    assert(reqs.take(k + 1).last() == s_bus_req_term(t, alphas, k));
    assert(resps.take(k + 1).last() == s_bus_resp_term(t, alphas, k));
    let qk = s_bus_req_term(t, alphas, k);
    let pk = s_bus_resp_term(t, alphas, k);
    if k == 0 {
        // prod of one term is one * term
        assert(reqs.take(0) =~= Seq::<Ext2>::empty());
        assert(resps.take(0) =~= Seq::<Ext2>::empty());
        lemma_e_mul_one(qk);
        lemma_e_mul_one(pk);
        assert(e_mul(b[0], qk) == e_mul(e_one(), pk));
        lemma_e_mul_comm(e_one(), qk);
        lemma_e_mul_comm(e_one(), pk);
        lemma_e_mul_comm(b[0], e_mul(e_one(), qk));
        lemma_e_mul_comm(b[0], qk);
        lemma_e_mul_assoc(e_one(), qk, b[0]);
        // b[0] * (one * q0) == (one * q0) * b[0] == one * (q0 * b[0])
        assert(e_mul(b[0], s_prod(reqs.take(1))) == e_mul(b[0], e_mul(e_one(), qk)));
        assert(e_mul(b[0], e_mul(e_one(), qk)) == e_mul(b[0], qk));
        assert(s_prod(resps.take(1)) == e_mul(e_one(), pk));
        assert(e_mul(e_one(), pk) == pk);
        lemma_e_mul_one(b[0]);
        assert(e_mul(e_one(), pk) == e_mul(prev_or_one(b, 0), pk));
    } else {
        lemma_bus_prefix(t, alphas, b, k - 1);
        let pq = s_prod(reqs.take(k));
        let pp = s_prod(resps.take(k));
        // b[k] * (PQ * qk) == (b[k] * qk) * PQ == (b[k-1] * pk) * PQ
        //                  == (b[k-1] * PQ) * pk == PP * pk
        lemma_e_mul_comm(pq, qk);
        lemma_e_mul_assoc(b[k], qk, pq);
        lemma_e_mul_assoc(b[k - 1], pk, pq);
        lemma_e_mul_comm(pk, pq);
        lemma_e_mul_assoc(b[k - 1], pq, pk);
        assert(e_mul(b[k], s_prod(reqs.take(k + 1))) == e_mul(b[k], e_mul(pq, qk)));
        assert(e_mul(b[k], e_mul(pq, qk)) == e_mul(b[k], e_mul(qk, pq)));
        assert(e_mul(b[k], e_mul(qk, pq)) == e_mul(e_mul(b[k], qk), pq));
        assert(e_mul(b[k], qk) == e_mul(b[k - 1], pk));
        assert(e_mul(e_mul(b[k - 1], pk), pq) == e_mul(b[k - 1], e_mul(pk, pq)));
        assert(e_mul(b[k - 1], e_mul(pk, pq)) == e_mul(b[k - 1], e_mul(pq, pk)));
        assert(e_mul(b[k - 1], e_mul(pq, pk)) == e_mul(e_mul(b[k - 1], pq), pk));
        assert(e_mul(e_mul(b[k - 1], pq), pk) == e_mul(pp, pk));
    }
}

/// A product of invertible terms is invertible.
proof fn lemma_prod_invertible(terms: Seq<Ext2>)
    requires
        forall|i: int| 0 <= i < terms.len() ==> invertible(#[trigger] terms[i]),
    ensures
        invertible(s_prod(terms)),
    decreases terms.len(),
{
    lemma_e_ops_canonical();
    if terms.len() == 0 {
        lemma_e_mul_one(e_one());
        assert(e_mul(e_one(), s_prod(terms)) == e_one());
    } else {
        let front = terms.drop_last();
        assert forall|i: int| 0 <= i < front.len() implies invertible(#[trigger] front[i]) by {
            assert(front[i] == terms[i]);
            assert(invertible(terms[i]));
        }
        lemma_prod_invertible(front);
        let up = choose|u: Ext2| #[trigger] e_mul(u, s_prod(front)) == e_one();
        let last = terms.last();
        assert(invertible(terms[terms.len() - 1]));
        let ul = choose|u: Ext2| #[trigger] e_mul(u, last) == e_one();
        lemma_e_mul_four_swap(up, ul, s_prod(front), last);
        lemma_e_mul_one(e_one());
        assert(e_mul(e_mul(up, ul), e_mul(s_prod(front), last)) == e_mul(
            e_mul(up, s_prod(front)),
            e_mul(ul, last),
        ));
        assert(e_mul(e_mul(up, ul), s_prod(terms)) == e_one());
    }
}

/// The closing step of the bus argument: an entry whose product with an
/// invertible value equals that value is one.
proof fn lemma_close_at_one(x: Ext2, p: Ext2)
    requires
        is_ext(x),
        invertible(p),
        e_mul(x, p) == p,
    ensures
        x == e_one(),
{
    let u = choose|u: Ext2| #[trigger] e_mul(u, p) == e_one();
    lemma_e_cancel(x, p, p, u);
    lemma_e_mul_comm(p, u);
}

/// Law: over a balanced trace — one whose folded requests and folded
/// responses multiply to the same value, every request being
/// invertible — the bus column closes at one; and when the opening row
/// makes no request, the column opens at the first response. This
/// holds for every draw of the challenges under which the column could
/// be built at all.
#[verifier::spinoff_prover]
pub proof fn lemma_bus_balance(t: MainTrace, alphas: Seq<Ext2>, b: Seq<Ext2>)
    requires
        is_bus_column(t, alphas, b),
        b.len() >= 1,
        s_prod(bus_req_terms(t, alphas)) == s_prod(bus_resp_terms(t, alphas)),
        forall|i: int| 0 <= i < b.len() ==> invertible(#[trigger] s_bus_req_term(t, alphas, i)),
    ensures
        b.last() == e_one(),
        s_bus_req_term(t, alphas, 0) == e_one() ==> b[0] == s_bus_resp_term(t, alphas, 0),
{
    lemma_e_ops_canonical();
    let n = b.len() as int;
    let reqs = bus_req_terms(t, alphas);
    let resps = bus_resp_terms(t, alphas);
    lemma_bus_prefix(t, alphas, b, n - 1);
    assert(reqs.take(n) =~= reqs);
    assert(resps.take(n) =~= resps);
    let pr = s_prod(reqs);
    assert(e_mul(b[n - 1], pr) == s_prod(resps));
    assert forall|i: int| 0 <= i < reqs.len() implies invertible(#[trigger] reqs[i]) by {
        assert(reqs[i] == s_bus_req_term(t, alphas, i));
        assert(invertible(s_bus_req_term(t, alphas, i)));
    }
    lemma_prod_invertible(reqs);
    lemma_close_at_one(b[n - 1], pr);
    assert(b.last() == b[n - 1]);

    // the opening entry
    let q0 = s_bus_req_term(t, alphas, 0);
    let p0 = s_bus_resp_term(t, alphas, 0);
    if q0 == e_one() {
        assert(e_mul(b[0], q0) == e_mul(prev_or_one(b, 0), p0));
        lemma_e_mul_one(b[0]);
        lemma_e_mul_comm(b[0], e_one());
        lemma_e_mul_one(p0);
    }
}

/// Law: a deposit into the sibling table and a withdrawal of the same
/// entry — equal node index, equal sibling word — are equal values, so
/// the pair nets to the identity in the running virtual-table column.
pub proof fn lemma_sibling_deposit_matches_withdrawal(
    t1: MainTrace,
    r1: int,
    t2: MainTrace,
    r2: int,
    alphas: Seq<Ext2>,
    index: Felt,
)
    requires
        t1.wf(),
        t2.wf(),
        0 <= r1 < t1.rows.len(),
        0 <= r2 < t2.rows.len(),
        f_mv(t1, r1),
        f_mu(t2, r2),
        !(r1 > 0 && f_mva(t1, r1 - 1)),
        !(r2 > 0 && f_mua(t2, r2 - 1)),
        cell(t1, 16, r1) == index,
        cell(t2, 16, r2) == index,
        forall|j: int| 8 <= j < 16 ==> #[trigger] t1.rows@[r1].chiplets@[j]
            == t2.rows@[r2].chiplets@[j],
    ensures
        s_vtable_add_sibling(t1, alphas, r1) == s_vtable_remove_sibling(t2, alphas, r2),
{
    assert(t1.rows@[r1].chiplets@.subrange(12, 16) =~= t2.rows@[r2].chiplets@.subrange(12, 16));
    assert(t1.rows@[r1].chiplets@.subrange(8, 12) =~= t2.rows@[r2].chiplets@.subrange(8, 12));
}

/// Law: a kernel-segment row whose address equals the next row's
/// address contributes the identity to the virtual table. Hence over a
/// run of rows recording repeated accesses to one procedure, only the
/// final, address-changing row contributes — the procedure is included
/// exactly once however many times it was invoked.
pub proof fn lemma_kernel_inclusion_once(t: MainTrace, alphas: Seq<Ext2>, lo: int, hi: int)
    requires
        forall|r: int| lo <= r < hi ==> #[trigger] cell(t, 5, r) == cell(t, 5, r + 1),
    ensures
        forall|r: int| lo <= r < hi ==> #[trigger] s_kernel_table_include(t, alphas, r)
            == e_one(),
{
}

/// Law: when the bitwise chiplet's recorded operands and result at a
/// cycle-closing row equal the requesting row's stack operands and
/// next-row result, and the operation kinds agree, the request and the
/// response are the same field value — the pair cancels on the bus.
pub proof fn lemma_bitwise_request_matches_response(
    t: MainTrace,
    req_row: int,
    resp_row: int,
    alphas: Seq<Ext2>,
    is_xor: Felt,
)
    requires
        resp_row % (BITWISE_OP_CYCLE_LEN as int) == BITWISE_OP_CYCLE_LEN - 1,
        cell(t, 2, resp_row) == is_xor,
        cell(t, 3, resp_row) == t.rows@[req_row].stack@[1],
        cell(t, 4, resp_row) == t.rows@[req_row].stack@[0],
        cell(t, 14, resp_row) == t.rows@[req_row + 1].stack@[0],
    ensures
        s_bitwise_request(t, is_xor, alphas, req_row) == s_bitwise_chiplet_response(
            t,
            alphas,
            resp_row,
        ),
{
}

} // verus!
