//! End-to-end scenarios for the chiplets auxiliary columns: the bus
//! balances over a correct execution, detects a corrupted one, the
//! sibling table deposits and withdraws symmetrically, and the kernel
//! table includes each procedure once.

use miden_vm_lib::aux_trace::{
    AuxTraceBuilder, BusColumnBuilder, ChipletsVTableColBuilder, OPCODE_HPERM, OPCODE_MLOADW,
    OPCODE_MPVERIFY, OPCODE_MSTOREW, OPCODE_U32AND,
};
use miden_vm_lib::chiplets::{Chiplets, Kernel};
use miden_vm_lib::ext::Ext2;
use miden_vm_lib::felt::Felt;
use miden_vm_lib::main_trace::{MainTrace, TraceRow};
use miden_vm_lib::word::Word;

fn alphas(seed: u64) -> Vec<Ext2> {
    let mut out = Vec::new();
    let mut x = seed | 1;
    for _ in 0..16 {
        x = x.wrapping_mul(6364136223846793005).wrapping_add(1442695040888963407);
        let c0 = Felt::new(x);
        x = x.wrapping_mul(6364136223846793005).wrapping_add(1442695040888963407);
        let c1 = Felt::new(x);
        out.push(Ext2 { c0, c1 });
    }
    out
}

fn empty_kernel() -> Kernel {
    Kernel::new(Vec::new())
}

fn word(a: u64, b: u64, c: u64, d: u64) -> Word {
    Word::new(Felt::new(a), Felt::new(b), Felt::new(c), Felt::new(d))
}

/// Builds a main trace of `n` rows whose chiplets columns come from the
/// composed chiplets table.
fn main_trace_from(chiplets: Chiplets, n: usize) -> MainTrace {
    let composed = chiplets.into_trace(n, 0);
    let mut rows = Vec::new();
    for r in 0..n {
        let mut row = TraceRow::zeroed();
        for c in 0..18 {
            row.chiplets[c] = composed.trace[c][r];
        }
        rows.push(row);
    }
    MainTrace::new(rows)
}

/// A bitwise AND whose request and response encode the same operand
/// and result triple: the bus column closes at one for every draw of
/// the challenges, and opens at the first response.
#[test]
fn bitwise_bus_balances() {
    for seed in [3u64, 77, 991] {
        let mut chiplets = Chiplets::new(empty_kernel());
        let a = Felt::new(0b1010);
        let b = Felt::new(0b0110);
        let z = chiplets.u32and(a, b).unwrap();
        assert_eq!(z.as_int(), 0b0010);

        let mut t = main_trace_from(chiplets, 16);
        // the operation requests the result at row 2; the operands sit
        // on the stack at row 2 and the result at row 3
        t.rows[2].op_code = Felt::new(OPCODE_U32AND);
        t.rows[2].stack[1] = a;
        t.rows[2].stack[0] = b;
        t.rows[3].stack[0] = z;

        let al = alphas(seed);
        let bus = BusColumnBuilder::new();

        // the request and the response are the same field value
        let req = bus.get_requests_at(&t, &al, 2);
        let resp = bus.get_responses_at(&t, &al, 7);
        assert_eq!(req, resp);

        let b_chip = bus.build_aux_column(&t, &al).unwrap();
        assert_eq!(b_chip.len(), 16);
        // the column opens at the first response: row 0 makes no
        // request, and supplies no response, so it opens at one
        assert_eq!(b_chip[0], Ext2::one());
        assert_eq!(b_chip[15], Ext2::one());

        // the top-level builder returns the virtual-table column
        // followed by the bus column
        let cols = AuxTraceBuilder::new().build_aux_columns(&t, &al).unwrap();
        assert_eq!(cols.len(), 2);
        assert_eq!(cols[1], b_chip);
        assert_eq!(cols[0][15], Ext2::one());
    }
}

/// Corrupting the recorded bitwise result makes the bus fail to close
/// at one under independent challenge draws.
#[test]
fn corrupted_result_breaks_the_bus() {
    for seed in [5u64, 1234] {
        let mut chiplets = Chiplets::new(empty_kernel());
        let a = Felt::new(0b1010);
        let b = Felt::new(0b0110);
        let z = chiplets.u32and(a, b).unwrap();

        let mut t = main_trace_from(chiplets, 16);
        t.rows[2].op_code = Felt::new(OPCODE_U32AND);
        t.rows[2].stack[1] = a;
        t.rows[2].stack[0] = b;
        // the stack's view of the result is flipped
        t.rows[3].stack[0] = Felt::new(z.as_int() ^ 1);

        let al = alphas(seed);
        let bus = BusColumnBuilder::new();
        let b_chip = bus.build_aux_column(&t, &al).unwrap();
        assert_ne!(b_chip[15], Ext2::one());
    }
}

/// A Merkle-root update over a path of depth two deposits exactly two
/// siblings while the old root is recomputed and withdraws exactly two
/// while the new root is recomputed; the pairs net to the identity, so
/// the virtual-table column closes at one.
#[test]
fn sibling_table_balances() {
    let mut chiplets = Chiplets::new(empty_kernel());
    let old_value = word(1, 2, 3, 4);
    let new_value = word(5, 6, 7, 8);
    let path = vec![word(11, 12, 13, 14), word(21, 22, 23, 24)];
    let index = Felt::new(1);
    let update = chiplets.update_merkle_root(old_value, new_value, &path, index);
    assert_eq!(update.get_address().as_int(), 1);
    assert_ne!(update.get_old_root(), update.get_new_root());

    let t = main_trace_from(chiplets, 40);
    let al = alphas(42);
    let vt = ChipletsVTableColBuilder::new();

    let mut deposits = 0;
    let mut withdrawals = 0;
    for row in 0..39 {
        if vt.get_responses_at(&t, &al, row) != Ext2::one() {
            deposits += 1;
        }
        if vt.get_requests_at(&t, &al, row) != Ext2::one() {
            withdrawals += 1;
        }
    }
    assert_eq!(deposits, 2);
    assert_eq!(withdrawals, 2);

    let t_chip = vt.build_aux_column(&t, &al).unwrap();
    assert_eq!(t_chip[39], Ext2::one());
}

/// Accessing the same kernel procedure three times contributes exactly
/// one inclusion term per distinct procedure.
#[test]
fn kernel_procedure_included_once() {
    let proc0 = word(101, 102, 103, 104);
    let proc1 = word(201, 202, 203, 204);
    let kernel = Kernel::new(vec![proc0, proc1]);
    let mut chiplets = Chiplets::new(kernel);
    chiplets.access_kernel_proc(proc0).unwrap();
    chiplets.access_kernel_proc(proc1).unwrap();
    chiplets.access_kernel_proc(proc0).unwrap();
    chiplets.access_kernel_proc(proc0).unwrap();

    let t = main_trace_from(chiplets, 8);
    let al = alphas(9);
    let vt = ChipletsVTableColBuilder::new();

    let mut inclusions = 0;
    for row in 0..7 {
        if vt.get_responses_at(&t, &al, row) != Ext2::one() {
            inclusions += 1;
        }
    }
    assert_eq!(inclusions, 2);
}


/// A memory write and read-back whose requests and responses encode
/// the same context, clock, address and word: the bus closes at one.
#[test]
fn memory_bus_balances() {
    let mut chiplets = Chiplets::new(empty_kernel());
    let ctx = Felt::new(0);
    let addr = Felt::new(100);
    let w = word(1, 2, 3, 4);
    chiplets.memory_mut().write(ctx, addr, Felt::new(5), w);
    let read = chiplets.memory_mut().read(ctx, addr, Felt::new(9));
    assert_eq!(read, w);

    let mut t = main_trace_from(chiplets, 16);
    // the store at row 4: address on the stack, the word on the next
    // row's stack top
    t.rows[4].op_code = Felt::new(OPCODE_MSTOREW);
    t.rows[4].stack[0] = addr;
    t.rows[4].clk = Felt::new(5);
    t.rows[5].stack[3] = Felt::new(1);
    t.rows[5].stack[2] = Felt::new(2);
    t.rows[5].stack[1] = Felt::new(3);
    t.rows[5].stack[0] = Felt::new(4);
    // the load at row 6 reads the same word back
    t.rows[6].op_code = Felt::new(OPCODE_MLOADW);
    t.rows[6].stack[0] = addr;
    t.rows[6].clk = Felt::new(9);
    t.rows[7].stack[3] = Felt::new(1);
    t.rows[7].stack[2] = Felt::new(2);
    t.rows[7].stack[1] = Felt::new(3);
    t.rows[7].stack[0] = Felt::new(4);

    let al = alphas(21);
    let b_chip = BusColumnBuilder::new().build_aux_column(&t, &al).unwrap();
    assert_eq!(b_chip[15], Ext2::one());
}

/// A hash permutation whose request offers the input state at the
/// cycle-opening address and claims the output state back at the
/// cycle-closing one: the bus closes at one.
#[test]
fn hperm_bus_balances() {
    let mut chiplets = Chiplets::new(empty_kernel());
    let mut state = Vec::new();
    for i in 0..12 {
        state.push(Felt::new(40 + i));
    }
    let (addr, out) = chiplets.permute(state.clone());
    assert_eq!(addr.as_int(), 1);

    let mut t = main_trace_from(chiplets, 16);
    // the operation requests the permutation at row 3; the stack holds
    // the state in reverse, and the permuted state on the next row
    t.rows[3].op_code = Felt::new(OPCODE_HPERM);
    t.rows[3].helpers[0] = addr;
    for i in 0..12 {
        t.rows[3].stack[i] = state[11 - i];
        t.rows[4].stack[i] = out[11 - i];
    }

    let al = alphas(77);
    let b_chip = BusColumnBuilder::new().build_aux_column(&t, &al).unwrap();
    assert_eq!(b_chip[15], Ext2::one());
}


/// A Merkle-path verification whose request offers the leaf at the
/// opening address and claims the root back at the closing one: the
/// bus closes at one.
#[test]
fn mpverify_bus_balances() {
    let mut chiplets = Chiplets::new(empty_kernel());
    let value = word(31, 32, 33, 34);
    let sibling = word(41, 42, 43, 44);
    let path = vec![sibling];
    let index = Felt::new(1);
    let (addr, root) = chiplets.build_merkle_root(value, &path, index);
    assert_eq!(addr.as_int(), 1);

    let mut t = main_trace_from(chiplets, 16);
    // the verification request at row 3: the leaf in reverse on the
    // stack top, the depth and index behind it, the root in reverse
    // after them
    t.rows[3].op_code = Felt::new(OPCODE_MPVERIFY);
    t.rows[3].helpers[0] = addr;
    t.rows[3].stack[0] = value.w3;
    t.rows[3].stack[1] = value.w2;
    t.rows[3].stack[2] = value.w1;
    t.rows[3].stack[3] = value.w0;
    t.rows[3].stack[4] = Felt::new(1);
    t.rows[3].stack[5] = index;
    t.rows[3].stack[6] = root.w3;
    t.rows[3].stack[7] = root.w2;
    t.rows[3].stack[8] = root.w1;
    t.rows[3].stack[9] = root.w0;

    let al = alphas(55);
    let b_chip = BusColumnBuilder::new().build_aux_column(&t, &al).unwrap();
    assert_eq!(b_chip[15], Ext2::one());
}


/// Degenerate challenges make a folded request non-invertible: the
/// builder reports exactly that by returning nothing, while a trace
/// whose every folded request is invertible always yields a column.
#[test]
fn builder_succeeds_exactly_on_invertible_requests() {
    let mut chiplets = Chiplets::new(empty_kernel());
    chiplets.u32and(Felt::new(0b1010), Felt::new(0b0110)).unwrap();
    let mut t = main_trace_from(chiplets, 16);
    t.rows[2].op_code = Felt::new(OPCODE_U32AND);

    // all-zero challenges collapse the bitwise request to zero
    let zero_alphas = vec![Ext2::zero(); 16];
    assert!(BusColumnBuilder::new().build_aux_column(&t, &zero_alphas).is_none());

    // ordinary challenges leave every request invertible
    let al = alphas(13);
    assert!(BusColumnBuilder::new().build_aux_column(&t, &al).is_some());
}

/// A kernel access for a digest outside the configured kernel is
/// reported as an error.
#[test]
fn kernel_access_outside_kernel_fails() {
    let proc0 = word(101, 102, 103, 104);
    let kernel = Kernel::new(vec![proc0]);
    let mut chiplets = Chiplets::new(kernel);
    let missing = word(9, 9, 9, 9);
    let r = chiplets.access_kernel_proc(missing);
    assert!(r.is_err());
    assert!(chiplets.access_kernel_proc(proc0).is_ok());
}
