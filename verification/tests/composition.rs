//! Trace-composition scenarios: segment addressing, selector
//! transitions, ownership of cells, and the hash operations against
//! the hash function the chiplet delegates to.

use miden_crypto::hash::rpo::{Rpo256, RpoDigest};
use miden_vm_lib::chiplets::{Chiplets, Kernel, OpBatch};
use miden_vm_lib::felt::Felt;
use miden_vm_lib::word::Word;

fn word(a: u64, b: u64, c: u64, d: u64) -> Word {
    Word::new(Felt::new(a), Felt::new(b), Felt::new(c), Felt::new(d))
}

fn digest_to_word(d: RpoDigest) -> Word {
    let e = d.as_elements();
    Word::new(
        Felt::new(e[0].as_int()),
        Felt::new(e[1].as_int()),
        Felt::new(e[2].as_int()),
        Felt::new(e[3].as_int()),
    )
}

fn populated_chiplets() -> Chiplets {
    let proc0 = word(101, 102, 103, 104);
    let kernel = Kernel::new(vec![proc0]);
    let mut chiplets = Chiplets::new(kernel);
    let mut state = Vec::new();
    for i in 0..12 {
        state.push(Felt::new(i));
    }
    chiplets.permute(state);
    chiplets.u32and(Felt::new(12), Felt::new(10)).unwrap();
    let ctx = Felt::new(0);
    let clk = Felt::new(3);
    chiplets.memory_mut().write(ctx, Felt::new(100), clk, word(1, 2, 3, 4));
    let read = chiplets.memory_mut().read(ctx, Felt::new(100), Felt::new(4));
    assert_eq!(read, word(1, 2, 3, 4));
    chiplets.access_kernel_proc(proc0).unwrap();
    chiplets
}

/// The required trace length is the sum of the four sub-trace lengths
/// plus one mandatory padding row, and the segment starts are the
/// strictly increasing cumulative sums.
#[test]
fn addressing_matches_sub_trace_lengths() {
    let chiplets = populated_chiplets();
    assert_eq!(chiplets.bitwise_start(), 8);
    assert_eq!(chiplets.memory_start(), 16);
    assert_eq!(chiplets.kernel_rom_start(), 18);
    assert_eq!(chiplets.padding_start(), 19);
    assert_eq!(chiplets.trace_len(), 8 + 8 + 2 + 1 + 1);
    assert!(chiplets.bitwise_start() < chiplets.memory_start());
    assert!(chiplets.memory_start() < chiplets.kernel_rom_start());
    assert!(chiplets.kernel_rom_start() < chiplets.padding_start());
    assert!(chiplets.padding_start() < chiplets.trace_len());
}

/// The four selector columns switch exactly at the segment starts, and
/// reading them in order identifies each row's owner.
#[test]
fn selector_columns_transition_at_starts() {
    let chiplets = populated_chiplets();
    let bitwise_start = chiplets.bitwise_start();
    let memory_start = chiplets.memory_start();
    let kernel_rom_start = chiplets.kernel_rom_start();
    let padding_start = chiplets.padding_start();
    let n = 32;
    let trace = chiplets.into_trace(n, 0).trace;
    for row in 0..n {
        assert_eq!(trace[0][row].as_int() == 0, row < bitwise_start);
        if row >= bitwise_start {
            assert_eq!(trace[1][row].as_int() == 0, row < memory_start);
        }
        if row >= memory_start {
            assert_eq!(trace[2][row].as_int() == 0, row < kernel_rom_start);
        }
        if row >= kernel_rom_start {
            assert_eq!(trace[3][row].as_int() == 0, row < padding_start);
        }
    }
}

/// Padding rows are zero except for the selector columns, and the
/// sub-chiplet segments carry the recorded cells.
#[test]
fn cells_are_owned_by_one_chiplet() {
    let chiplets = populated_chiplets();
    let padding_start = chiplets.padding_start();
    // the bitwise closing row carries the operands and the result
    let n = 32;
    let trace = chiplets.into_trace(n, 0).trace;
    for row in padding_start..n {
        for col in 0..4 {
            assert_eq!(trace[col][row].as_int(), 1);
        }
        for col in 4..18 {
            assert_eq!(trace[col][row].as_int(), 0);
        }
    }
    // bitwise segment, closing row: a, b and z in their columns
    assert_eq!(trace[3][15].as_int(), 12);
    assert_eq!(trace[4][15].as_int(), 10);
    assert_eq!(trace[14][15].as_int(), 12 & 10);
    // memory segment: the write then the read of the same word
    assert_eq!(trace[3][16].as_int(), 0);
    assert_eq!(trace[3][17].as_int(), 1);
    assert_eq!(trace[5][16].as_int(), 100);
    assert_eq!(trace[7][17].as_int(), 1);
    // kernel segment: the procedure root
    assert_eq!(trace[6][18].as_int(), 101);
    assert_eq!(trace[9][18].as_int(), 104);
}

/// The permutation the hasher records is the permutation of the
/// underlying hash function.
#[test]
fn permute_matches_hash_function() {
    let mut chiplets = Chiplets::new(Kernel::new(Vec::new()));
    let mut state = Vec::new();
    for i in 0..12 {
        state.push(Felt::new(100 + i));
    }
    let (addr, out) = chiplets.permute(state);
    assert_eq!(addr.as_int(), 1);

    let mut direct = [miden_crypto::Felt::new(0); 12];
    for i in 0..12 {
        direct[i] = miden_crypto::Felt::new(100 + i as u64);
    }
    Rpo256::apply_permutation(&mut direct);
    for i in 0..12 {
        assert_eq!(out[i].as_int(), direct[i].as_int());
    }
}

/// A one-node Merkle path folds to the merge of the node and its
/// sibling, on the side the index selects.
#[test]
fn merkle_root_matches_merge() {
    let mut chiplets = Chiplets::new(Kernel::new(Vec::new()));
    let value = word(1, 2, 3, 4);
    let sibling = word(5, 6, 7, 8);
    let path = vec![sibling];
    let (addr, root) = chiplets.build_merkle_root(value, &path, Felt::new(1));
    assert_eq!(addr.as_int(), 1);

    let value_d = RpoDigest::new([
        miden_crypto::Felt::new(1),
        miden_crypto::Felt::new(2),
        miden_crypto::Felt::new(3),
        miden_crypto::Felt::new(4),
    ]);
    let sib_d = RpoDigest::new([
        miden_crypto::Felt::new(5),
        miden_crypto::Felt::new(6),
        miden_crypto::Felt::new(7),
        miden_crypto::Felt::new(8),
    ]);
    // an odd index puts the node on the right
    let expected = digest_to_word(Rpo256::merge(&[sib_d, value_d]));
    assert_eq!(root, expected);
}

/// The block-hash check accepts exactly the digest the hash function
/// computes.
#[test]
fn control_block_check_accepts_the_real_digest() {
    let h1 = word(1, 0, 0, 0);
    let h2 = word(2, 0, 0, 0);
    let domain = Felt::new(3);
    let d1 = RpoDigest::new([
        miden_crypto::Felt::new(1),
        miden_crypto::Felt::new(0),
        miden_crypto::Felt::new(0),
        miden_crypto::Felt::new(0),
    ]);
    let d2 = RpoDigest::new([
        miden_crypto::Felt::new(2),
        miden_crypto::Felt::new(0),
        miden_crypto::Felt::new(0),
        miden_crypto::Felt::new(0),
    ]);
    let expected = digest_to_word(Rpo256::merge_in_domain(&[d1, d2], miden_crypto::Felt::new(3)));

    let mut chiplets = Chiplets::new(Kernel::new(Vec::new()));
    let r = chiplets.try_hash_control_block(h1, h2, domain, expected);
    assert_eq!(r.map(|a| a.as_int()), Some(1));

    let wrong = word(42, 42, 42, 42);
    let mut chiplets2 = Chiplets::new(Kernel::new(Vec::new()));
    assert!(chiplets2.try_hash_control_block(h1, h2, domain, wrong).is_none());
}

/// The span-block hash check accepts exactly the digest of the
/// flattened batches.
#[test]
fn span_block_check_accepts_the_real_digest() {
    let mut elements = Vec::new();
    let mut direct = Vec::new();
    for i in 0..8 {
        elements.push(Felt::new(i));
        direct.push(miden_crypto::Felt::new(i));
    }
    let batch = OpBatch { elements };
    let expected = digest_to_word(Rpo256::hash_elements(&direct));

    let mut chiplets = Chiplets::new(Kernel::new(Vec::new()));
    let r = chiplets.try_hash_span_block(&vec![batch], expected);
    assert_eq!(r.map(|a| a.as_int()), Some(1));
}
