//! The chiplets aggregator: the four sub-chiplet recorders, the
//! operation API the executor calls, the row-addressing accessors that
//! define segment boundaries, and the composition of the four recorded
//! sub-traces into one fixed-width table.

use crate::felt::{is_felt, Felt};
use crate::rpo::{
    all_canonical, rpo_hash_elements, rpo_hash_elements_raw, rpo_merge_digests,
    rpo_merge_in_domain, rpo_merge_in_domain_raw, rpo_merge_raw, rpo_permutation, rpo_permute_raw,
};
use crate::word::{is_word, Word};
use vstd::prelude::*;

verus! {

/// Errors the chiplets report to the executor.
#[derive(Debug, PartialEq, Eq, Structural, Clone, Copy)]
pub enum ExecutionError {
    /// A syscall targeted a procedure outside the configured kernel.
    SyscallTargetNotInKernel(Word),
}

/// The kernel a run is configured with: the digests of its procedures.
pub struct Kernel {
    pub procs: Vec<Word>,
}

impl Kernel {
    /// Every procedure digest is canonical.
    pub open spec fn wf(self) -> bool {
        forall|i: int| 0 <= i < self.procs.len() ==> is_word(#[trigger] self.procs@[i])
    }

    pub fn new(procs: Vec<Word>) -> (r: Kernel)
        ensures
            r.procs == procs,
    {
        Kernel { procs }
    }
}

// CONVERSIONS BETWEEN ELEMENTS AND PLAIN WORDS
// ================================================================================================

/// The canonical integer values of a sequence of elements.
pub open spec fn felts_u64(s: Seq<Felt>) -> Seq<u64> {
    s.map_values(|f: Felt| f.v)
}

/// The canonical integer values of a word.
pub open spec fn word_view(w: Word) -> Seq<u64> {
    seq![w.w0.v, w.w1.v, w.w2.v, w.w3.v]
}

/// Extracts the integer values of a vector of elements.
fn felts_to_u64(v: &Vec<Felt>) -> (r: Vec<u64>)
    ensures
        r@ == felts_u64(v@),
{
    let mut r: Vec<u64> = Vec::new();
    let mut i: usize = 0;
    while i < v.len()
        invariant
            i <= v@.len(),
            r@.len() == i,
            forall|j: int| 0 <= j < i ==> r@[j] == v@[j].v,
        decreases v@.len() - i,
    {
        r.push(v[i].v);
        i = i + 1;
    }
    proof {
        assert(r@ =~= felts_u64(v@));
    }
    r
}

/// Wraps canonical integer values back into elements.
fn u64_to_felts(v: &Vec<u64>) -> (r: Vec<Felt>)
    requires
        all_canonical(v@),
    ensures
        r@.len() == v@.len(),
        felts_u64(r@) == v@,
        forall|j: int| 0 <= j < r@.len() ==> is_felt(#[trigger] r@[j]),
{
    let mut r: Vec<Felt> = Vec::new();
    let mut i: usize = 0;
    while i < v.len()
        invariant
            all_canonical(v@),
            i <= v@.len(),
            r@.len() == i,
            forall|j: int| 0 <= j < i ==> (#[trigger] r@[j]).v == v@[j] && is_felt(r@[j]),
        decreases v@.len() - i,
    {
        r.push(Felt { v: v[i] });
        i = i + 1;
    }
    proof {
        assert(felts_u64(r@) =~= v@);
    }
    r
}

/// The integer values of a word, as a vector.
fn word_to_u64(w: &Word) -> (r: Vec<u64>)
    ensures
        r@ == word_view(*w),
        r@.len() == 4,
{
    let mut r: Vec<u64> = Vec::new();
    r.push(w.w0.v);
    r.push(w.w1.v);
    r.push(w.w2.v);
    r.push(w.w3.v);
    proof {
        assert(r@ =~= word_view(*w));
    }
    r
}

/// Wraps four canonical integers back into a word.
fn u64_to_word(v: &Vec<u64>) -> (r: Word)
    requires
        v@.len() == 4,
        all_canonical(v@),
    ensures
        is_word(r),
        word_view(r) == v@,
{
    let r = Word {
        w0: Felt { v: v[0] },
        w1: Felt { v: v[1] },
        w2: Felt { v: v[2] },
        w3: Felt { v: v[3] },
    };
    proof {
        assert(word_view(r) =~= v@);
    }
    r
}

// HASHER SUB-CHIPLET
// ================================================================================================

/// One recorded row of the hasher sub-trace: three selector bits, the
/// twelve-element state, and the node index.
pub struct HasherRow {
    pub s0: Felt,
    pub s1: Felt,
    pub s2: Felt,
    pub state: Vec<Felt>,
    pub index: Felt,
}

impl HasherRow {
    pub open spec fn wf(self) -> bool {
        &&& self.state.len() == 12
        &&& is_felt(self.s0)
        &&& is_felt(self.s1)
        &&& is_felt(self.s2)
        &&& is_felt(self.index)
        &&& forall|i: int| 0 <= i < 12 ==> is_felt(#[trigger] self.state@[i])
    }
}

/// The hash sub-chiplet: it records one eight-row cycle per
/// permutation, and one cycle per node of a Merkle path.
pub struct Hasher {
    pub rows: Vec<HasherRow>,
}

/// A twelve-element zero state.
fn zero_state() -> (r: Vec<Felt>)
    ensures
        r@.len() == 12,
        forall|i: int| 0 <= i < 12 ==> (#[trigger] r@[i]) == (Felt { v: 0u64 }),
{
    let mut r: Vec<Felt> = Vec::new();
    let mut i: usize = 0;
    while i < 12
        invariant
            i <= 12,
            r@.len() == i,
            forall|j: int| 0 <= j < i ==> (#[trigger] r@[j]) == (Felt { v: 0u64 }),
        decreases 12 - i,
    {
        r.push(Felt::zero());
        i = i + 1;
    }
    r
}

/// A state holding a domain in the capacity and two words in the rate.
fn words_state(domain: Felt, a: &Word, b: &Word) -> (r: Vec<Felt>)
    requires
        is_felt(domain),
        is_word(*a),
        is_word(*b),
    ensures
        r@.len() == 12,
        forall|i: int| 0 <= i < 12 ==> is_felt(#[trigger] r@[i]),
{
    let mut r: Vec<Felt> = Vec::new();
    r.push(Felt::zero());
    r.push(domain);
    r.push(Felt::zero());
    r.push(Felt::zero());
    r.push(a.w0);
    r.push(a.w1);
    r.push(a.w2);
    r.push(a.w3);
    r.push(b.w0);
    r.push(b.w1);
    r.push(b.w2);
    r.push(b.w3);
    r
}

/// A state holding one digest word in the first rate half.
fn digest_state(d: &Word) -> (r: Vec<Felt>)
    requires
        is_word(*d),
    ensures
        r@.len() == 12,
        forall|i: int| 0 <= i < 12 ==> is_felt(#[trigger] r@[i]),
{
    let mut r: Vec<Felt> = Vec::new();
    r.push(Felt::zero());
    r.push(Felt::zero());
    r.push(Felt::zero());
    r.push(Felt::zero());
    r.push(d.w0);
    r.push(d.w1);
    r.push(d.w2);
    r.push(d.w3);
    r.push(Felt::zero());
    r.push(Felt::zero());
    r.push(Felt::zero());
    r.push(Felt::zero());
    r
}

impl Hasher {
    pub open spec fn wf(self) -> bool {
        forall|i: int| 0 <= i < self.rows.len() ==> (#[trigger] self.rows@[i]).wf()
    }

    pub fn new() -> (r: Hasher)
        ensures
            r.wf(),
            r.rows@.len() == 0,
    {
        Hasher { rows: Vec::new() }
    }

    /// Number of rows this sub-chiplet has recorded.
    pub fn trace_len(&self) -> (r: usize)
        ensures
            r == self.rows@.len(),
    {
        self.rows.len()
    }

    /// Records one eight-row cycle: selectors and state for the opening
    /// row, zero filler for the middle rows, and the closing selectors
    /// and state for the final row.
    fn record_cycle(
        &mut self,
        open_sel: (u64, u64, u64),
        open_state: Vec<Felt>,
        open_index: Felt,
        close_sel: (u64, u64, u64),
        close_state: Vec<Felt>,
        close_index: Felt,
    )
        requires
            old(self).wf(),
            open_sel.0 <= 1 && open_sel.1 <= 1 && open_sel.2 <= 1,
            close_sel.0 <= 1 && close_sel.1 <= 1 && close_sel.2 <= 1,
            open_state@.len() == 12,
            close_state@.len() == 12,
            forall|i: int| 0 <= i < 12 ==> is_felt(#[trigger] open_state@[i]),
            forall|i: int| 0 <= i < 12 ==> is_felt(#[trigger] close_state@[i]),
            is_felt(open_index),
            is_felt(close_index),
            old(self).rows@.len() + 8 <= usize::MAX,
        ensures
            final(self).wf(),
            final(self).rows@.len() == old(self).rows@.len() + 8,
    {
        self.rows.push(
            HasherRow {
                s0: Felt { v: open_sel.0 },
                s1: Felt { v: open_sel.1 },
                s2: Felt { v: open_sel.2 },
                state: open_state,
                index: open_index,
            },
        );
        let mut j: usize = 0;
        while j < 6
            invariant
                self.wf(),
                j <= 6,
                self.rows@.len() == old(self).rows@.len() + 1 + j,
                old(self).rows@.len() + 8 <= usize::MAX,
                is_felt(open_index),
                is_felt(close_index),
                close_state@.len() == 12,
                forall|i: int| 0 <= i < 12 ==> is_felt(#[trigger] close_state@[i]),
                close_sel.0 <= 1 && close_sel.1 <= 1 && close_sel.2 <= 1,
            decreases 6 - j,
        {
            self.rows.push(
                HasherRow {
                    s0: Felt::zero(),
                    s1: Felt::zero(),
                    s2: Felt::zero(),
                    state: zero_state(),
                    index: open_index,
                },
            );
            j = j + 1;
        }
        self.rows.push(
            HasherRow {
                s0: Felt { v: close_sel.0 },
                s1: Felt { v: close_sel.1 },
                s2: Felt { v: close_sel.2 },
                state: close_state,
                index: close_index,
            },
        );
    }

    /// Requests a single permutation of the hash function. Returns the
    /// row address at which the cycle begins and the permuted state.
    pub fn permute(&mut self, state: Vec<Felt>) -> (r: (Felt, Vec<Felt>))
        requires
            old(self).wf(),
            state@.len() == 12,
            forall|i: int| 0 <= i < 12 ==> is_felt(#[trigger] state@[i]),
            old(self).rows@.len() + 8 <= 0xffff_ffff,
        ensures
            final(self).wf(),
            final(self).rows@.len() == old(self).rows@.len() + 8,
            r.0.v == old(self).rows@.len() + 1,
            is_felt(r.0),
            r.1@.len() == 12,
            forall|i: int| 0 <= i < 12 ==> is_felt(#[trigger] r.1@[i]),
            felts_u64(r.1@) == rpo_permutation(felts_u64(state@)),
    {
        let addr = Felt::from_u32((self.rows.len() + 1) as u32);
        let raw = felts_to_u64(&state);
        let out_raw = rpo_permute_raw(&raw);
        let out = u64_to_felts(&out_raw);
        let close = u64_to_felts(&out_raw);
        self.record_cycle(
            (1, 0, 0),
            state,
            Felt::zero(),
            (0, 0, 1),
            close,
            Felt::zero(),
        );
        (addr, out)
    }

    /// Requests the hash of two words under a domain and checks it
    /// against the expected block digest; a mismatch is a fatal
    /// inconsistency and is excluded by contract. Returns the starting
    /// row address.
    pub fn hash_control_block(&mut self, h1: Word, h2: Word, domain: Felt, expected_hash: Word) -> (r:
        Felt)
        requires
            old(self).wf(),
            is_word(h1),
            is_word(h2),
            is_felt(domain),
            is_word(expected_hash),
            word_view(expected_hash) == rpo_merge_in_domain(word_view(h1), word_view(h2), domain.v),
            old(self).rows@.len() + 8 <= 0xffff_ffff,
        ensures
            final(self).wf(),
            final(self).rows@.len() == old(self).rows@.len() + 8,
            r.v == old(self).rows@.len() + 1,
            is_felt(r),
    {
        let addr = Felt::from_u32((self.rows.len() + 1) as u32);
        let open = words_state(domain, &h1, &h2);
        let close = digest_state(&expected_hash);
        self.record_cycle((1, 0, 0), open, Felt::zero(), (0, 0, 0), close, Felt::zero());
        addr
    }
}


// SPAN-BLOCK HASHING
// ================================================================================================

/// One batch of operations absorbed by the hasher in a single cycle:
/// eight field elements.
pub struct OpBatch {
    pub elements: Vec<Felt>,
}

impl OpBatch {
    pub open spec fn wf(self) -> bool {
        &&& self.elements.len() == 8
        &&& forall|i: int| 0 <= i < 8 ==> is_felt(#[trigger] self.elements@[i])
    }
}

/// The elements of a sequence of batches, flattened in order.
pub open spec fn flatten_batches(batches: Seq<OpBatch>) -> Seq<u64>
    decreases batches.len(),
{
    if batches.len() == 0 {
        Seq::empty()
    } else {
        flatten_batches(batches.drop_last()) + felts_u64(batches.last().elements@)
    }
}

impl Hasher {
    /// Requests a sequential hash of all operation batches and checks
    /// the digest against the expected block hash; a mismatch is a
    /// fatal inconsistency and is excluded by contract. Returns the
    /// starting row address.
    pub fn hash_basic_block(&mut self, op_batches: &Vec<OpBatch>, expected_hash: Word) -> (r: Felt)
        requires
            old(self).wf(),
            op_batches@.len() >= 1,
            forall|i: int| 0 <= i < op_batches@.len() ==> (#[trigger] op_batches@[i]).wf(),
            is_word(expected_hash),
            word_view(expected_hash) == rpo_hash_elements(flatten_batches(op_batches@)),
            old(self).rows@.len() + 8 * op_batches@.len() <= 0xffff_ffff,
        ensures
            final(self).wf(),
            final(self).rows@.len() == old(self).rows@.len() + 8 * op_batches@.len(),
            r.v == old(self).rows@.len() + 1,
            is_felt(r),
    {
        let addr = Felt::from_u32((self.rows.len() + 1) as u32);
        let ghost n0 = self.rows@.len();
        let k = op_batches.len();
        let mut j: usize = 0;
        while j < k
            invariant
                self.wf(),
                j <= k,
                k == op_batches@.len(),
                k >= 1,
                forall|i: int| 0 <= i < op_batches@.len() ==> (#[trigger] op_batches@[i]).wf(),
                is_word(expected_hash),
                self.rows@.len() == n0 + 8 * j,
                n0 + 8 * k <= 0xffff_ffff,
            decreases k - j,
        {
            let batch = &op_batches[j];
            let mut open: Vec<Felt> = Vec::new();
            open.push(Felt::zero());
            open.push(Felt::zero());
            open.push(Felt::zero());
            open.push(Felt::zero());
            let mut e: usize = 0;
            while e < 8
                invariant
                    e <= 8,
                    open@.len() == 4 + e,
                    batch.wf(),
                    forall|i: int| 0 <= i < open@.len() ==> is_felt(#[trigger] open@[i]),
                decreases 8 - e,
            {
                open.push(batch.elements[e]);
                e = e + 1;
            }
            let close_state = if j + 1 == k {
                digest_state(&expected_hash)
            } else {
                zero_state()
            };
            let open_sel: (u64, u64, u64) = if j == 0 {
                (1, 0, 0)
            } else {
                (0, 0, 0)
            };
            let close_sel: (u64, u64, u64) = if j + 1 == k {
                (0, 0, 0)
            } else {
                (1, 0, 0)
            };
            self.record_cycle(open_sel, open, Felt::zero(), close_sel, close_state, Felt::zero());
            j = j + 1;
        }
        addr
    }
}

// MERKLE-PATH OPERATIONS
// ================================================================================================

/// The root reached by folding a Merkle path from a node upward: at
/// each step the node is merged with the path's next sibling, on the
/// side the index's lowest bit selects.
pub open spec fn s_merkle_root(node: Seq<u64>, path: Seq<Word>, index: int) -> Seq<u64>
    decreases path.len(),
{
    if path.len() == 0 {
        node
    } else {
        let parent = if index % 2 == 0 {
            rpo_merge_digests(node, word_view(path[0]))
        } else {
            rpo_merge_digests(word_view(path[0]), node)
        };
        s_merkle_root(parent, path.subrange(1, path.len() as int), index / 2)
    }
}

/// Every path node is a canonical word.
pub open spec fn wf_path(path: Seq<Word>) -> bool {
    forall|i: int| 0 <= i < path.len() ==> is_word(#[trigger] path[i])
}

impl Hasher {
    /// Records one Merkle-path pass — one hash cycle per path node —
    /// under the given operation selectors, and returns the computed
    /// root. `op_sel` tags the opening row of the first cycle and the
    /// closing rows of all but the last cycle; the last cycle closes
    /// with the hash-output selectors.
    fn merkle_pass(&mut self, value: Word, path: &Vec<Word>, index: Felt, op_sel: (u64, u64, u64))
        -> (r: Word)
        requires
            old(self).wf(),
            is_word(value),
            wf_path(path@),
            1 <= path@.len() <= 63,
            is_felt(index),
            index.v < (1u64 << path@.len()),
            op_sel.0 <= 1 && op_sel.1 <= 1 && op_sel.2 <= 1,
            old(self).rows@.len() + 8 * path@.len() <= 0xffff_ffff,
        ensures
            final(self).wf(),
            final(self).rows@.len() == old(self).rows@.len() + 8 * path@.len(),
            is_word(r),
            word_view(r) == s_merkle_root(word_view(value), path@, index.v as int),
    {
        let d = path.len();
        let ghost n0 = self.rows@.len();
        let mut node: Vec<u64> = word_to_u64(&value);
        let mut idx: u64 = index.v;
        let mut j: usize = 0;
        proof {
            assert(path@.subrange(0, d as int) =~= path@);
        }
        while j < d
            invariant
                self.wf(),
                j <= d,
                d == path@.len(),
                1 <= d <= 63,
                wf_path(path@),
                node@.len() == 4,
                all_canonical(node@),
                op_sel.0 <= 1 && op_sel.1 <= 1 && op_sel.2 <= 1,
                self.rows@.len() == n0 + 8 * j,
                n0 + 8 * d <= 0xffff_ffff,
                idx < (1u64 << ((d - j) as u64)),
                idx <= index.v,
                is_felt(index),
                s_merkle_root(node@, path@.subrange(j as int, d as int), idx as int)
                    == s_merkle_root(word_view(value), path@, index.v as int),
            decreases d - j,
        {
            let sibling = &path[j];
            let sib_raw = word_to_u64(sibling);
            let bit = idx % 2;
            let parent_raw = if bit == 0 {
                rpo_merge_raw(&node, &sib_raw)
            } else {
                rpo_merge_raw(&sib_raw, &node)
            };
            // the opening row places the node and the sibling in the two
            // digest halves, by the parity of the index
            let node_f = u64_to_felts(&node);
            let sib_f = u64_to_felts(&sib_raw);
            let mut open: Vec<Felt> = Vec::new();
            open.push(Felt::zero());
            open.push(Felt::zero());
            open.push(Felt::zero());
            open.push(Felt::zero());
            if bit == 0 {
                open.push(node_f[0]);
                open.push(node_f[1]);
                open.push(node_f[2]);
                open.push(node_f[3]);
                open.push(sib_f[0]);
                open.push(sib_f[1]);
                open.push(sib_f[2]);
                open.push(sib_f[3]);
            } else {
                open.push(sib_f[0]);
                open.push(sib_f[1]);
                open.push(sib_f[2]);
                open.push(sib_f[3]);
                open.push(node_f[0]);
                open.push(node_f[1]);
                open.push(node_f[2]);
                open.push(node_f[3]);
            }
            let parent_f = u64_to_felts(&parent_raw);
            let mut close: Vec<Felt> = Vec::new();
            close.push(Felt::zero());
            close.push(Felt::zero());
            close.push(Felt::zero());
            close.push(Felt::zero());
            close.push(parent_f[0]);
            close.push(parent_f[1]);
            close.push(parent_f[2]);
            close.push(parent_f[3]);
            close.push(Felt::zero());
            close.push(Felt::zero());
            close.push(Felt::zero());
            close.push(Felt::zero());
            let open_sel: (u64, u64, u64) = if j == 0 {
                op_sel
            } else {
                (0, 0, 0)
            };
            let close_sel: (u64, u64, u64) = if j + 1 == d {
                (0, 0, 0)
            } else {
                op_sel
            };
            let idx_next = idx / 2;
            proof {
                assert(idx as int % 2 == bit as int);
                let rest = path@.subrange(j as int, d as int);
                assert(rest[0] == path@[j as int]);
                assert(rest.subrange(1, rest.len() as int) =~= path@.subrange(
                    j as int + 1,
                    d as int,
                ));
                assert(parent_raw@ == (if idx as int % 2 == 0 {
                    rpo_merge_digests(node@, word_view(path@[j as int]))
                } else {
                    rpo_merge_digests(word_view(path@[j as int]), node@)
                }));
                assert(s_merkle_root(node@, rest, idx as int) == s_merkle_root(
                    parent_raw@,
                    rest.subrange(1, rest.len() as int),
                    idx as int / 2,
                ));
                assert(idx < (1u64 << ((d - j) as u64)));
                assert((1u64 << ((d - j) as u64)) == 2 * (1u64 << ((d - j - 1) as u64)))
                    by (bit_vector)
                    requires
                        1 <= (d - j) as u64 <= 63,
                ;
                assert(idx_next < (1u64 << ((d - j - 1) as u64)));
            }
            self.record_cycle(
                open_sel,
                open,
                Felt { v: idx },
                close_sel,
                close,
                Felt { v: idx_next },
            );
            node = parent_raw;
            idx = idx_next;
            j = j + 1;
        }
        proof {
            assert(path@.subrange(d as int, d as int) =~= Seq::<Word>::empty());
        }
        u64_to_word(&node)
    }

    /// Requests a Merkle root computation for the specified path and
    /// node value. Returns the starting row address and the root.
    pub fn build_merkle_root(&mut self, value: Word, path: &Vec<Word>, index: Felt) -> (r: (
        Felt,
        Word,
    ))
        requires
            old(self).wf(),
            is_word(value),
            wf_path(path@),
            1 <= path@.len() <= 63,
            is_felt(index),
            index.v < (1u64 << path@.len()),
            old(self).rows@.len() + 8 * path@.len() <= 0xffff_ffff,
        ensures
            final(self).wf(),
            final(self).rows@.len() == old(self).rows@.len() + 8 * path@.len(),
            r.0.v == old(self).rows@.len() + 1,
            is_felt(r.0),
            is_word(r.1),
            word_view(r.1) == s_merkle_root(word_view(value), path@, index.v as int),
    {
        let addr = Felt::from_u32((self.rows.len() + 1) as u32);
        let root = self.merkle_pass(value, path, index, (1, 0, 1));
        (addr, root)
    }

    /// Requests a Merkle root update: first the old root is recomputed
    /// (depositing each sibling into the virtual table), then the new
    /// root (withdrawing them).
    pub fn update_merkle_root(
        &mut self,
        old_value: Word,
        new_value: Word,
        path: &Vec<Word>,
        index: Felt,
    ) -> (r: MerkleRootUpdate)
        requires
            old(self).wf(),
            is_word(old_value),
            is_word(new_value),
            wf_path(path@),
            1 <= path@.len() <= 63,
            is_felt(index),
            index.v < (1u64 << path@.len()),
            old(self).rows@.len() + 16 * path@.len() <= 0xffff_ffff,
        ensures
            final(self).wf(),
            final(self).rows@.len() == old(self).rows@.len() + 16 * path@.len(),
            r.address.v == old(self).rows@.len() + 1,
            is_felt(r.address),
            is_word(r.old_root),
            is_word(r.new_root),
            word_view(r.old_root) == s_merkle_root(word_view(old_value), path@, index.v as int),
            word_view(r.new_root) == s_merkle_root(word_view(new_value), path@, index.v as int),
    {
        let address = Felt::from_u32((self.rows.len() + 1) as u32);
        let old_root = self.merkle_pass(old_value, path, index, (1, 1, 0));
        let new_root = self.merkle_pass(new_value, path, index, (1, 1, 1));
        MerkleRootUpdate { address, old_root, new_root }
    }
}

// MERKLE ROOT UPDATE RESULT
// ================================================================================================

/// Result of a Merkle tree node update: the row address at which the
/// computation started, the root before the update, and the root after.
#[derive(Debug, Copy, Clone)]
pub struct MerkleRootUpdate {
    pub address: Felt,
    pub old_root: Word,
    pub new_root: Word,
}

impl MerkleRootUpdate {
    pub fn get_address(&self) -> (r: Felt)
        ensures
            r == self.address,
    {
        self.address
    }

    pub fn get_old_root(&self) -> (r: Word)
        ensures
            r == self.old_root,
    {
        self.old_root
    }

    pub fn get_new_root(&self) -> (r: Word)
        ensures
            r == self.new_root,
    {
        self.new_root
    }
}


// BITWISE SUB-CHIPLET
// ================================================================================================

/// Shifted 32-bit values stay in 32 bits, and single bits are bits.
proof fn lemma_shift_bounds()
    by (bit_vector)
    ensures
        forall|x: u64, s: u64|
            x <= 0xffff_ffff && s < 64 ==> #[trigger] (x >> s) <= 0xffff_ffff,
        forall|x: u64, s: u64| s < 64 ==> #[trigger] ((x >> s) & 1) <= 1,
{
}

/// The bitwise sub-chiplet: one eight-row cycle per operation, each
/// row absorbing four more bits of both operands. A row holds the
/// operation selector, the operand and result aggregates so far, and
/// the eight freshly absorbed bits; the cycle's closing row carries
/// the full operands and the full result.
pub struct Bitwise {
    pub rows: Vec<Vec<Felt>>,
}

impl Bitwise {
    pub open spec fn wf(self) -> bool {
        &&& self.rows.len() % 8 == 0
        &&& forall|i: int|
            0 <= i < self.rows.len() ==> (#[trigger] self.rows@[i]).len() == 13
        &&& forall|i: int, j: int|
            0 <= i < self.rows.len() && 0 <= j < 13 ==> is_felt(#[trigger] self.rows@[i]@[j])
    }

    pub fn new() -> (r: Bitwise)
        ensures
            r.wf(),
            r.rows@.len() == 0,
    {
        Bitwise { rows: Vec::new() }
    }

    /// Number of rows this sub-chiplet has recorded.
    pub fn trace_len(&self) -> (r: usize)
        ensures
            r == self.rows@.len(),
    {
        self.rows.len()
    }

    /// Records the eight-row cycle of one operation.
    fn record_op(&mut self, is_xor: u64, a: u64, b: u64, z: u64)
        requires
            old(self).wf(),
            is_xor <= 1,
            a <= 0xffff_ffff,
            b <= 0xffff_ffff,
            z <= 0xffff_ffff,
            old(self).rows@.len() + 8 <= usize::MAX,
        ensures
            final(self).wf(),
            final(self).rows@.len() == old(self).rows@.len() + 8,
            final(self).rows@[old(self).rows@.len() as int + 7]@[0].v == is_xor,
            final(self).rows@[old(self).rows@.len() as int + 7]@[1].v == a,
            final(self).rows@[old(self).rows@.len() as int + 7]@[2].v == b,
            final(self).rows@[old(self).rows@.len() as int + 7]@[12].v == z,
    {
        proof {
            lemma_shift_bounds();
        }
        let mut j: usize = 0;
        while j < 8
            invariant
                j <= 8,
                is_xor <= 1,
                a <= 0xffff_ffff,
                b <= 0xffff_ffff,
                z <= 0xffff_ffff,
                old(self).rows@.len() % 8 == 0,
                forall|i: int| 0 <= i < self.rows.len() ==> (#[trigger] self.rows@[i]).len() == 13,
                forall|i: int, j2: int|
                    0 <= i < self.rows.len() && 0 <= j2 < 13 ==> is_felt(
                        #[trigger] self.rows@[i]@[j2],
                    ),
                self.rows@.len() == old(self).rows@.len() + j,
                old(self).rows@.len() + 8 <= usize::MAX,
                j >= 1 ==> self.rows@[old(self).rows@.len() as int + j - 1]@[0].v == is_xor,
                j >= 1 ==> self.rows@[old(self).rows@.len() as int + j - 1]@[1].v == (a >> ((
                32 - 4 * j) as u64)),
                j >= 1 ==> self.rows@[old(self).rows@.len() as int + j - 1]@[2].v == (b >> ((
                32 - 4 * j) as u64)),
                j >= 1 ==> self.rows@[old(self).rows@.len() as int + j - 1]@[12].v == (z >> ((
                32 - 4 * j) as u64)),
            decreases 8 - j,
        {
            proof {
                lemma_shift_bounds();
            }
            let s: u64 = 28 - 4 * (j as u64);
            let mut row: Vec<Felt> = Vec::new();
            row.push(Felt { v: is_xor });
            row.push(Felt { v: a >> s });
            row.push(Felt { v: b >> s });
            row.push(Felt { v: (a >> s) & 1 });
            row.push(Felt { v: (a >> (s + 1)) & 1 });
            row.push(Felt { v: (a >> (s + 2)) & 1 });
            row.push(Felt { v: (a >> (s + 3)) & 1 });
            row.push(Felt { v: (b >> s) & 1 });
            row.push(Felt { v: (b >> (s + 1)) & 1 });
            row.push(Felt { v: (b >> (s + 2)) & 1 });
            row.push(Felt { v: (b >> (s + 3)) & 1 });
            row.push(Felt { v: z >> (s + 4) });
            row.push(Felt { v: z >> s });
            self.rows.push(row);
            j = j + 1;
        }
        proof {
            assert((a >> 0u64) == a) by (bit_vector);
            assert((b >> 0u64) == b) by (bit_vector);
            assert((z >> 0u64) == z) by (bit_vector);
        }
    }

    /// Computes a bitwise AND of two 32-bit operands and records its
    /// cycle. Operands must have been range-checked by the caller.
    pub fn u32and(&mut self, a: Felt, b: Felt) -> (r: Result<Felt, ExecutionError>)
        requires
            old(self).wf(),
            a.v <= 0xffff_ffff,
            b.v <= 0xffff_ffff,
            old(self).rows@.len() + 8 <= usize::MAX,
        ensures
            final(self).wf(),
            final(self).rows@.len() == old(self).rows@.len() + 8,
            r is Ok,
            r->Ok_0.v == (a.v & b.v),
            is_felt(r->Ok_0),
            final(self).rows@[old(self).rows@.len() as int + 7]@[0].v == 0,
            final(self).rows@[old(self).rows@.len() as int + 7]@[1].v == a.v,
            final(self).rows@[old(self).rows@.len() as int + 7]@[2].v == b.v,
            final(self).rows@[old(self).rows@.len() as int + 7]@[12].v == (a.v & b.v),
    {
        let av: u64 = a.v;
        let bv: u64 = b.v;
        let z: u64 = av & bv;
        proof {
            assert(av & bv <= 0xffff_ffff) by (bit_vector)
                requires
                    av <= 0xffff_ffffu64,
            ;
        }
        self.record_op(0, av, bv, z);
        Ok(Felt { v: z })
    }

    /// Computes a bitwise XOR of two 32-bit operands and records its
    /// cycle. Operands must have been range-checked by the caller.
    pub fn u32xor(&mut self, a: Felt, b: Felt) -> (r: Result<Felt, ExecutionError>)
        requires
            old(self).wf(),
            a.v <= 0xffff_ffff,
            b.v <= 0xffff_ffff,
            old(self).rows@.len() + 8 <= usize::MAX,
        ensures
            final(self).wf(),
            final(self).rows@.len() == old(self).rows@.len() + 8,
            r is Ok,
            r->Ok_0.v == (a.v ^ b.v),
            is_felt(r->Ok_0),
            final(self).rows@[old(self).rows@.len() as int + 7]@[0].v == 1,
            final(self).rows@[old(self).rows@.len() as int + 7]@[1].v == a.v,
            final(self).rows@[old(self).rows@.len() as int + 7]@[2].v == b.v,
            final(self).rows@[old(self).rows@.len() as int + 7]@[12].v == (a.v ^ b.v),
    {
        let av: u64 = a.v;
        let bv: u64 = b.v;
        let z: u64 = av ^ bv;
        proof {
            assert(av ^ bv <= 0xffff_ffff) by (bit_vector)
                requires
                    av <= 0xffff_ffffu64,
                    bv <= 0xffff_ffffu64,
            ;
        }
        self.record_op(1, av, bv, z);
        Ok(Felt { v: z })
    }
}

// MEMORY SUB-CHIPLET
// ================================================================================================

/// One recorded memory access.
pub struct MemRow {
    pub is_read: Felt,
    pub ctx: Felt,
    pub addr: Felt,
    pub clk: Felt,
    pub value: Word,
}

impl MemRow {
    pub open spec fn wf(self) -> bool {
        &&& is_felt(self.is_read)
        &&& self.is_read.v <= 1
        &&& is_felt(self.ctx)
        &&& is_felt(self.addr)
        &&& is_felt(self.clk)
        &&& is_word(self.value)
    }
}

/// The current word at a context and address: the most recent write,
/// or zero if none. The store is a journal scanned newest-first.
pub open spec fn mem_lookup(entries: Seq<(u64, u64, Word)>, ctx: u64, addr: u64) -> Word
    decreases entries.len(),
{
    if entries.len() == 0 {
        Word { w0: Felt { v: 0u64 }, w1: Felt { v: 0u64 }, w2: Felt { v: 0u64 }, w3: Felt { v: 0u64 } }
    } else if entries[0].0 == ctx && entries[0].1 == addr {
        entries[0].2
    } else {
        mem_lookup(entries.subrange(1, entries.len() as int), ctx, addr)
    }
}

/// The memory sub-chiplet: a word-addressable store with one recorded
/// row per access.
pub struct Memory {
    pub entries: Vec<(u64, u64, Word)>,
    pub rows: Vec<MemRow>,
}

impl Memory {
    pub open spec fn wf(self) -> bool {
        &&& forall|i: int| 0 <= i < self.rows.len() ==> (#[trigger] self.rows@[i]).wf()
        &&& forall|i: int| 0 <= i < self.entries.len() ==> is_word((#[trigger] self.entries@[i]).2)
    }

    pub fn new() -> (r: Memory)
        ensures
            r.wf(),
            r.rows@.len() == 0,
            r.entries@.len() == 0,
    {
        Memory { entries: Vec::new(), rows: Vec::new() }
    }

    /// Number of rows this sub-chiplet has recorded.
    pub fn trace_len(&self) -> (r: usize)
        ensures
            r == self.rows@.len(),
    {
        self.rows.len()
    }

    /// The word currently stored at a context and address.
    fn lookup(&self, ctx: u64, addr: u64) -> (r: Word)
        requires
            self.wf(),
        ensures
            r == mem_lookup(self.entries@, ctx, addr),
            is_word(r),
    {
        let n = self.entries.len();
        let mut i: usize = 0;
        proof {
            assert(self.entries@.subrange(0, n as int) =~= self.entries@);
        }
        while i < n
            invariant
                self.wf(),
                n == self.entries@.len(),
                i <= n,
                mem_lookup(self.entries@, ctx, addr) == mem_lookup(
                    self.entries@.subrange(i as int, n as int),
                    ctx,
                    addr,
                ),
            decreases n - i,
        {
            let e = &self.entries[i];
            proof {
                let rest = self.entries@.subrange(i as int, n as int);
                assert(rest[0] == self.entries@[i as int]);
                assert(rest.subrange(1, rest.len() as int) =~= self.entries@.subrange(
                    i as int + 1,
                    n as int,
                ));
            }
            if e.0 == ctx && e.1 == addr {
                return e.2;
            }
            i = i + 1;
        }
        proof {
            assert(self.entries@.subrange(n as int, n as int) =~= Seq::<(u64, u64, Word)>::empty());
        }
        Word::zeroed()
    }

    /// Reads the word at a context and address and records the access.
    pub fn read(&mut self, ctx: Felt, addr: Felt, clk: Felt) -> (r: Word)
        requires
            old(self).wf(),
            is_felt(ctx),
            is_felt(addr),
            is_felt(clk),
            old(self).rows@.len() + 1 <= usize::MAX,
        ensures
            final(self).wf(),
            r == mem_lookup(old(self).entries@, ctx.v, addr.v),
            is_word(r),
            final(self).entries@ == old(self).entries@,
            final(self).rows@ == old(self).rows@.push(
                MemRow { is_read: Felt { v: 1u64 }, ctx, addr, clk, value: r },
            ),
    {
        let value = self.lookup(ctx.v, addr.v);
        self.rows.push(MemRow { is_read: Felt { v: 1 }, ctx, addr, clk, value });
        value
    }

    /// Writes a word at a context and address and records the access.
    pub fn write(&mut self, ctx: Felt, addr: Felt, clk: Felt, value: Word)
        requires
            old(self).wf(),
            is_felt(ctx),
            is_felt(addr),
            is_felt(clk),
            is_word(value),
            old(self).rows@.len() + 1 <= usize::MAX,
            old(self).entries@.len() + 1 <= usize::MAX,
        ensures
            final(self).wf(),
            mem_lookup(final(self).entries@, ctx.v, addr.v) == value,
            forall|c: u64, a: u64|
                !(c == ctx.v && a == addr.v) ==> #[trigger] mem_lookup(final(self).entries@, c, a)
                    == mem_lookup(old(self).entries@, c, a),
            final(self).rows@ == old(self).rows@.push(
                MemRow { is_read: Felt { v: 0u64 }, ctx, addr, clk, value },
            ),
    {
        self.entries.insert(0, (ctx.v, addr.v, value));
        self.rows.push(MemRow { is_read: Felt { v: 0 }, ctx, addr, clk, value });
        proof {
            assert forall|c: u64, a: u64| !(c == ctx.v && a == addr.v) implies #[trigger]
                mem_lookup(self.entries@, c, a) == mem_lookup(old(self).entries@, c, a) by {
                assert(self.entries@.subrange(1, self.entries@.len() as int) =~= old(
                    self,
                ).entries@);
            }
            assert(self.entries@.subrange(1, self.entries@.len() as int) =~= old(self).entries@);
        }
    }
}

// KERNEL ROM SUB-CHIPLET
// ================================================================================================

/// The index of the first kernel procedure with the given digest.
pub open spec fn s_kernel_proc_index(procs: Seq<Word>, digest: Word) -> Option<int>
    decreases procs.len(),
{
    if procs.len() == 0 {
        None
    } else if procs[0] == digest {
        Some(0int)
    } else {
        match s_kernel_proc_index(procs.subrange(1, procs.len() as int), digest) {
            Some(i) => Some(i + 1),
            None => None,
        }
    }
}

/// A matching digest behind a non-matching prefix is the found index.
proof fn lemma_kernel_proc_index_at(procs: Seq<Word>, digest: Word, i: int)
    requires
        0 <= i < procs.len(),
        forall|j: int| 0 <= j < i ==> procs[j] != digest,
        procs[i] == digest,
    ensures
        s_kernel_proc_index(procs, digest) == Some(i),
    decreases i,
{
    if i > 0 {
        let rest = procs.subrange(1, procs.len() as int);
        assert(forall|j: int| 0 <= j < i - 1 ==> rest[j] != digest);
        assert(rest[i - 1] == procs[i]);
        lemma_kernel_proc_index_at(rest, digest, i - 1);
    }
}

/// The kernel-ROM sub-chiplet: it counts accesses to the procedures of
/// the configured kernel. The recorded access list keeps one entry per
/// access, grouped by procedure, so that rows of one procedure are
/// consecutive in the final trace.
pub struct KernelRom {
    pub kernel: Kernel,
    pub accesses: Vec<usize>,
}

impl KernelRom {
    pub open spec fn wf(self) -> bool {
        &&& self.kernel.wf()
        &&& forall|i: int|
            0 <= i < self.accesses.len() ==> (#[trigger] self.accesses@[i]) < self.kernel.procs.len()
        &&& forall|i: int, j: int|
            0 <= i < j < self.accesses.len() ==> #[trigger] self.accesses@[i]
                <= #[trigger] self.accesses@[j]
    }

    pub fn new(kernel: Kernel) -> (r: KernelRom)
        requires
            kernel.wf(),
        ensures
            r.wf(),
            r.kernel == kernel,
            r.accesses@.len() == 0,
    {
        KernelRom { kernel, accesses: Vec::new() }
    }

    /// Number of rows this sub-chiplet produces: one per access.
    pub fn trace_len(&self) -> (r: usize)
        ensures
            r == self.accesses@.len(),
    {
        self.accesses.len()
    }

    /// The kernel this ROM was instantiated with.
    pub fn kernel(&self) -> (r: &Kernel)
        ensures
            r == &self.kernel,
    {
        &self.kernel
    }

    /// Records an access to the kernel procedure with the given digest.
    /// Fails exactly when the digest is not part of the configured
    /// kernel.
    pub fn access_proc(&mut self, proc_hash: Word) -> (r: Result<(), ExecutionError>)
        requires
            old(self).wf(),
            is_word(proc_hash),
            old(self).accesses@.len() + 1 <= usize::MAX,
        ensures
            final(self).wf(),
            final(self).kernel == old(self).kernel,
            (r is Ok) <==> exists|j: int|
                0 <= j < old(self).kernel.procs.len() && old(self).kernel.procs@[j] == proc_hash,
            r is Ok ==> final(self).accesses@.len() == old(self).accesses@.len() + 1,
            r is Ok ==> s_kernel_proc_index(old(self).kernel.procs@, proc_hash) is Some && exists|
                pos: int,
            |
                0 <= pos <= old(self).accesses@.len() && final(self).accesses@ == #[trigger] old(
                    self,
                ).accesses@.insert(
                    pos,
                    s_kernel_proc_index(old(self).kernel.procs@, proc_hash)->0 as usize,
                ),
            r is Err ==> *final(self) == *old(self) && r == Err::<(), ExecutionError>(
                ExecutionError::SyscallTargetNotInKernel(proc_hash),
            ),
    {
        let n = self.kernel.procs.len();
        let mut idx: usize = 0;
        let mut found = false;
        while idx < n && !found
            invariant
                *self == *old(self),
                n == self.kernel.procs@.len(),
                idx <= n,
                forall|j: int| 0 <= j < idx ==> self.kernel.procs@[j] != proc_hash,
                found ==> idx < n && self.kernel.procs@[idx as int] == proc_hash,
            decreases n - idx + (if found { 0int } else { 1int }),
        {
            if self.kernel.procs[idx] == proc_hash {
                found = true;
            } else {
                idx = idx + 1;
            }
        }
        if !found {
            return Err(ExecutionError::SyscallTargetNotInKernel(proc_hash));
        }
        proof {
            lemma_kernel_proc_index_at(self.kernel.procs@, proc_hash, idx as int);
        }
        // insert in sorted position so rows of one procedure stay
        // consecutive
        let m = self.accesses.len();
        let mut pos: usize = 0;
        while pos < m && self.accesses[pos] <= idx
            invariant
                *self == *old(self),
                self.wf(),
                idx < self.kernel.procs@.len(),
                s_kernel_proc_index(self.kernel.procs@, proc_hash) == Some(idx as int),
                m == self.accesses@.len(),
                pos <= m,
                forall|k: int| 0 <= k < pos ==> (#[trigger] self.accesses@[k]) <= idx,
            decreases m - pos,
        {
            pos = pos + 1;
        }
        proof {
            assert(pos < m ==> self.accesses@[pos as int] > idx);
            assert forall|k: int| pos <= k < m implies (#[trigger] self.accesses@[k]) > idx by {
                assert(self.accesses@[pos as int] <= self.accesses@[k]);
            }
        }
        self.accesses.insert(pos, idx);
        proof {
            let k = s_kernel_proc_index(old(self).kernel.procs@, proc_hash)->0 as usize;
            assert(k == idx);
            assert(self.accesses@ == old(self).accesses@.insert(pos as int, k));
        }
        Ok(())
    }
}


// THE CHIPLETS AGGREGATOR
// ================================================================================================

/// The chiplets aggregator: owns the clock and the four sub-chiplets,
/// exposes the operation API the executor calls, and defines the
/// segment boundaries of the composed table.
pub struct Chiplets {
    /// Current clock cycle of the virtual machine.
    pub clk: u64,
    pub hasher: Hasher,
    pub bitwise: Bitwise,
    pub memory: Memory,
    pub kernel_rom: KernelRom,
}

impl Chiplets {
    pub open spec fn wf(self) -> bool {
        &&& self.hasher.wf()
        &&& self.bitwise.wf()
        &&& self.memory.wf()
        &&& self.kernel_rom.wf()
    }

    /// The length the composed trace requires: the four sub-trace
    /// lengths plus one mandatory padding row.
    pub open spec fn total_len(self) -> int {
        self.hasher.rows.len() + self.bitwise.rows.len() + self.memory.rows.len()
            + self.kernel_rom.accesses.len() + 1
    }

    /// Returns a new aggregator instantiated with the provided kernel.
    pub fn new(kernel: Kernel) -> (r: Chiplets)
        requires
            kernel.wf(),
        ensures
            r.wf(),
            r.clk == 0,
            r.hasher.rows@.len() == 0,
            r.bitwise.rows@.len() == 0,
            r.memory.rows@.len() == 0,
            r.kernel_rom.accesses@.len() == 0,
            r.kernel_rom.kernel == kernel,
    {
        Chiplets {
            clk: 0,
            hasher: Hasher::new(),
            bitwise: Bitwise::new(),
            memory: Memory::new(),
            kernel_rom: KernelRom::new(kernel),
        }
    }

    /// The length of the trace required to accommodate all chiplet
    /// components and one mandatory padding row.
    pub fn trace_len(&self) -> (r: usize)
        requires
            self.total_len() <= usize::MAX,
        ensures
            r == self.total_len(),
    {
        self.hasher.trace_len() + self.bitwise.trace_len() + self.memory.trace_len()
            + self.kernel_rom.trace_len() + 1
    }

    /// The first row of the bitwise segment.
    pub fn bitwise_start(&self) -> (r: usize)
        ensures
            r == self.hasher.rows.len(),
    {
        self.hasher.trace_len()
    }

    /// The first row of the memory segment.
    pub fn memory_start(&self) -> (r: usize)
        requires
            self.total_len() <= usize::MAX,
        ensures
            r == self.hasher.rows.len() + self.bitwise.rows.len(),
    {
        self.bitwise_start() + self.bitwise.trace_len()
    }

    /// The first row of the kernel-ROM segment.
    pub fn kernel_rom_start(&self) -> (r: usize)
        requires
            self.total_len() <= usize::MAX,
        ensures
            r == self.hasher.rows.len() + self.bitwise.rows.len() + self.memory.rows.len(),
    {
        self.memory_start() + self.memory.trace_len()
    }

    /// The first row of the padding segment.
    pub fn padding_start(&self) -> (r: usize)
        requires
            self.total_len() <= usize::MAX,
        ensures
            r == self.hasher.rows.len() + self.bitwise.rows.len() + self.memory.rows.len()
                + self.kernel_rom.accesses.len(),
    {
        self.kernel_rom_start() + self.kernel_rom.trace_len()
    }

    /// The kernel this aggregator was instantiated with.
    pub fn kernel(&self) -> (r: &Kernel)
        ensures
            r == &self.kernel_rom.kernel,
    {
        self.kernel_rom.kernel()
    }

    /// Requests a single permutation of the hash function.
    pub fn permute(&mut self, state: Vec<Felt>) -> (r: (Felt, Vec<Felt>))
        requires
            old(self).wf(),
            state@.len() == 12,
            forall|i: int| 0 <= i < 12 ==> is_felt(#[trigger] state@[i]),
            old(self).hasher.rows@.len() + 8 <= 0xffff_ffff,
        ensures
            final(self).wf(),
            final(self).clk == old(self).clk,
            final(self).hasher.rows@.len() == old(self).hasher.rows@.len() + 8,
            final(self).bitwise == old(self).bitwise,
            final(self).memory == old(self).memory,
            final(self).kernel_rom == old(self).kernel_rom,
            r.0.v == old(self).hasher.rows@.len() + 1,
            is_felt(r.0),
            r.1@.len() == 12,
            forall|i: int| 0 <= i < 12 ==> is_felt(#[trigger] r.1@[i]),
            felts_u64(r.1@) == rpo_permutation(felts_u64(state@)),
    {
        self.hasher.permute(state)
    }

    /// Requests a Merkle root computation for the specified path and
    /// node value.
    pub fn build_merkle_root(&mut self, value: Word, path: &Vec<Word>, index: Felt) -> (r: (
        Felt,
        Word,
    ))
        requires
            old(self).wf(),
            is_word(value),
            wf_path(path@),
            1 <= path@.len() <= 63,
            is_felt(index),
            index.v < (1u64 << path@.len()),
            old(self).hasher.rows@.len() + 8 * path@.len() <= 0xffff_ffff,
        ensures
            final(self).wf(),
            final(self).clk == old(self).clk,
            final(self).hasher.rows@.len() == old(self).hasher.rows@.len() + 8 * path@.len(),
            final(self).bitwise == old(self).bitwise,
            final(self).memory == old(self).memory,
            final(self).kernel_rom == old(self).kernel_rom,
            r.0.v == old(self).hasher.rows@.len() + 1,
            is_word(r.1),
            word_view(r.1) == s_merkle_root(word_view(value), path@, index.v as int),
    {
        self.hasher.build_merkle_root(value, path, index)
    }

    /// Requests a Merkle root update computation.
    pub fn update_merkle_root(
        &mut self,
        old_value: Word,
        new_value: Word,
        path: &Vec<Word>,
        index: Felt,
    ) -> (r: MerkleRootUpdate)
        requires
            old(self).wf(),
            is_word(old_value),
            is_word(new_value),
            wf_path(path@),
            1 <= path@.len() <= 63,
            is_felt(index),
            index.v < (1u64 << path@.len()),
            old(self).hasher.rows@.len() + 16 * path@.len() <= 0xffff_ffff,
        ensures
            final(self).wf(),
            final(self).clk == old(self).clk,
            final(self).hasher.rows@.len() == old(self).hasher.rows@.len() + 16 * path@.len(),
            final(self).bitwise == old(self).bitwise,
            final(self).memory == old(self).memory,
            final(self).kernel_rom == old(self).kernel_rom,
            r.address.v == old(self).hasher.rows@.len() + 1,
            is_word(r.old_root),
            is_word(r.new_root),
            word_view(r.old_root) == s_merkle_root(word_view(old_value), path@, index.v as int),
            word_view(r.new_root) == s_merkle_root(word_view(new_value), path@, index.v as int),
    {
        self.hasher.update_merkle_root(old_value, new_value, path, index)
    }

    /// Requests the hash of two words and checks the result against the
    /// expected block digest; a mismatch is a fatal inconsistency and
    /// is excluded by contract. Returns the starting row address.
    pub fn hash_control_block(&mut self, h1: Word, h2: Word, domain: Felt, expected_hash: Word) -> (r:
        Felt)
        requires
            old(self).wf(),
            is_word(h1),
            is_word(h2),
            is_felt(domain),
            is_word(expected_hash),
            word_view(expected_hash) == rpo_merge_in_domain(word_view(h1), word_view(h2), domain.v),
            old(self).hasher.rows@.len() + 8 <= 0xffff_ffff,
        ensures
            final(self).wf(),
            final(self).clk == old(self).clk,
            final(self).hasher.rows@.len() == old(self).hasher.rows@.len() + 8,
            final(self).bitwise == old(self).bitwise,
            final(self).memory == old(self).memory,
            final(self).kernel_rom == old(self).kernel_rom,
            r.v == old(self).hasher.rows@.len() + 1,
            is_felt(r),
    {
        self.hasher.hash_control_block(h1, h2, domain, expected_hash)
    }

    /// Computes the hash of two words through the hash function, checks
    /// it against the expected digest, and records the block hash only
    /// on a match. Returns `None` exactly when the digest disagrees.
    pub fn try_hash_control_block(
        &mut self,
        h1: Word,
        h2: Word,
        domain: Felt,
        expected_hash: Word,
    ) -> (r: Option<Felt>)
        requires
            old(self).wf(),
            is_word(h1),
            is_word(h2),
            is_felt(domain),
            is_word(expected_hash),
            old(self).hasher.rows@.len() + 8 <= 0xffff_ffff,
        ensures
            final(self).wf(),
            (r is Some) <==> word_view(expected_hash) == rpo_merge_in_domain(
                word_view(h1),
                word_view(h2),
                domain.v,
            ),
            r is Some ==> r->0.v == old(self).hasher.rows@.len() + 1 && final(self).hasher.rows@.len() == old(self).hasher.rows@.len() + 8,
            final(self).clk == old(self).clk,
            final(self).bitwise == old(self).bitwise,
            final(self).memory == old(self).memory,
            final(self).kernel_rom == old(self).kernel_rom,
            r is None ==> *final(self) == *old(self),
    {
        let computed_raw = rpo_merge_in_domain_raw(&word_to_u64(&h1), &word_to_u64(&h2), domain.v);
        let computed = u64_to_word(&computed_raw);
        if computed == expected_hash {
            proof {
                assert(word_view(computed) =~= word_view(expected_hash));
            }
            Some(self.hash_control_block(h1, h2, domain, expected_hash))
        } else {
            proof {
                if word_view(expected_hash) == rpo_merge_in_domain(
                    word_view(h1),
                    word_view(h2),
                    domain.v,
                ) {
                    assert(word_view(computed) == word_view(expected_hash));
                    assert(computed.w0.v == expected_hash.w0.v);
                    assert(computed.w1.v == expected_hash.w1.v);
                    assert(computed.w2.v == expected_hash.w2.v);
                    assert(computed.w3.v == expected_hash.w3.v);
                }
            }
            None
        }
    }

    /// Requests a sequential hash of all operation batches and checks
    /// the result against the expected block digest; a mismatch is a
    /// fatal inconsistency and is excluded by contract. Returns the
    /// starting row address.
    pub fn hash_span_block(&mut self, op_batches: &Vec<OpBatch>, expected_hash: Word) -> (r: Felt)
        requires
            old(self).wf(),
            op_batches@.len() >= 1,
            forall|i: int| 0 <= i < op_batches@.len() ==> (#[trigger] op_batches@[i]).wf(),
            is_word(expected_hash),
            word_view(expected_hash) == rpo_hash_elements(flatten_batches(op_batches@)),
            old(self).hasher.rows@.len() + 8 * op_batches@.len() <= 0xffff_ffff,
        ensures
            final(self).wf(),
            final(self).clk == old(self).clk,
            final(self).hasher.rows@.len() == old(self).hasher.rows@.len() + 8 * op_batches@.len(),
            final(self).bitwise == old(self).bitwise,
            final(self).memory == old(self).memory,
            final(self).kernel_rom == old(self).kernel_rom,
            r.v == old(self).hasher.rows@.len() + 1,
            is_felt(r),
    {
        self.hasher.hash_basic_block(op_batches, expected_hash)
    }

    /// Flattens the batches, hashes them through the hash function,
    /// checks the digest, and records the block hash only on a match.
    /// Returns `None` exactly when the digest disagrees.
    pub fn try_hash_span_block(&mut self, op_batches: &Vec<OpBatch>, expected_hash: Word) -> (r:
        Option<Felt>)
        requires
            old(self).wf(),
            op_batches@.len() >= 1,
            forall|i: int| 0 <= i < op_batches@.len() ==> (#[trigger] op_batches@[i]).wf(),
            is_word(expected_hash),
            old(self).hasher.rows@.len() + 8 * op_batches@.len() <= 0xffff_ffff,
        ensures
            final(self).wf(),
            (r is Some) <==> word_view(expected_hash) == rpo_hash_elements(
                flatten_batches(op_batches@),
            ),
            r is Some ==> r->0.v == old(self).hasher.rows@.len() + 1 && final(self).hasher.rows@.len() == old(self).hasher.rows@.len() + 8 * op_batches@.len(),
            final(self).clk == old(self).clk,
            final(self).bitwise == old(self).bitwise,
            final(self).memory == old(self).memory,
            final(self).kernel_rom == old(self).kernel_rom,
            r is None ==> *final(self) == *old(self),
    {
        let mut flat: Vec<u64> = Vec::new();
        let k = op_batches.len();
        let mut j: usize = 0;
        while j < k
            invariant
                j <= k,
                k == op_batches@.len(),
                forall|i: int| 0 <= i < op_batches@.len() ==> (#[trigger] op_batches@[i]).wf(),
                flat@ == flatten_batches(op_batches@.subrange(0, j as int)),
            decreases k - j,
        {
            let ghost pre = flat@;
            let mut e: usize = 0;
            while e < 8
                invariant
                    e <= 8,
                    j < k,
                    k == op_batches@.len(),
                    forall|i: int| 0 <= i < op_batches@.len() ==> (#[trigger] op_batches@[i]).wf(),
                    flat@.len() == pre.len() + e,
                    forall|x: int| 0 <= x < pre.len() ==> #[trigger] flat@[x] == pre[x],
                    forall|x: int|
                        0 <= x < e ==> #[trigger] flat@[pre.len() + x] == op_batches@[
                            j as int].elements@[x].v,
                decreases 8 - e,
            {
                let batch = &op_batches[j];
                flat.push(batch.elements[e].v);
                e = e + 1;
            }
            proof {
                let taken = op_batches@.subrange(0, j as int + 1);
                assert(taken.drop_last() =~= op_batches@.subrange(0, j as int));
                let els = op_batches@[j as int].elements@;
                assert forall|x: int| 0 <= x < flat@.len() implies flat@[x] == (pre + felts_u64(
                    els,
                ))[x] by {
                    if pre.len() <= x {
                        assert(flat@[pre.len() + (x - pre.len())] == els[x - pre.len()].v);
                        assert(felts_u64(els)[x - pre.len()] == els[x - pre.len()].v);
                    }
                }
                assert(flat@ =~= pre + felts_u64(els));
                assert(flat@ =~= flatten_batches(taken));
            }
            j = j + 1;
        }
        proof {
            assert(op_batches@.subrange(0, k as int) =~= op_batches@);
        }
        let digest_raw = rpo_hash_elements_raw(&flat);
        let computed = u64_to_word(&digest_raw);
        if computed == expected_hash {
            proof {
                assert(word_view(computed) =~= word_view(expected_hash));
            }
            Some(self.hash_span_block(op_batches, expected_hash))
        } else {
            proof {
                if word_view(expected_hash) == rpo_hash_elements(flatten_batches(op_batches@)) {
                    assert(word_view(computed) == word_view(expected_hash));
                    assert(computed.w0.v == expected_hash.w0.v);
                    assert(computed.w1.v == expected_hash.w1.v);
                    assert(computed.w2.v == expected_hash.w2.v);
                    assert(computed.w3.v == expected_hash.w3.v);
                }
            }
            None
        }
    }

    /// Requests a bitwise AND from the bitwise chiplet. Operands are
    /// assumed already range-checked to 32 bits by the caller.
    pub fn u32and(&mut self, a: Felt, b: Felt) -> (r: Result<Felt, ExecutionError>)
        requires
            old(self).wf(),
            a.v <= 0xffff_ffff,
            b.v <= 0xffff_ffff,
            old(self).bitwise.rows@.len() + 8 <= usize::MAX,
        ensures
            final(self).wf(),
            final(self).clk == old(self).clk,
            final(self).bitwise.rows@.len() == old(self).bitwise.rows@.len() + 8,
            final(self).hasher == old(self).hasher,
            final(self).memory == old(self).memory,
            final(self).kernel_rom == old(self).kernel_rom,
            r is Ok,
            r->Ok_0.v == (a.v & b.v),
            is_felt(r->Ok_0),
            final(self).bitwise.rows@[old(self).bitwise.rows@.len() as int + 7]@[1].v == a.v,
            final(self).bitwise.rows@[old(self).bitwise.rows@.len() as int + 7]@[2].v == b.v,
            final(self).bitwise.rows@[old(self).bitwise.rows@.len() as int + 7]@[12].v == (a.v
                & b.v),
    {
        self.bitwise.u32and(a, b)
    }

    /// Requests a bitwise XOR from the bitwise chiplet. Operands are
    /// assumed already range-checked to 32 bits by the caller.
    pub fn u32xor(&mut self, a: Felt, b: Felt) -> (r: Result<Felt, ExecutionError>)
        requires
            old(self).wf(),
            a.v <= 0xffff_ffff,
            b.v <= 0xffff_ffff,
            old(self).bitwise.rows@.len() + 8 <= usize::MAX,
        ensures
            final(self).wf(),
            final(self).clk == old(self).clk,
            final(self).bitwise.rows@.len() == old(self).bitwise.rows@.len() + 8,
            final(self).hasher == old(self).hasher,
            final(self).memory == old(self).memory,
            final(self).kernel_rom == old(self).kernel_rom,
            r is Ok,
            r->Ok_0.v == (a.v ^ b.v),
            is_felt(r->Ok_0),
            final(self).bitwise.rows@[old(self).bitwise.rows@.len() as int + 7]@[1].v == a.v,
            final(self).bitwise.rows@[old(self).bitwise.rows@.len() as int + 7]@[2].v == b.v,
            final(self).bitwise.rows@[old(self).bitwise.rows@.len() as int + 7]@[12].v == (a.v
                ^ b.v),
    {
        self.bitwise.u32xor(a, b)
    }

    /// Returns a reference to the memory chiplet.
    pub fn memory(&self) -> (r: &Memory)
        ensures
            r == &self.memory,
    {
        &self.memory
    }

    /// Returns a mutable reference to the memory chiplet.
    pub fn memory_mut(&mut self) -> (r: &mut Memory)
        ensures
            *r == old(self).memory,
            *final(self) == (Chiplets { memory: *final(r), ..*old(self) }),
    {
        &mut self.memory
    }

    /// Increments the access counter of the specified kernel procedure.
    /// Fails exactly when the digest is not part of the configured
    /// kernel.
    pub fn access_kernel_proc(&mut self, proc_hash: Word) -> (r: Result<(), ExecutionError>)
        requires
            old(self).wf(),
            is_word(proc_hash),
            old(self).kernel_rom.accesses@.len() + 1 <= usize::MAX,
        ensures
            final(self).wf(),
            final(self).clk == old(self).clk,
            final(self).hasher == old(self).hasher,
            final(self).bitwise == old(self).bitwise,
            final(self).memory == old(self).memory,
            (r is Ok) <==> exists|j: int|
                0 <= j < old(self).kernel_rom.kernel.procs.len() && old(
                    self,
                ).kernel_rom.kernel.procs@[j] == proc_hash,
            r is Ok ==> final(self).kernel_rom.accesses@.len() == old(
                self,
            ).kernel_rom.accesses@.len() + 1,
            r is Ok ==> s_kernel_proc_index(old(self).kernel_rom.kernel.procs@, proc_hash) is Some
                && exists|pos: int|
                0 <= pos <= old(self).kernel_rom.accesses@.len()
                    && final(self).kernel_rom.accesses@ == #[trigger] old(
                    self,
                ).kernel_rom.accesses@.insert(
                    pos,
                    s_kernel_proc_index(old(self).kernel_rom.kernel.procs@, proc_hash)->0 as usize,
                ),
            r is Err ==> *final(self) == *old(self) && r == Err::<(), ExecutionError>(
                ExecutionError::SyscallTargetNotInKernel(proc_hash),
            ),
    {
        self.kernel_rom.access_proc(proc_hash)
    }

    /// Increments the clock cycle.
    pub fn advance_clock(&mut self)
        requires
            old(self).clk < u64::MAX,
        ensures
            final(self).clk == old(self).clk + 1,
            final(self).hasher == old(self).hasher,
            final(self).bitwise == old(self).bitwise,
            final(self).memory == old(self).memory,
            final(self).kernel_rom == old(self).kernel_rom,
    {
        self.clk = self.clk + 1;
    }
}


// TRACE COMPOSITION
// ================================================================================================

/// The value of every physical cell of the composed chiplets table:
/// each row belongs to exactly one segment, and within its segment each
/// column is either one of the unary segment selectors, a column the
/// owning sub-chiplet recorded, or untouched padding, which is zero.
pub open spec fn s_composed_cell(c: Chiplets, col: int, row: int) -> Felt {
    let hl = c.hasher.rows.len() as int;
    let bl = c.bitwise.rows.len() as int;
    let ml = c.memory.rows.len() as int;
    let kl = c.kernel_rom.accesses.len() as int;
    if row < hl {
        let r = c.hasher.rows@[row];
        if col == 0 {
            Felt { v: 0u64 }
        } else if col == 1 {
            r.s0
        } else if col == 2 {
            r.s1
        } else if col == 3 {
            r.s2
        } else if col <= 15 {
            r.state@[col - 4]
        } else if col == 16 {
            r.index
        } else {
            Felt { v: 0u64 }
        }
    } else if row < hl + bl {
        let r = c.bitwise.rows@[row - hl];
        if col == 0 {
            Felt { v: 1u64 }
        } else if col == 1 {
            Felt { v: 0u64 }
        } else if 2 <= col <= 14 {
            r@[col - 2]
        } else {
            Felt { v: 0u64 }
        }
    } else if row < hl + bl + ml {
        let r = c.memory.rows@[row - hl - bl];
        if col == 0 || col == 1 {
            Felt { v: 1u64 }
        } else if col == 2 {
            Felt { v: 0u64 }
        } else if col == 3 {
            r.is_read
        } else if col == 4 {
            r.ctx
        } else if col == 5 {
            r.addr
        } else if col == 6 {
            r.clk
        } else if col == 7 {
            r.value.w0
        } else if col == 8 {
            r.value.w1
        } else if col == 9 {
            r.value.w2
        } else if col == 10 {
            r.value.w3
        } else {
            Felt { v: 0u64 }
        }
    } else if row < hl + bl + ml + kl {
        let q = c.kernel_rom.accesses@[row - hl - bl - ml] as int;
        if col == 0 || col == 1 || col == 2 {
            Felt { v: 1u64 }
        } else if col == 3 {
            Felt { v: 0u64 }
        } else if col == 4 {
            Felt { v: 1u64 }
        } else if col == 5 {
            Felt { v: (q + 1) as u64 }
        } else if col == 6 {
            c.kernel_rom.kernel.procs@[q].w0
        } else if col == 7 {
            c.kernel_rom.kernel.procs@[q].w1
        } else if col == 8 {
            c.kernel_rom.kernel.procs@[q].w2
        } else if col == 9 {
            c.kernel_rom.kernel.procs@[q].w3
        } else {
            Felt { v: 0u64 }
        }
    } else {
        if col <= 3 {
            Felt { v: 1u64 }
        } else {
            Felt { v: 0u64 }
        }
    }
}

/// The composed chiplets table — eighteen columns — together with the
/// builder of its two auxiliary columns.
pub struct ChipletsTrace {
    pub trace: Vec<Vec<Felt>>,
    pub aux_builder: crate::aux_trace::AuxTraceBuilder,
}

impl Chiplets {
    /// Computes one cell of the composed table.
    fn cell_for(&self, col: usize, row: usize) -> (r: Felt)
        requires
            self.wf(),
            col < 18,
            self.total_len() <= usize::MAX,
            self.kernel_rom.kernel.procs.len() < 0xffff_ffff,
        ensures
            r == s_composed_cell(*self, col as int, row as int),
            is_felt(r),
    {
        let hl = self.hasher.trace_len();
        let bl = self.bitwise.trace_len();
        let ml = self.memory.trace_len();
        let kl = self.kernel_rom.trace_len();
        if row < hl {
            let r = &self.hasher.rows[row];
            if col == 0 {
                Felt::zero()
            } else if col == 1 {
                r.s0
            } else if col == 2 {
                r.s1
            } else if col == 3 {
                r.s2
            } else if col <= 15 {
                r.state[col - 4]
            } else if col == 16 {
                r.index
            } else {
                Felt::zero()
            }
        } else if row - hl < bl {
            let r = &self.bitwise.rows[row - hl];
            if col == 0 {
                Felt::one()
            } else if col == 1 {
                Felt::zero()
            } else if 2 <= col && col <= 14 {
                r[col - 2]
            } else {
                Felt::zero()
            }
        } else if row - hl - bl < ml {
            let r = &self.memory.rows[row - hl - bl];
            if col == 0 || col == 1 {
                Felt::one()
            } else if col == 2 {
                Felt::zero()
            } else if col == 3 {
                r.is_read
            } else if col == 4 {
                r.ctx
            } else if col == 5 {
                r.addr
            } else if col == 6 {
                r.clk
            } else if col == 7 {
                r.value.w0
            } else if col == 8 {
                r.value.w1
            } else if col == 9 {
                r.value.w2
            } else if col == 10 {
                r.value.w3
            } else {
                Felt::zero()
            }
        } else if row - hl - bl - ml < kl {
            let q = self.kernel_rom.accesses[row - hl - bl - ml];
            if col == 0 || col == 1 || col == 2 {
                Felt::one()
            } else if col == 3 {
                Felt::zero()
            } else if col == 4 {
                Felt::one()
            } else if col == 5 {
                Felt::from_u32((q + 1) as u32)
            } else if col == 6 {
                self.kernel_rom.kernel.procs[q].w0
            } else if col == 7 {
                self.kernel_rom.kernel.procs[q].w1
            } else if col == 8 {
                self.kernel_rom.kernel.procs[q].w2
            } else if col == 9 {
                self.kernel_rom.kernel.procs[q].w3
            } else {
                Felt::zero()
            }
        } else {
            if col <= 3 {
                Felt::one()
            } else {
                Felt::zero()
            }
        }
    }

    /// Renders the composed execution trace: a zero-filled table of
    /// eighteen columns and `trace_len` rows in which every cell is
    /// written by the sub-chiplet that owns it, the four leading
    /// columns carry each segment's unary selector pattern, and rows
    /// past the recorded segments stay padding. `num_rand_rows` rows at
    /// the end are reserved for random masking; a target length too
    /// small for the recorded traces is a sizing bug upstream and is
    /// excluded by contract.
    pub fn into_trace(self, trace_len: usize, num_rand_rows: usize) -> (r: ChipletsTrace)
        requires
            self.wf(),
            self.total_len() + num_rand_rows <= trace_len,
            self.kernel_rom.kernel.procs.len() < 0xffff_ffff,
        ensures
            r.trace@.len() == 18,
            forall|c: int| 0 <= c < 18 ==> (#[trigger] r.trace@[c])@.len() == trace_len,
            forall|c: int, row: int|
                0 <= c < 18 && 0 <= row < trace_len ==> (#[trigger] r.trace@[c]@[row])
                    == s_composed_cell(self, c, row),
    {
        let mut trace: Vec<Vec<Felt>> = Vec::new();
        let mut col: usize = 0;
        while col < 18
            invariant
                self.wf(),
                self.total_len() + num_rand_rows <= trace_len,
                self.kernel_rom.kernel.procs.len() < 0xffff_ffff,
                col <= 18,
                trace@.len() == col,
                forall|c: int| 0 <= c < col ==> (#[trigger] trace@[c])@.len() == trace_len,
                forall|c: int, row: int|
                    0 <= c < col && 0 <= row < trace_len ==> (#[trigger] trace@[c]@[row])
                        == s_composed_cell(self, c, row),
            decreases 18 - col,
        {
            let mut column: Vec<Felt> = Vec::new();
            let mut row: usize = 0;
            while row < trace_len
                invariant
                    self.wf(),
                    self.total_len() + num_rand_rows <= trace_len,
                    self.kernel_rom.kernel.procs.len() < 0xffff_ffff,
                    col < 18,
                    row <= trace_len,
                    column@.len() == row,
                    forall|i: int|
                        0 <= i < row ==> (#[trigger] column@[i]) == s_composed_cell(
                            self,
                            col as int,
                            i,
                        ),
                decreases trace_len - row,
            {
                column.push(self.cell_for(col, row));
                row = row + 1;
            }
            trace.push(column);
            col = col + 1;
        }
        ChipletsTrace { trace, aux_builder: crate::aux_trace::AuxTraceBuilder::new() }
    }
}

// ADDRESSING LAWS
// ================================================================================================

/// Law: the four segment-start accessors are the cumulative sums of the
/// sub-trace lengths; when every sub-chiplet recorded at least one row
/// they are strictly increasing, and the padding segment is never
/// empty.
pub proof fn lemma_starts_strictly_increasing(c: Chiplets)
    requires
        c.hasher.rows.len() > 0,
        c.bitwise.rows.len() > 0,
        c.memory.rows.len() > 0,
        c.kernel_rom.accesses.len() > 0,
    ensures
        0 < c.hasher.rows.len() < c.hasher.rows.len() + c.bitwise.rows.len() < c.hasher.rows.len()
            + c.bitwise.rows.len() + c.memory.rows.len() < c.hasher.rows.len()
            + c.bitwise.rows.len() + c.memory.rows.len() + c.kernel_rom.accesses.len()
            < c.total_len(),
{
}

/// Law: the unary selector columns of the composed table switch exactly
/// at the segment starts: reading the selectors in order identifies,
/// for every row, the one segment that owns it.
pub proof fn lemma_selector_transitions(c: Chiplets)
    ensures
        forall|row: int|
            0 <= row ==> ((#[trigger] s_composed_cell(c, 0, row)).v == 0 <==> row
                < c.hasher.rows.len()),
        forall|row: int|
            c.hasher.rows.len() <= row ==> ((#[trigger] s_composed_cell(c, 1, row)).v == 0 <==> row
                < c.hasher.rows.len() + c.bitwise.rows.len()),
        forall|row: int|
            c.hasher.rows.len() + c.bitwise.rows.len() <= row ==> ((#[trigger] s_composed_cell(
                c,
                2,
                row,
            )).v == 0 <==> row < c.hasher.rows.len() + c.bitwise.rows.len()
                + c.memory.rows.len()),
        forall|row: int|
            c.hasher.rows.len() + c.bitwise.rows.len() + c.memory.rows.len() <= row ==> ((
            #[trigger] s_composed_cell(c, 3, row)).v == 0 <==> row < c.hasher.rows.len()
                + c.bitwise.rows.len() + c.memory.rows.len() + c.kernel_rom.accesses.len()),
{
}

/// Law: a padding row of the composed table is zero everywhere except
/// the four selector columns, which carry the padding pattern.
pub proof fn lemma_padding_rows_zero(c: Chiplets)
    ensures
        forall|col: int, row: int|
            4 <= col < 18 && row >= c.total_len() - 1 ==> (#[trigger] s_composed_cell(
                c,
                col,
                row,
            )).v == 0,
        forall|col: int, row: int|
            0 <= col <= 3 && row >= c.total_len() - 1 ==> (#[trigger] s_composed_cell(
                c,
                col,
                row,
            )).v == 1,
{
}

} // verus!
