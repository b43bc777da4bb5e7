//! Decorators: annotations attached to operations that direct the
//! host without affecting the machine state, and the iterator that
//! walks a block's decorator list during execution.

use vstd::prelude::*;

verus! {

/// A request to inject data into the advice provider.
#[derive(Debug, Clone, Copy, PartialEq, Eq, Structural)]
pub enum AdviceInjector {
    MerkleNodeMerge,
    MapValueToStack,
    UpdateMerkleNode,
    PushU64Div,
    PushExt2Inv,
}

/// Options of a debug request.
#[derive(Debug, Clone, Copy, PartialEq, Eq, Structural)]
pub enum DebugOptions {
    StackAll,
    StackTop(u16),
    MemAll,
    MemInterval(u32, u32),
}

/// Information about the assembly instruction a span position came
/// from.
#[derive(Debug, Clone)]
pub struct AssemblyOp {
    pub op: String,
    pub num_cycles: u8,
}

impl AssemblyOp {
    pub fn new(op: String, num_cycles: u8) -> (r: AssemblyOp)
        ensures
            r.op == op,
            r.num_cycles == num_cycles,
    {
        AssemblyOp { op, num_cycles }
    }

    /// The assembly instruction this operation came from.
    pub fn op(&self) -> (r: &String)
        ensures
            r == &self.op,
    {
        &self.op
    }

    /// The number of cycles the instruction takes.
    pub fn num_cycles(&self) -> (r: u8)
        ensures
            r == self.num_cycles,
    {
        self.num_cycles
    }
}

/// A decorator executed alongside an operation: it may inject advice,
/// carry assembly information, print debug state, or emit an event or
/// trace to the host.
#[derive(Debug, Clone)]
pub enum Decorator {
    Advice(AdviceInjector),
    AsmOp(AssemblyOp),
    Debug(DebugOptions),
    Event(u32),
    Trace(u32),
}

/// Pairs of operation index and the decorator to execute there.
pub struct DecoratorList {
    pub entries: Vec<(usize, Decorator)>,
}

/// Walks a decorator list while the operations of a span block
/// execute.
pub struct DecoratorIterator<'a> {
    pub decorators: &'a DecoratorList,
    pub idx: usize,
}

impl<'a> DecoratorIterator<'a> {
    /// Returns a new iterator over the provided decorator list.
    pub fn new(decorators: &'a DecoratorList) -> (r: DecoratorIterator<'a>)
        ensures
            r.decorators == decorators,
            r.idx == 0,
    {
        DecoratorIterator { decorators, idx: 0 }
    }

    /// Returns the next decorator, but only if its position matches the
    /// specified position; otherwise nothing is returned and the
    /// iterator does not advance.
    pub fn next_filtered(&mut self, pos: usize) -> (r: Option<&'a Decorator>)
        ensures
            (old(self).idx < old(self).decorators.entries@.len() && old(
                self,
            ).decorators.entries@[old(self).idx as int].0 == pos) ==> r is Some && final(self).idx
                == old(self).idx + 1 && r->0 == &old(self).decorators.entries@[old(
                self,
            ).idx as int].1,
            !(old(self).idx < old(self).decorators.entries@.len() && old(
                self,
            ).decorators.entries@[old(self).idx as int].0 == pos) ==> r is None && *final(self)
                == *old(self),
    {
        if self.idx < self.decorators.entries.len() && self.decorators.entries[self.idx].0 == pos {
            self.idx = self.idx + 1;
            Some(&self.decorators.entries[self.idx - 1].1)
        } else {
            None
        }
    }

    /// Returns the next decorator, regardless of position.
    pub fn next(&mut self) -> (r: Option<&'a Decorator>)
        ensures
            old(self).idx < old(self).decorators.entries@.len() ==> r is Some && final(self).idx
                == old(self).idx + 1 && r->0 == &old(self).decorators.entries@[old(
                self,
            ).idx as int].1,
            old(self).idx >= old(self).decorators.entries@.len() ==> r is None && *final(self)
                == *old(self),
    {
        if self.idx < self.decorators.entries.len() {
            self.idx = self.idx + 1;
            Some(&self.decorators.entries[self.idx - 1].1)
        } else {
            None
        }
    }
}

/// The signature schemes the machine supports.
#[derive(Clone, Copy, PartialEq, Eq, Structural, Debug)]
pub enum SignatureKind {
    RpoFalcon512,
}

impl SignatureKind {
    /// The scheme's canonical name.
    pub fn name(&self) -> &'static str {
        match self {
            SignatureKind::RpoFalcon512 => "rpo_falcon512",
        }
    }
}

} // verus!
