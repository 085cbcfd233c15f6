//! The walk down the prefix tree: one step per node, with the fallback that
//! backs out of a hole to the nearest enclosing prefix.
use vstd::prelude::*;
use crate::address::{Address, AddressBits, branch_below, last_one, lemma_last_one_bound};
use crate::error::Error;
use crate::parse::{NodeResult, child_of, classify, next_node};

verus! {

/// The most steps that a walk takes.
pub const MAX_WALK_STEPS: usize = 257;

/// A walk in progress, as a mathematical value.
pub struct WalkView {
    /// The bits of the address, as rewritten by the fallbacks so far.
    pub bits: Seq<bool>,
    /// The bit that the next step reads.
    pub depth: int,
    /// The node that the next step reads.
    pub node: int,
    /// The node entered at each depth.
    pub previous: Seq<u64>,
}

/// What one step of the walk decided.
#[derive(Clone, Copy, Debug, PartialEq, Eq, Structural)]
pub enum Step {
    /// Go on from the node that the walk now stands on.
    Descend,
    /// The walk ends at the leaf record at this offset.
    Leaf(u64),
    /// The walk ends without a record.
    Stop(Error),
}

/// One step of the walk from `s`, where `node` holds the eight bytes of the
/// node that `s` stands on.
pub open spec fn walk_step(s: WalkView, node: Seq<u8>, tree_start: int, tree_end: int, is_blacklist: bool) -> (WalkView, Step) {
    let previous = s.previous.update(s.depth, s.node as u64);
    let here = WalkView { previous, ..s };
    match classify(child_of(node, s.bits[s.depth]), tree_start, tree_end) {
        NodeResult::Record(p) => (here, Step::Leaf(p)),
        NodeResult::NextNode(n) => (WalkView { depth: s.depth + 1, node: n as int, ..here }, Step::Descend),
        NodeResult::Missing => if is_blacklist {
            (here, Step::Stop(Error::NotFound))
        } else {
            match last_one(s.bits, s.depth) {
                None => (here, Step::Stop(Error::NotFound)),
                Some(k) => (
                    WalkView {
                        bits: branch_below(s.bits, k),
                        depth: k,
                        node: previous[k] as int,
                        previous,
                    },
                    Step::Descend,
                ),
            }
        },
    }
}

/// The eight bytes of the node at `offset` of the file `f`.
pub open spec fn node_bytes(f: Seq<u8>, offset: int) -> Seq<u8> {
    f.subrange(offset, offset + 8)
}

/// Where a walk from `s` over the file `f` ends, within `fuel` steps.
pub open spec fn walk(f: Seq<u8>, s: WalkView, tree_start: int, tree_end: int, is_blacklist: bool, fuel: nat) -> Result<u64, Error>
    decreases fuel,
{
    if fuel == 0 {
        Err(Error::TreeTooDeep)
    } else if s.depth >= s.bits.len() {
        Err(Error::AddressExhausted)
    } else if s.node + 8 > f.len() {
        Err(Error::TruncatedFile)
    } else {
        let (next, step) = walk_step(s, node_bytes(f, s.node), tree_start, tree_end, is_blacklist);
        match step {
            Step::Leaf(p) => Ok(p),
            Step::Stop(e) => Err(e),
            Step::Descend => walk(f, next, tree_start, tree_end, is_blacklist, (fuel - 1) as nat),
        }
    }
}

/// The walk for `address` before its first step: at bit 0, on the node just
/// after the tree header.
pub open spec fn initial_walk(address: Address, tree_start: int) -> WalkView {
    WalkView {
        bits: address.bits(),
        depth: 0,
        node: tree_start + 5,
        previous: Seq::new(128, |i: int| 0u64),
    }
}

/// The leaf record that the tree of `f` gives for `address`, or why there is
/// none.
pub open spec fn lookup_leaf(f: Seq<u8>, address: Address, tree_start: int, tree_end: int, is_blacklist: bool) -> Result<u64, Error> {
    walk(f, initial_walk(address, tree_start), tree_start, tree_end, is_blacklist, MAX_WALK_STEPS as nat)
}

/// A walk in progress.
pub struct Walk {
    pub bits: AddressBits,
    pub depth: usize,
    pub node: u64,
    pub previous: Vec<u64>,
}

impl View for Walk {
    type V = WalkView;

    open spec fn view(&self) -> WalkView {
        WalkView {
            bits: self.bits@,
            depth: self.depth as int,
            node: self.node as int,
            previous: self.previous@,
        }
    }
}

impl Walk {
    pub open spec fn wf(&self) -> bool {
        &&& self.bits.1 == 32 || self.bits.1 == 128
        &&& self.depth <= self.bits.1
        &&& self.previous@.len() == 128
        &&& self.node < 0x1_0000_0000
        &&& forall|i: int| 0 <= i < 128 ==> self.previous@[i] < 0x1_0000_0000
    }

    /// The walk for `address`, before its first step.
    pub fn start(address: &Address, tree_start: u64) -> (r: Walk)
        requires
            tree_start < 0x1_0000_0000 - 5,
        ensures
            r.wf(),
            r@ == initial_walk(*address, tree_start as int),
    {
        let mut previous: Vec<u64> = Vec::new();
        let mut i: usize = 0;
        while i < 128
            invariant
                i <= 128,
                previous@ == Seq::new(i as nat, |j: int| 0u64),
            decreases 128 - i,
        {
            previous.push(0);
            i = i + 1;
            assert(previous@ =~= Seq::new(i as nat, |j: int| 0u64));
        }
        Walk { bits: AddressBits::from_address(address), depth: 0, node: tree_start + 5, previous }
    }

    /// Whether the walk has read every bit of the address.
    pub fn exhausted(&self) -> (r: bool)
        requires
            self.wf(),
        ensures
            r == (self@.depth >= self@.bits.len()),
    {
        self.depth >= self.bits.1 as usize
    }

    /// Takes one step from the node whose eight bytes are `node`.
    pub fn step(&mut self, node: &[u8], tree_start: u64, tree_end: u64, is_blacklist: bool) -> (r: Step)
        requires
            old(self).wf(),
            old(self)@.depth < old(self)@.bits.len(),
            node@.len() == 8,
        ensures
            final(self).wf(),
            (final(self)@, r) == walk_step(old(self)@, node@, tree_start as int, tree_end as int, is_blacklist),
    {
        let ghost s = self@;
        self.previous.set(self.depth, self.node);
        let bit = self.bits.position(self.depth);
        match next_node(bit, node, tree_start, tree_end) {
            NodeResult::Record(p) => {
                Step::Leaf(p)
            },
            NodeResult::NextNode(n) => {
                self.node = n;
                self.depth = self.depth + 1;
                Step::Descend
            },
            NodeResult::Missing => {
                if is_blacklist {
                    return Step::Stop(Error::NotFound);
                }
                match self.bits.try_backtrack(self.depth) {
                    None => Step::Stop(Error::NotFound),
                    Some(k) => {
                        proof {
                            lemma_last_one_bound(s.bits, s.depth);
                        }
                        self.depth = k;
                        self.node = self.previous[k];
                        Step::Descend
                    },
                }
            },
        }
    }
}

/// A walk that ends within its budget of steps ends the same way under any
/// larger budget: every lookup is settled by at most `MAX_WALK_STEPS` node
/// reads, one per step.
pub proof fn walk_settled(f: Seq<u8>, s: WalkView, tree_start: int, tree_end: int, is_blacklist: bool, fuel: nat, more: nat)
    requires
        walk(f, s, tree_start, tree_end, is_blacklist, fuel) != Err::<u64, Error>(Error::TreeTooDeep),
    ensures
        walk(f, s, tree_start, tree_end, is_blacklist, fuel + more) == walk(
            f,
            s,
            tree_start,
            tree_end,
            is_blacklist,
            fuel,
        ),
    decreases fuel,
{
    if fuel > 0 && s.depth < s.bits.len() && s.node + 8 <= f.len() {
        let (next, step) = walk_step(s, node_bytes(f, s.node), tree_start, tree_end, is_blacklist);
        if step is Descend {
            walk_settled(f, next, tree_start, tree_end, is_blacklist, (fuel - 1) as nat, more);
            assert((fuel + more - 1) as nat == (fuel - 1) as nat + more);
        }
    }
}

/// At a hole, in a file that is not a blacklist, the walk backs up to the
/// last 1 at or before the current bit, takes the 0-branch of the node it
/// entered at that depth, and reads every later bit as a 1.
pub proof fn hole_fallback(f: Seq<u8>, s: WalkView, tree_start: int, tree_end: int, fuel: nat, k: int)
    requires
        0 <= s.depth < s.bits.len(),
        s.node + 8 <= f.len(),
        classify(child_of(node_bytes(f, s.node), s.bits[s.depth]), tree_start, tree_end)
            == NodeResult::Missing,
        last_one(s.bits, s.depth) == Some(k),
    ensures
        walk(f, s, tree_start, tree_end, false, fuel + 1) == walk(
            f,
            WalkView {
                bits: branch_below(s.bits, k),
                depth: k,
                node: s.previous.update(s.depth, s.node as u64)[k] as int,
                previous: s.previous.update(s.depth, s.node as u64),
            },
            tree_start,
            tree_end,
            false,
            fuel,
        ),
{
    assert((fuel + 1 - 1) as nat == fuel);
}

/// The leaf that a walk from `node` at bit `depth` reaches by following the
/// children that `bits` pick, meeting no hole on the way; and the bit at
/// which it gets there.
pub open spec fn descent(f: Seq<u8>, bits: Seq<bool>, tree_start: int, tree_end: int, node: int, depth: int, fuel: nat) -> Option<(u64, int)>
    decreases fuel,
{
    if fuel == 0 || depth < 0 || depth >= bits.len() || node + 8 > f.len() {
        None
    } else {
        match classify(child_of(node_bytes(f, node), bits[depth]), tree_start, tree_end) {
            NodeResult::Record(p) => Some((p, depth)),
            NodeResult::NextNode(n) => descent(
                f,
                bits,
                tree_start,
                tree_end,
                n as int,
                depth + 1,
                (fuel - 1) as nat,
            ),
            NodeResult::Missing => None,
        }
    }
}

proof fn lemma_descent_walk(f: Seq<u8>, s: WalkView, tree_start: int, tree_end: int, is_blacklist: bool, fuel: nat)
    requires
        descent(f, s.bits, tree_start, tree_end, s.node, s.depth, fuel) is Some,
    ensures
        walk(f, s, tree_start, tree_end, is_blacklist, fuel) == Ok::<u64, Error>(
            descent(f, s.bits, tree_start, tree_end, s.node, s.depth, fuel)->Some_0.0,
        ),
    decreases fuel,
{
    let (next, step) = walk_step(s, node_bytes(f, s.node), tree_start, tree_end, is_blacklist);
    if step is Descend {
        lemma_descent_walk(f, next, tree_start, tree_end, is_blacklist, (fuel - 1) as nat);
    }
}

proof fn lemma_descent_prefix(f: Seq<u8>, a: Seq<bool>, b: Seq<bool>, tree_start: int, tree_end: int, node: int, depth: int, fuel: nat)
    requires
        descent(f, a, tree_start, tree_end, node, depth, fuel) matches Some((p, d)) && forall|
            i: int,
        | depth <= i <= d ==> a[i] == b[i],
        a.len() == b.len(),
    ensures
        descent(f, b, tree_start, tree_end, node, depth, fuel) == descent(
            f,
            a,
            tree_start,
            tree_end,
            node,
            depth,
            fuel,
        ),
    decreases fuel,
{
    lemma_descent_depth(f, a, tree_start, tree_end, node, depth, fuel);
    assert(a[depth] == b[depth]);
    if let NodeResult::NextNode(n) = classify(child_of(node_bytes(f, node), a[depth]), tree_start, tree_end) {
        lemma_descent_prefix(f, a, b, tree_start, tree_end, n as int, depth + 1, (fuel - 1) as nat);
    }
}

proof fn lemma_descent_depth(f: Seq<u8>, a: Seq<bool>, tree_start: int, tree_end: int, node: int, depth: int, fuel: nat)
    ensures
        descent(f, a, tree_start, tree_end, node, depth, fuel) matches Some((p, d)) ==> depth <= d,
    decreases fuel,
{
    if fuel > 0 && 0 <= depth < a.len() && node + 8 <= f.len() {
        if let NodeResult::NextNode(n) = classify(child_of(node_bytes(f, node), a[depth]), tree_start, tree_end) {
            lemma_descent_depth(f, a, tree_start, tree_end, n as int, depth + 1, (fuel - 1) as nat);
        }
    }
}

/// Two addresses of one family that agree on every bit that the walk for
/// the first reads, where that walk reaches its leaf without meeting a
/// hole, get the same leaf.
pub proof fn prefix_monotone(f: Seq<u8>, a: Address, b: Address, tree_start: int, tree_end: int, is_blacklist: bool, p: u64, d: int)
    requires
        descent(f, a.bits(), tree_start, tree_end, tree_start + 5, 0, MAX_WALK_STEPS as nat)
            == Some((p, d)),
        a.spec_is_ipv6() == b.spec_is_ipv6(),
        forall|i: int| 0 <= i <= d ==> a.bits()[i] == b.bits()[i],
    ensures
        lookup_leaf(f, a, tree_start, tree_end, is_blacklist) == Ok::<u64, Error>(p),
        lookup_leaf(f, b, tree_start, tree_end, is_blacklist) == Ok::<u64, Error>(p),
{
    lemma_descent_prefix(f, a.bits(), b.bits(), tree_start, tree_end, tree_start + 5, 0, MAX_WALK_STEPS as nat);
    lemma_descent_walk(f, initial_walk(a, tree_start), tree_start, tree_end, is_blacklist, MAX_WALK_STEPS as nat);
    lemma_descent_walk(f, initial_walk(b, tree_start), tree_start, tree_end, is_blacklist, MAX_WALK_STEPS as nat);
}

} // verus!
