//! The differentiation trace (tape).
//!
//! A [`Tape`] records a directed acyclic graph of scalar operations
//! performed inside one differentiation scope.  Nodes are created in
//! topological order (operands always precede their consumers), and
//! [`Tape::backward`] walks them in exact reverse creation order,
//! accumulating each operand's adjoint as `adjoint * local_derivative` —
//! accumulation, not overwrite, so a value consumed several times sums
//! every contribution.
//!
//! Branches are modelled per lane by boolean masks rather than by real
//! control flow: both sides of an `if` (and every case of a `switch`) are
//! recorded and evaluated, a merge (phi) node selects the taken side's
//! value, and every node carries the conjunction of the predicates of the
//! regions enclosing it.  During the backward sweep a node distributes
//! adjoint only when its mask is true and its own adjoint is not exactly
//! zero; an untaken branch therefore receives exactly zero adjoint, never
//! an undefined value, no matter what its primal computation produced.
//!
//! A scope goes through two phases: `Recording` (nodes may be created and
//! marked) and `BackwardDone` (after one `backward` call, gradients may be
//! read).  Closing the scope is dropping the tape.  Each tape is an
//! independent trace: a subroutine that differentiates opens its own tape,
//! and nothing is stitched across that boundary — any gradient it wants to
//! expose must be written into an output explicitly.

use vstd::prelude::*;

use crate::rational::{
    lemma_ops_preserve_wf, oabs, oadd, odiv, ogt, olt, omul, oneg, opt_abs, opt_add, opt_div,
    opt_gt, opt_lt, opt_mul, opt_neg, opt_sqrt, opt_sub, osqrt, osub, val_wf, Rat,
};

verus! {

/// Misuse of the differentiation interface.  These are programmer errors:
/// they are surfaced immediately and never silently ignored.
#[derive(Clone, Copy, Debug, PartialEq, Eq, Structural)]
pub enum AdError {
    /// The node index does not belong to this trace.
    UntrackedValue,
    /// `gradient` was asked for a node never marked with `requires_grad`.
    NotALeaf,
    /// `gradient` was called before `backward`.
    NoActiveBackwardPass,
    /// A recording operation (or a second `backward`) after `backward`.
    RecordingFinished,
    /// A branch-region operation out of place: an unclosed region at
    /// `backward`, a case opened or closed out of order, or a node created
    /// directly inside a `switch` body outside any case.
    BranchMismatch,
}

/// The phase of a differentiation scope.
#[derive(Clone, Copy, Debug, PartialEq, Eq, Structural)]
pub enum Phase {
    /// Nodes may be created and marked.
    Recording,
    /// One backward pass ran; gradients may be read.
    BackwardDone,
}

/// The operation a node records, with the indices of its operands.
#[derive(Debug)]
pub enum NodeOp {
    /// An input or constant; it has no operand edges.
    Leaf,
    /// Sum of two earlier nodes.
    Add(usize, usize),
    /// Difference of two earlier nodes.
    Sub(usize, usize),
    /// Product of two earlier nodes.
    Mul(usize, usize),
    /// Quotient of two earlier nodes.
    Div(usize, usize),
    /// Negation of an earlier node.
    Neg(usize),
    /// Square root of an earlier node.
    Sqrt(usize),
    /// Absolute value of an earlier node.
    Abs(usize),
    /// Forwards its operand's value but has no backward edge.
    Detach(usize),
    /// The merge (phi) node of an `if`: per lane, the taken side's value.
    Select { cond: bool, on_true: usize, on_false: usize },
    /// The merge (phi) node of a `switch`: the first case whose tag equals
    /// the key, or the default.
    Switch { key: i64, cases: Vec<(i64, usize)>, default_case: Option<usize> },
}

/// One recorded operation: its rule, its forward value, and the
/// conjunction of the active-lane predicates of the regions enclosing it.
#[derive(Debug)]
pub struct Node {
    pub op: NodeOp,
    pub val: Option<Rat>,
    pub active: bool,
}

/// An open branch region.
#[derive(Debug)]
pub enum Frame {
    /// An open `if`: while `then_val` is `None` the then-side is being
    /// recorded, afterwards the else-side.
    IfRegion { cond: bool, prev_active: bool, then_val: Option<usize> },
    /// An open `switch`: cases recorded so far, the default's value if one
    /// was recorded, and the currently open case if any.
    SwitchRegion {
        key: i64,
        prev_active: bool,
        cases: Vec<(i64, usize)>,
        default_val: Option<usize>,
        current: Option<CaseSel>,
    },
}

/// Which part of a `switch` is currently being recorded.
#[derive(Clone, Copy, Debug, PartialEq, Eq, Structural)]
pub enum CaseSel {
    /// A case with the given tag.
    Tagged(i64),
    /// The default case.
    Fallback,
}

/// The value of `2`, the constant in the square-root derivative.
pub open spec fn rat_two() -> Rat {
    Rat { num: 2, den: 1 }
}

/// An adjoint that is exactly zero (a represented zero, not an undefined
/// value).
pub open spec fn adj_is_zero(a: Option<Rat>) -> bool {
    a matches Some(c) && c.num == 0
}

/// The value of the first case whose tag equals `key`, searching from
/// position `i`.
pub open spec fn first_case_from(cases: Seq<(i64, usize)>, key: i64, i: int) -> Option<usize>
    decreases cases.len() - i,
{
    if i < 0 || i >= cases.len() {
        None
    } else if cases[i].0 == key {
        Some(cases[i].1)
    } else {
        first_case_from(cases, key, i + 1)
    }
}

/// The value of the first case whose tag equals `key`.
pub open spec fn first_case(cases: Seq<(i64, usize)>, key: i64) -> Option<usize> {
    first_case_from(cases, key, 0)
}

/// A matching case's value is one of the recorded values, so it respects
/// any bound they all respect.
proof fn lemma_first_case_in_range(cases: Seq<(i64, usize)>, key: i64, bound: int, i: int)
    requires
        forall|j: int| 0 <= j < cases.len() ==> (#[trigger] cases[j]).1 < bound,
    ensures
        first_case_from(cases, key, i) matches Some(t) ==> t < bound,
    decreases cases.len() - i,
{
    if i < 0 || i >= cases.len() {
    } else if cases[i].0 == key {
    } else {
        lemma_first_case_in_range(cases, key, bound, i + 1);
    }
}

/// The forward value a `switch` merge node takes: the first matching
/// case's value, else the default's, else undefined.
pub open spec fn switch_value(
    nodes: Seq<Node>,
    cases: Seq<(i64, usize)>,
    default_case: Option<usize>,
    key: i64,
) -> Option<Rat> {
    match first_case(cases, key) {
        Some(t) => nodes[t as int].val,
        None => match default_case {
            Some(d) => nodes[d as int].val,
            None => None,
        },
    }
}

/// The operand indices of `op` all precede position `i`.
pub open spec fn node_op_wf(op: NodeOp, i: int) -> bool {
    match op {
        NodeOp::Leaf => true,
        NodeOp::Add(l, r) => l < i && r < i,
        NodeOp::Sub(l, r) => l < i && r < i,
        NodeOp::Mul(l, r) => l < i && r < i,
        NodeOp::Div(l, r) => l < i && r < i,
        NodeOp::Neg(x) => x < i,
        NodeOp::Sqrt(x) => x < i,
        NodeOp::Abs(x) => x < i,
        NodeOp::Detach(x) => x < i,
        NodeOp::Select { cond, on_true, on_false } => on_true < i && on_false < i,
        NodeOp::Switch { key, cases, default_case } => {
            &&& forall|j: int| 0 <= j < cases@.len() ==> (#[trigger] cases@[j]).1 < i
            &&& default_case matches Some(d) ==> d < i
        },
    }
}

/// Creation order is a valid topological order, and every stored value is
/// well-formed.
pub open spec fn nodes_wf(nodes: Seq<Node>) -> bool {
    forall|i: int|
        0 <= i < nodes.len() ==> node_op_wf((#[trigger] nodes[i]).op, i) && val_wf(nodes[i].val)
}

/// Every node index stored in an open region is in range.
pub open spec fn frame_wf(f: Frame, len: int) -> bool {
    match f {
        Frame::IfRegion { cond, prev_active, then_val } => {
            then_val matches Some(t) ==> t < len
        },
        Frame::SwitchRegion { key, prev_active, cases, default_val, current } => {
            &&& forall|j: int| 0 <= j < cases@.len() ==> (#[trigger] cases@[j]).1 < len
            &&& default_val matches Some(d) ==> d < len
        },
    }
}

/// What an absolute-value node passes to its operand: the adjoint with
/// the operand's sign, undefined on an undefined operand.
pub open spec fn abs_grad(a: Option<Rat>, v: Option<Rat>) -> Option<Rat> {
    match v {
        Some(c) => if c.num >= 0 {
            a
        } else {
            oneg(a)
        },
        None => None,
    }
}

/// Adds `amount` into the adjoint accumulator at `i`.
pub open spec fn acc_adj(adj: Seq<Option<Rat>>, i: int, amount: Option<Rat>) -> Seq<Option<Rat>> {
    adj.update(i, oadd(adj[i], amount))
}

/// One step of the backward sweep: how node `i` distributes its adjoint to
/// its operands.  A masked-out node, and a node whose adjoint is exactly
/// zero, distributes nothing — this is what keeps an untaken branch's
/// adjoints at exactly zero even when its values are undefined.
pub open spec fn node_back(nodes: Seq<Node>, adj: Seq<Option<Rat>>, i: int) -> Seq<Option<Rat>> {
    let n = nodes[i];
    let a = adj[i];
    if !n.active || adj_is_zero(a) {
        adj
    } else {
        match n.op {
            NodeOp::Leaf => adj,
            NodeOp::Detach(x) => adj,
            NodeOp::Add(l, r) => acc_adj(acc_adj(adj, l as int, a), r as int, a),
            NodeOp::Sub(l, r) => acc_adj(acc_adj(adj, l as int, a), r as int, oneg(a)),
            NodeOp::Mul(l, r) => acc_adj(
                acc_adj(adj, l as int, omul(a, nodes[r as int].val)),
                r as int,
                omul(a, nodes[l as int].val),
            ),
            NodeOp::Div(l, r) => acc_adj(
                acc_adj(adj, l as int, odiv(a, nodes[r as int].val)),
                r as int,
                oneg(odiv(omul(a, nodes[l as int].val), omul(nodes[r as int].val, nodes[r as int].val))),
            ),
            NodeOp::Neg(x) => acc_adj(adj, x as int, oneg(a)),
            NodeOp::Sqrt(x) => acc_adj(adj, x as int, odiv(a, omul(Some(rat_two()), n.val))),
            NodeOp::Abs(x) => acc_adj(adj, x as int, abs_grad(a, nodes[x as int].val)),
            NodeOp::Select { cond, on_true, on_false } => if cond {
                acc_adj(adj, on_true as int, a)
            } else {
                acc_adj(adj, on_false as int, a)
            },
            NodeOp::Switch { key, cases, default_case } => match first_case(cases@, key) {
                Some(t) => acc_adj(adj, t as int, a),
                None => match default_case {
                    Some(d) => acc_adj(adj, d as int, a),
                    None => adj,
                },
            },
        }
    }
}

/// The initial accumulators: zero everywhere, one at the seeded output.
pub open spec fn init_adj(len: nat, out: int) -> Seq<Option<Rat>> {
    Seq::new(len, |j: int| if j == out {
        Some(Rat { num: 1, den: 1 })
    } else {
        Some(Rat { num: 0, den: 1 })
    })
}

/// The accumulators after the `k` highest-indexed nodes were processed, in
/// reverse creation order.
pub open spec fn run_back(nodes: Seq<Node>, adj: Seq<Option<Rat>>, k: nat) -> Seq<Option<Rat>>
    decreases k,
{
    if k == 0 {
        adj
    } else {
        node_back(nodes, run_back(nodes, adj, (k - 1) as nat), nodes.len() - k)
    }
}

/// All adjoint accumulators after a full backward pass seeded at `out`.
pub open spec fn backward_adjoints(nodes: Seq<Node>, out: int) -> Seq<Option<Rat>> {
    run_back(nodes, init_adj(nodes.len(), out), nodes.len())
}

/// A differentiation scope: the recorded trace, the open branch regions,
/// and — after `backward` — the adjoint accumulators.
#[derive(Debug)]
pub struct Tape {
    pub nodes: Vec<Node>,
    /// Which nodes were marked with `requires_grad`; parallel to `nodes`.
    pub grad_marks: Vec<bool>,
    /// Empty while recording; parallel to `nodes` after `backward`.
    pub adjoints: Vec<Option<Rat>>,
    pub phase: Phase,
    pub frames: Vec<Frame>,
    /// The conjunction of the predicates of the open regions.
    pub active: bool,
}

impl Tape {
    /// The scope's internal invariant.
    pub open spec fn wf(self) -> bool {
        &&& nodes_wf(self.nodes@)
        &&& self.grad_marks@.len() == self.nodes@.len()
        &&& forall|j: int| 0 <= j < self.frames@.len() ==> frame_wf(
            #[trigger] self.frames@[j],
            self.nodes@.len() as int,
        )
        &&& match self.phase {
            Phase::Recording => self.adjoints@.len() == 0,
            Phase::BackwardDone => {
                &&& self.adjoints@.len() == self.nodes@.len()
                &&& self.frames@.len() == 0
                &&& forall|j: int| 0 <= j < self.adjoints@.len() ==> val_wf(
                    #[trigger] self.adjoints@[j],
                )
            },
        }
    }

    /// Why recording a node would fail right now, if it would.
    pub open spec fn blocked(self) -> Option<AdError> {
        if self.phase != Phase::Recording {
            Some(AdError::RecordingFinished)
        } else if self.awaiting_case() {
            Some(AdError::BranchMismatch)
        } else {
            None
        }
    }

    /// A `switch` body is open but no case is: nodes may not be created
    /// here.
    pub open spec fn awaiting_case(self) -> bool {
        self.frames@.len() > 0 && (self.frames@.last() matches Frame::SwitchRegion {
            current: None,
            ..
        })
    }

    /// Everything except the node list (and its parallel marks) is as in
    /// `pre`, and one node was appended.
    pub open spec fn pushed_node(pre: Tape, post: Tape, op: NodeOp, v: Option<Rat>, id: usize) -> bool {
        &&& id == pre.nodes@.len()
        &&& post.nodes@ == pre.nodes@.push(Node { op, val: v, active: pre.active })
        &&& post.grad_marks@ == pre.grad_marks@.push(false)
        &&& post.adjoints@ == pre.adjoints@
        &&& post.phase == pre.phase
        &&& post.frames@ == pre.frames@
        &&& post.active == pre.active
    }

    /// A fresh scope in the `Recording` phase, with no nodes and no open
    /// regions.
    pub fn new() -> (t: Tape)
        ensures
            t.wf(),
            t.nodes@.len() == 0,
            t.grad_marks@.len() == 0,
            t.adjoints@.len() == 0,
            t.phase == Phase::Recording,
            t.frames@.len() == 0,
            t.active == true,
    {
        Tape {
            nodes: Vec::new(),
            grad_marks: Vec::new(),
            adjoints: Vec::new(),
            phase: Phase::Recording,
            frames: Vec::new(),
            active: true,
        }
    }

    /// The number of recorded nodes.
    pub fn node_count(&self) -> (r: usize)
        ensures
            r == self.nodes@.len(),
    {
        self.nodes.len()
    }

    /// The forward value of a node.
    pub fn value_of(&self, a: usize) -> (r: Result<Option<Rat>, AdError>)
        requires
            self.wf(),
        ensures
            match r {
                Ok(v) => a < self.nodes@.len() && v == self.nodes@[a as int].val,
                Err(e) => a >= self.nodes@.len() && e == AdError::UntrackedValue,
            },
    {
        if a >= self.nodes.len() {
            return Err(AdError::UntrackedValue);
        }
        Ok(self.nodes[a].val)
    }

    /// Whether node `a`'s value is strictly greater than node `b`'s; any
    /// undefined value compares false.
    pub fn greater_than(&self, a: usize, b: usize) -> (r: Result<bool, AdError>)
        requires
            self.wf(),
        ensures
            match r {
                Ok(v) => a < self.nodes@.len() && b < self.nodes@.len() && v == ogt(
                    self.nodes@[a as int].val,
                    self.nodes@[b as int].val,
                ),
                Err(e) => (a >= self.nodes@.len() || b >= self.nodes@.len()) && e
                    == AdError::UntrackedValue,
            },
    {
        if a >= self.nodes.len() || b >= self.nodes.len() {
            return Err(AdError::UntrackedValue);
        }
        Ok(opt_gt(self.nodes[a].val, self.nodes[b].val))
    }

    /// Whether node `a`'s value is strictly less than node `b`'s; any
    /// undefined value compares false.
    pub fn less_than(&self, a: usize, b: usize) -> (r: Result<bool, AdError>)
        requires
            self.wf(),
        ensures
            match r {
                Ok(v) => a < self.nodes@.len() && b < self.nodes@.len() && v == olt(
                    self.nodes@[a as int].val,
                    self.nodes@[b as int].val,
                ),
                Err(e) => (a >= self.nodes@.len() || b >= self.nodes@.len()) && e
                    == AdError::UntrackedValue,
            },
    {
        if a >= self.nodes.len() || b >= self.nodes.len() {
            return Err(AdError::UntrackedValue);
        }
        Ok(opt_lt(self.nodes[a].val, self.nodes[b].val))
    }

    /// Records a leaf holding the value `v`.
    pub fn constant(&mut self, v: Rat) -> (r: Result<usize, AdError>)
        requires
            old(self).wf(),
            v.wf(),
        ensures
            final(self).wf(),
            match r {
                Ok(id) => old(self).blocked() is None && Self::pushed_node(
                    *old(self),
                    *final(self),
                    NodeOp::Leaf,
                    Some(v),
                    id,
                ),
                Err(e) => *final(self) == *old(self) && old(self).blocked() == Some(e),
            },
    {
        if let Some(e) = self.blocked_now() {
            return Err(e);
        }
        let id: usize = self.nodes.len();
        self.nodes.push(Node { op: NodeOp::Leaf, val: Some(v), active: self.active });
        self.grad_marks.push(false);
        Ok(id)
    }

    /// Records the sum of two earlier nodes.
    pub fn plus(&mut self, a: usize, b: usize) -> (r: Result<usize, AdError>)
        requires
            old(self).wf(),
        ensures
            final(self).wf(),
            match r {
                Ok(id) => old(self).blocked() is None && a < old(self).nodes@.len() && b < old(
                    self,
                ).nodes@.len() && Self::pushed_node(
                    *old(self),
                    *final(self),
                    NodeOp::Add(a, b),
                    oadd(old(self).nodes@[a as int].val, old(self).nodes@[b as int].val),
                    id,
                ),
                Err(e) => *final(self) == *old(self) && match old(self).blocked() {
                    Some(b2) => e == b2,
                    None => (a >= old(self).nodes@.len() || b >= old(self).nodes@.len()) && e
                        == AdError::UntrackedValue,
                },
            },
    {
        if let Some(e) = self.blocked_now() {
            return Err(e);
        }
        if a >= self.nodes.len() || b >= self.nodes.len() {
            return Err(AdError::UntrackedValue);
        }
        let va: Option<Rat> = self.nodes[a].val;
        let vb: Option<Rat> = self.nodes[b].val;
        let v: Option<Rat> = opt_add(va, vb);
        proof {
            lemma_ops_preserve_wf(va, vb);
        }
        let id: usize = self.nodes.len();
        self.nodes.push(Node { op: NodeOp::Add(a, b), val: v, active: self.active });
        self.grad_marks.push(false);
        Ok(id)
    }

    /// Records the difference of two earlier nodes.
    pub fn minus(&mut self, a: usize, b: usize) -> (r: Result<usize, AdError>)
        requires
            old(self).wf(),
        ensures
            final(self).wf(),
            match r {
                Ok(id) => old(self).blocked() is None && a < old(self).nodes@.len() && b < old(
                    self,
                ).nodes@.len() && Self::pushed_node(
                    *old(self),
                    *final(self),
                    NodeOp::Sub(a, b),
                    osub(old(self).nodes@[a as int].val, old(self).nodes@[b as int].val),
                    id,
                ),
                Err(e) => *final(self) == *old(self) && match old(self).blocked() {
                    Some(b2) => e == b2,
                    None => (a >= old(self).nodes@.len() || b >= old(self).nodes@.len()) && e
                        == AdError::UntrackedValue,
                },
            },
    {
        if let Some(e) = self.blocked_now() {
            return Err(e);
        }
        if a >= self.nodes.len() || b >= self.nodes.len() {
            return Err(AdError::UntrackedValue);
        }
        let va: Option<Rat> = self.nodes[a].val;
        let vb: Option<Rat> = self.nodes[b].val;
        let v: Option<Rat> = opt_sub(va, vb);
        proof {
            lemma_ops_preserve_wf(va, vb);
        }
        let id: usize = self.nodes.len();
        self.nodes.push(Node { op: NodeOp::Sub(a, b), val: v, active: self.active });
        self.grad_marks.push(false);
        Ok(id)
    }

    /// Records the product of two earlier nodes.
    pub fn times(&mut self, a: usize, b: usize) -> (r: Result<usize, AdError>)
        requires
            old(self).wf(),
        ensures
            final(self).wf(),
            match r {
                Ok(id) => old(self).blocked() is None && a < old(self).nodes@.len() && b < old(
                    self,
                ).nodes@.len() && Self::pushed_node(
                    *old(self),
                    *final(self),
                    NodeOp::Mul(a, b),
                    omul(old(self).nodes@[a as int].val, old(self).nodes@[b as int].val),
                    id,
                ),
                Err(e) => *final(self) == *old(self) && match old(self).blocked() {
                    Some(b2) => e == b2,
                    None => (a >= old(self).nodes@.len() || b >= old(self).nodes@.len()) && e
                        == AdError::UntrackedValue,
                },
            },
    {
        if let Some(e) = self.blocked_now() {
            return Err(e);
        }
        if a >= self.nodes.len() || b >= self.nodes.len() {
            return Err(AdError::UntrackedValue);
        }
        let va: Option<Rat> = self.nodes[a].val;
        let vb: Option<Rat> = self.nodes[b].val;
        let v: Option<Rat> = opt_mul(va, vb);
        proof {
            lemma_ops_preserve_wf(va, vb);
        }
        let id: usize = self.nodes.len();
        self.nodes.push(Node { op: NodeOp::Mul(a, b), val: v, active: self.active });
        self.grad_marks.push(false);
        Ok(id)
    }

    /// Records the quotient of two earlier nodes.
    pub fn divide(&mut self, a: usize, b: usize) -> (r: Result<usize, AdError>)
        requires
            old(self).wf(),
        ensures
            final(self).wf(),
            match r {
                Ok(id) => old(self).blocked() is None && a < old(self).nodes@.len() && b < old(
                    self,
                ).nodes@.len() && Self::pushed_node(
                    *old(self),
                    *final(self),
                    NodeOp::Div(a, b),
                    odiv(old(self).nodes@[a as int].val, old(self).nodes@[b as int].val),
                    id,
                ),
                Err(e) => *final(self) == *old(self) && match old(self).blocked() {
                    Some(b2) => e == b2,
                    None => (a >= old(self).nodes@.len() || b >= old(self).nodes@.len()) && e
                        == AdError::UntrackedValue,
                },
            },
    {
        if let Some(e) = self.blocked_now() {
            return Err(e);
        }
        if a >= self.nodes.len() || b >= self.nodes.len() {
            return Err(AdError::UntrackedValue);
        }
        let va: Option<Rat> = self.nodes[a].val;
        let vb: Option<Rat> = self.nodes[b].val;
        let v: Option<Rat> = opt_div(va, vb);
        proof {
            lemma_ops_preserve_wf(va, vb);
        }
        let id: usize = self.nodes.len();
        self.nodes.push(Node { op: NodeOp::Div(a, b), val: v, active: self.active });
        self.grad_marks.push(false);
        Ok(id)
    }

    /// Records the negation of an earlier node.
    pub fn negate(&mut self, a: usize) -> (r: Result<usize, AdError>)
        requires
            old(self).wf(),
        ensures
            final(self).wf(),
            match r {
                Ok(id) => old(self).blocked() is None && a < old(self).nodes@.len()
                    && Self::pushed_node(
                    *old(self),
                    *final(self),
                    NodeOp::Neg(a),
                    oneg(old(self).nodes@[a as int].val),
                    id,
                ),
                Err(e) => *final(self) == *old(self) && match old(self).blocked() {
                    Some(b2) => e == b2,
                    None => a >= old(self).nodes@.len() && e == AdError::UntrackedValue,
                },
            },
    {
        if let Some(e) = self.blocked_now() {
            return Err(e);
        }
        if a >= self.nodes.len() {
            return Err(AdError::UntrackedValue);
        }
        let va: Option<Rat> = self.nodes[a].val;
        let v: Option<Rat> = opt_neg(va);
        proof {
            lemma_ops_preserve_wf(va, va);
        }
        let id: usize = self.nodes.len();
        self.nodes.push(Node { op: NodeOp::Neg(a), val: v, active: self.active });
        self.grad_marks.push(false);
        Ok(id)
    }

    /// Records the square root of an earlier node.  On a negative operand
    /// the stored value is undefined, as it is for a lane that evaluates an
    /// untaken branch.
    pub fn square_root(&mut self, a: usize) -> (r: Result<usize, AdError>)
        requires
            old(self).wf(),
        ensures
            final(self).wf(),
            match r {
                Ok(id) => old(self).blocked() is None && a < old(self).nodes@.len()
                    && Self::pushed_node(
                    *old(self),
                    *final(self),
                    NodeOp::Sqrt(a),
                    osqrt(old(self).nodes@[a as int].val),
                    id,
                ),
                Err(e) => *final(self) == *old(self) && match old(self).blocked() {
                    Some(b2) => e == b2,
                    None => a >= old(self).nodes@.len() && e == AdError::UntrackedValue,
                },
            },
    {
        if let Some(e) = self.blocked_now() {
            return Err(e);
        }
        if a >= self.nodes.len() {
            return Err(AdError::UntrackedValue);
        }
        let va: Option<Rat> = self.nodes[a].val;
        let v: Option<Rat> = opt_sqrt(va);
        proof {
            lemma_ops_preserve_wf(va, va);
        }
        let id: usize = self.nodes.len();
        self.nodes.push(Node { op: NodeOp::Sqrt(a), val: v, active: self.active });
        self.grad_marks.push(false);
        Ok(id)
    }

    /// Records the absolute value of an earlier node.
    pub fn absolute(&mut self, a: usize) -> (r: Result<usize, AdError>)
        requires
            old(self).wf(),
        ensures
            final(self).wf(),
            match r {
                Ok(id) => old(self).blocked() is None && a < old(self).nodes@.len()
                    && Self::pushed_node(
                    *old(self),
                    *final(self),
                    NodeOp::Abs(a),
                    oabs(old(self).nodes@[a as int].val),
                    id,
                ),
                Err(e) => *final(self) == *old(self) && match old(self).blocked() {
                    Some(b2) => e == b2,
                    None => a >= old(self).nodes@.len() && e == AdError::UntrackedValue,
                },
            },
    {
        if let Some(e) = self.blocked_now() {
            return Err(e);
        }
        if a >= self.nodes.len() {
            return Err(AdError::UntrackedValue);
        }
        let va: Option<Rat> = self.nodes[a].val;
        let v: Option<Rat> = opt_abs(va);
        proof {
            lemma_ops_preserve_wf(va, va);
        }
        let id: usize = self.nodes.len();
        self.nodes.push(Node { op: NodeOp::Abs(a), val: v, active: self.active });
        self.grad_marks.push(false);
        Ok(id)
    }

    /// Records a stop-gradient marker: the new node forwards `a`'s value
    /// unchanged but no adjoint ever flows through it to `a`.
    pub fn detach(&mut self, a: usize) -> (r: Result<usize, AdError>)
        requires
            old(self).wf(),
        ensures
            final(self).wf(),
            match r {
                Ok(id) => old(self).blocked() is None && a < old(self).nodes@.len()
                    && Self::pushed_node(
                    *old(self),
                    *final(self),
                    NodeOp::Detach(a),
                    old(self).nodes@[a as int].val,
                    id,
                ),
                Err(e) => *final(self) == *old(self) && match old(self).blocked() {
                    Some(b2) => e == b2,
                    None => a >= old(self).nodes@.len() && e == AdError::UntrackedValue,
                },
            },
    {
        if let Some(e) = self.blocked_now() {
            return Err(e);
        }
        if a >= self.nodes.len() {
            return Err(AdError::UntrackedValue);
        }
        let va: Option<Rat> = self.nodes[a].val;
        let id: usize = self.nodes.len();
        self.nodes.push(Node { op: NodeOp::Detach(a), val: va, active: self.active });
        self.grad_marks.push(false);
        Ok(id)
    }

    /// Records a two-way merge directly: per lane, the taken side's value,
    /// and during backward the whole adjoint to the taken side and exactly
    /// zero to the other.
    pub fn select(&mut self, cond: bool, on_true: usize, on_false: usize) -> (r: Result<
        usize,
        AdError,
    >)
        requires
            old(self).wf(),
        ensures
            final(self).wf(),
            match r {
                Ok(id) => old(self).blocked() is None && on_true < old(self).nodes@.len()
                    && on_false < old(self).nodes@.len() && Self::pushed_node(
                    *old(self),
                    *final(self),
                    NodeOp::Select { cond, on_true, on_false },
                    if cond {
                        old(self).nodes@[on_true as int].val
                    } else {
                        old(self).nodes@[on_false as int].val
                    },
                    id,
                ),
                Err(e) => *final(self) == *old(self) && match old(self).blocked() {
                    Some(b2) => e == b2,
                    None => (on_true >= old(self).nodes@.len() || on_false >= old(
                        self,
                    ).nodes@.len()) && e == AdError::UntrackedValue,
                },
            },
    {
        if let Some(e) = self.blocked_now() {
            return Err(e);
        }
        if on_true >= self.nodes.len() || on_false >= self.nodes.len() {
            return Err(AdError::UntrackedValue);
        }
        let v: Option<Rat> = if cond {
            self.nodes[on_true].val
        } else {
            self.nodes[on_false].val
        };
        let id: usize = self.nodes.len();
        self.nodes.push(Node {
            op: NodeOp::Select { cond, on_true, on_false },
            val: v,
            active: self.active,
        });
        self.grad_marks.push(false);
        Ok(id)
    }

    /// Marks a node as a gradient-observable leaf.
    pub fn requires_grad(&mut self, a: usize) -> (r: Result<(), AdError>)
        requires
            old(self).wf(),
        ensures
            final(self).wf(),
            match r {
                Ok(u) => {
                    &&& old(self).phase == Phase::Recording
                    &&& a < old(self).nodes@.len()
                    &&& final(self).grad_marks@ == old(self).grad_marks@.update(a as int, true)
                    &&& final(self).nodes@ == old(self).nodes@
                    &&& final(self).adjoints@ == old(self).adjoints@
                    &&& final(self).phase == old(self).phase
                    &&& final(self).frames@ == old(self).frames@
                    &&& final(self).active == old(self).active
                },
                Err(e) => *final(self) == *old(self) && if old(self).phase != Phase::Recording {
                    e == AdError::RecordingFinished
                } else {
                    a >= old(self).nodes@.len() && e == AdError::UntrackedValue
                },
            },
    {
        if self.phase != Phase::Recording {
            return Err(AdError::RecordingFinished);
        }
        if a >= self.nodes.len() {
            return Err(AdError::UntrackedValue);
        }
        self.grad_marks.set(a, true);
        Ok(())
    }

    /// The accumulated adjoint of a marked leaf, after a backward pass.
    pub fn gradient(&self, a: usize) -> (r: Result<Option<Rat>, AdError>)
        requires
            self.wf(),
        ensures
            match r {
                Ok(g) => {
                    &&& self.phase == Phase::BackwardDone
                    &&& a < self.nodes@.len()
                    &&& self.grad_marks@[a as int]
                    &&& g == self.adjoints@[a as int]
                    &&& val_wf(g)
                },
                Err(e) => if self.phase != Phase::BackwardDone {
                    e == AdError::NoActiveBackwardPass
                } else if a >= self.nodes@.len() {
                    e == AdError::UntrackedValue
                } else {
                    !self.grad_marks@[a as int] && e == AdError::NotALeaf
                },
            },
    {
        if self.phase != Phase::BackwardDone {
            return Err(AdError::NoActiveBackwardPass);
        }
        if a >= self.nodes.len() {
            return Err(AdError::UntrackedValue);
        }
        if !self.grad_marks[a] {
            return Err(AdError::NotALeaf);
        }
        Ok(self.adjoints[a])
    }

    /// Opens an `if` region.  Nodes recorded until `begin_else` belong to
    /// the then-side and are active only for lanes whose condition holds.
    pub fn begin_if(&mut self, cond: bool) -> (r: Result<(), AdError>)
        requires
            old(self).wf(),
        ensures
            final(self).wf(),
            match r {
                Ok(u) => {
                    &&& old(self).blocked() is None
                    &&& final(self).frames@ == old(self).frames@.push(
                        Frame::IfRegion { cond, prev_active: old(self).active, then_val: None },
                    )
                    &&& final(self).active == (old(self).active && cond)
                    &&& final(self).nodes@ == old(self).nodes@
                    &&& final(self).grad_marks@ == old(self).grad_marks@
                    &&& final(self).adjoints@ == old(self).adjoints@
                    &&& final(self).phase == old(self).phase
                },
                Err(e) => *final(self) == *old(self) && old(self).blocked() == Some(e),
            },
    {
        if let Some(e) = self.blocked_now() {
            return Err(e);
        }
        let prev: bool = self.active;
        self.frames.push(Frame::IfRegion { cond, prev_active: prev, then_val: None });
        self.active = prev && cond;
        Ok(())
    }

    /// Closes the then-side of the innermost `if`, remembering its value,
    /// and opens the else-side.
    pub fn begin_else(&mut self, then_val: usize) -> (r: Result<(), AdError>)
        requires
            old(self).wf(),
        ensures
            final(self).wf(),
            match r {
                Ok(u) => {
                    &&& old(self).phase == Phase::Recording
                    &&& old(self).frames@.len() > 0
                    &&& then_val < old(self).nodes@.len()
                    &&& (old(self).frames@.last() matches Frame::IfRegion {
                        cond,
                        prev_active,
                        then_val: None,
                    } && {
                        &&& final(self).frames@ == old(self).frames@.update(
                            old(self).frames@.len() - 1,
                            Frame::IfRegion { cond, prev_active, then_val: Some(then_val) },
                        )
                        &&& final(self).active == (prev_active && !cond)
                    })
                    &&& final(self).nodes@ == old(self).nodes@
                    &&& final(self).grad_marks@ == old(self).grad_marks@
                    &&& final(self).adjoints@ == old(self).adjoints@
                    &&& final(self).phase == old(self).phase
                },
                Err(e) => *final(self) == *old(self) && if old(self).phase != Phase::Recording {
                    e == AdError::RecordingFinished
                } else if !(old(self).frames@.len() > 0 && (old(self).frames@.last()
                    matches Frame::IfRegion { then_val: None, .. })) {
                    e == AdError::BranchMismatch
                } else {
                    then_val >= old(self).nodes@.len() && e == AdError::UntrackedValue
                },
            },
    {
        if self.phase != Phase::Recording {
            return Err(AdError::RecordingFinished);
        }
        if self.frames.len() == 0 {
            return Err(AdError::BranchMismatch);
        }
        let li: usize = self.frames.len() - 1;
        match &self.frames[li] {
            Frame::IfRegion { then_val: None, .. } => {},
            _ => {
                return Err(AdError::BranchMismatch);
            },
        }
        if then_val >= self.nodes.len() {
            return Err(AdError::UntrackedValue);
        }
        let f: Frame = self.frames.pop().unwrap();
        match f {
            Frame::IfRegion { cond, prev_active, then_val: _ } => {
                self.frames.push(
                    Frame::IfRegion { cond, prev_active, then_val: Some(then_val) },
                );
                self.active = prev_active && !cond;
                proof {
                    assert(final(self).frames@ =~= old(self).frames@.update(
                        old(self).frames@.len() - 1,
                        Frame::IfRegion { cond, prev_active, then_val: Some(then_val) },
                    ));
                }
                Ok(())
            },
            Frame::SwitchRegion { .. } => {
                proof {
                    assert(false);
                }
                Err(AdError::BranchMismatch)
            },
        }
    }

    /// Closes the innermost `if`, recording its merge node: the taken
    /// side's value flows forward, and during backward the whole adjoint
    /// goes to the taken side and exactly zero to the other.
    pub fn end_if(&mut self, else_val: usize) -> (r: Result<usize, AdError>)
        requires
            old(self).wf(),
        ensures
            final(self).wf(),
            match r {
                Ok(id) => {
                    &&& old(self).phase == Phase::Recording
                    &&& old(self).frames@.len() > 0
                    &&& else_val < old(self).nodes@.len()
                    &&& id == old(self).nodes@.len()
                    &&& (old(self).frames@.last() matches Frame::IfRegion {
                        cond,
                        prev_active,
                        then_val: Some(tv),
                    } && {
                        &&& final(self).nodes@ == old(self).nodes@.push(
                            Node {
                                op: NodeOp::Select { cond, on_true: tv, on_false: else_val },
                                val: if cond {
                                    old(self).nodes@[tv as int].val
                                } else {
                                    old(self).nodes@[else_val as int].val
                                },
                                active: prev_active,
                            },
                        )
                        &&& final(self).active == prev_active
                    })
                    &&& final(self).frames@ == old(self).frames@.drop_last()
                    &&& final(self).grad_marks@ == old(self).grad_marks@.push(false)
                    &&& final(self).adjoints@ == old(self).adjoints@
                    &&& final(self).phase == old(self).phase
                },
                Err(e) => *final(self) == *old(self) && if old(self).phase != Phase::Recording {
                    e == AdError::RecordingFinished
                } else if !(old(self).frames@.len() > 0 && (old(self).frames@.last()
                    matches Frame::IfRegion { then_val: Some(tv), .. })) {
                    e == AdError::BranchMismatch
                } else {
                    else_val >= old(self).nodes@.len() && e == AdError::UntrackedValue
                },
            },
    {
        if self.phase != Phase::Recording {
            return Err(AdError::RecordingFinished);
        }
        if self.frames.len() == 0 {
            return Err(AdError::BranchMismatch);
        }
        let li: usize = self.frames.len() - 1;
        match &self.frames[li] {
            Frame::IfRegion { then_val: Some(_), .. } => {},
            _ => {
                return Err(AdError::BranchMismatch);
            },
        }
        if else_val >= self.nodes.len() {
            return Err(AdError::UntrackedValue);
        }
        let f: Frame = self.frames.pop().unwrap();
        match f {
            Frame::IfRegion { cond, prev_active, then_val: Some(tv) } => {
                let v: Option<Rat> = if cond {
                    self.nodes[tv].val
                } else {
                    self.nodes[else_val].val
                };
                let id: usize = self.nodes.len();
                self.nodes.push(
                    Node {
                        op: NodeOp::Select { cond, on_true: tv, on_false: else_val },
                        val: v,
                        active: prev_active,
                    },
                );
                self.grad_marks.push(false);
                self.active = prev_active;
                Ok(id)
            },
            _ => {
                proof {
                    assert(false);
                }
                Err(AdError::BranchMismatch)
            },
        }
    }

    /// Opens a `switch` region keyed by `key`.  Until a case is opened, no
    /// node may be recorded.
    pub fn begin_switch(&mut self, key: i64) -> (r: Result<(), AdError>)
        requires
            old(self).wf(),
        ensures
            final(self).wf(),
            match r {
                Ok(u) => {
                    &&& old(self).blocked() is None
                    &&& final(self).frames@.len() == old(self).frames@.len() + 1
                    &&& final(self).frames@.drop_last() == old(self).frames@
                    &&& (final(self).frames@.last() matches Frame::SwitchRegion {
                        key: k2,
                        prev_active: p2,
                        cases: c2,
                        default_val: None,
                        current: None,
                    } && k2 == key && p2 == old(self).active && c2@.len() == 0)
                    &&& final(self).active == old(self).active
                    &&& final(self).nodes@ == old(self).nodes@
                    &&& final(self).grad_marks@ == old(self).grad_marks@
                    &&& final(self).adjoints@ == old(self).adjoints@
                    &&& final(self).phase == old(self).phase
                },
                Err(e) => *final(self) == *old(self) && old(self).blocked() == Some(e),
            },
    {
        if let Some(e) = self.blocked_now() {
            return Err(e);
        }
        let prev: bool = self.active;
        self.frames.push(
            Frame::SwitchRegion {
                key,
                prev_active: prev,
                cases: Vec::new(),
                default_val: None,
                current: None,
            },
        );
        proof {
            assert(final(self).frames@.drop_last() =~= old(self).frames@);
        }
        Ok(())
    }

    /// Opens a case with the given tag inside the innermost `switch`.
    /// Nodes recorded in it are active only for lanes whose key equals the
    /// tag and matched no earlier case.
    pub fn begin_case(&mut self, tag: i64) -> (r: Result<(), AdError>)
        requires
            old(self).wf(),
        ensures
            final(self).wf(),
            match r {
                Ok(u) => {
                    &&& old(self).phase == Phase::Recording
                    &&& old(self).frames@.len() > 0
                    &&& (old(self).frames@.last() matches Frame::SwitchRegion {
                        key,
                        prev_active,
                        cases,
                        default_val: None,
                        current: None,
                    } && {
                        &&& final(self).frames@ == old(self).frames@.update(
                            old(self).frames@.len() - 1,
                            Frame::SwitchRegion {
                                key,
                                prev_active,
                                cases,
                                default_val: None,
                                current: Some(CaseSel::Tagged(tag)),
                            },
                        )
                        &&& final(self).active == (prev_active && tag == key && first_case(
                            cases@,
                            key,
                        ) is None)
                    })
                    &&& final(self).nodes@ == old(self).nodes@
                    &&& final(self).grad_marks@ == old(self).grad_marks@
                    &&& final(self).adjoints@ == old(self).adjoints@
                    &&& final(self).phase == old(self).phase
                },
                Err(e) => *final(self) == *old(self) && if old(self).phase != Phase::Recording {
                    e == AdError::RecordingFinished
                } else {
                    !(old(self).frames@.len() > 0 && (old(self).frames@.last()
                        matches Frame::SwitchRegion { default_val: None, current: None, .. })) && e
                        == AdError::BranchMismatch
                },
            },
    {
        if self.phase != Phase::Recording {
            return Err(AdError::RecordingFinished);
        }
        if self.frames.len() == 0 {
            return Err(AdError::BranchMismatch);
        }
        let li: usize = self.frames.len() - 1;
        match &self.frames[li] {
            Frame::SwitchRegion { default_val: None, current: None, .. } => {},
            _ => {
                return Err(AdError::BranchMismatch);
            },
        }
        let f: Frame = self.frames.pop().unwrap();
        match f {
            Frame::SwitchRegion { key, prev_active, cases, default_val: _, current: _ } => {
                let unmatched: bool = find_case(&cases, key).is_none();
                let mask: bool = prev_active && tag == key && unmatched;
                self.frames.push(
                    Frame::SwitchRegion {
                        key,
                        prev_active,
                        cases,
                        default_val: None,
                        current: Some(CaseSel::Tagged(tag)),
                    },
                );
                self.active = mask;
                proof {
                    assert(final(self).frames@ =~= old(self).frames@.update(
                        old(self).frames@.len() - 1,
                        final(self).frames@.last(),
                    ));
                }
                Ok(())
            },
            _ => {
                proof {
                    assert(false);
                }
                Err(AdError::BranchMismatch)
            },
        }
    }

    /// Closes the open case, remembering `v` as its value.
    pub fn end_case(&mut self, v: usize) -> (r: Result<(), AdError>)
        requires
            old(self).wf(),
        ensures
            final(self).wf(),
            match r {
                Ok(u) => {
                    &&& old(self).phase == Phase::Recording
                    &&& old(self).frames@.len() > 0
                    &&& v < old(self).nodes@.len()
                    &&& (old(self).frames@.last() matches Frame::SwitchRegion {
                        key,
                        prev_active,
                        cases,
                        default_val,
                        current: Some(CaseSel::Tagged(t)),
                    } && {
                        &&& final(self).frames@.len() == old(self).frames@.len()
                        &&& final(self).frames@.drop_last() == old(self).frames@.drop_last()
                        &&& (final(self).frames@.last() matches Frame::SwitchRegion {
                            key: k2,
                            prev_active: p2,
                            cases: c2,
                            default_val: d2,
                            current: None,
                        } && k2 == key && p2 == prev_active && d2 == default_val && c2@ == cases@.push(
                            (t, v),
                        ))
                        &&& final(self).active == prev_active
                    })
                    &&& final(self).nodes@ == old(self).nodes@
                    &&& final(self).grad_marks@ == old(self).grad_marks@
                    &&& final(self).adjoints@ == old(self).adjoints@
                    &&& final(self).phase == old(self).phase
                },
                Err(e) => *final(self) == *old(self) && if old(self).phase != Phase::Recording {
                    e == AdError::RecordingFinished
                } else if !(old(self).frames@.len() > 0 && (old(self).frames@.last()
                    matches Frame::SwitchRegion { current: Some(CaseSel::Tagged(t)), .. })) {
                    e == AdError::BranchMismatch
                } else {
                    v >= old(self).nodes@.len() && e == AdError::UntrackedValue
                },
            },
    {
        if self.phase != Phase::Recording {
            return Err(AdError::RecordingFinished);
        }
        if self.frames.len() == 0 {
            return Err(AdError::BranchMismatch);
        }
        let li: usize = self.frames.len() - 1;
        match &self.frames[li] {
            Frame::SwitchRegion { current: Some(CaseSel::Tagged(_)), .. } => {},
            _ => {
                return Err(AdError::BranchMismatch);
            },
        }
        if v >= self.nodes.len() {
            return Err(AdError::UntrackedValue);
        }
        let f: Frame = self.frames.pop().unwrap();
        match f {
            Frame::SwitchRegion {
                key,
                prev_active,
                mut cases,
                default_val,
                current: Some(CaseSel::Tagged(t)),
            } => {
                cases.push((t, v));
                self.frames.push(
                    Frame::SwitchRegion { key, prev_active, cases, default_val, current: None },
                );
                self.active = prev_active;
                proof {
                    assert(final(self).frames@.drop_last() =~= old(self).frames@.drop_last());
                }
                Ok(())
            },
            _ => {
                proof {
                    assert(false);
                }
                Err(AdError::BranchMismatch)
            },
        }
    }

    /// Opens the default case of the innermost `switch`, after all tagged
    /// cases.  Its nodes are active only for lanes that matched no case.
    pub fn begin_default(&mut self) -> (r: Result<(), AdError>)
        requires
            old(self).wf(),
        ensures
            final(self).wf(),
            match r {
                Ok(u) => {
                    &&& old(self).phase == Phase::Recording
                    &&& old(self).frames@.len() > 0
                    &&& (old(self).frames@.last() matches Frame::SwitchRegion {
                        key,
                        prev_active,
                        cases,
                        default_val: None,
                        current: None,
                    } && {
                        &&& final(self).frames@ == old(self).frames@.update(
                            old(self).frames@.len() - 1,
                            Frame::SwitchRegion {
                                key,
                                prev_active,
                                cases,
                                default_val: None,
                                current: Some(CaseSel::Fallback),
                            },
                        )
                        &&& final(self).active == (prev_active && first_case(cases@, key) is None)
                    })
                    &&& final(self).nodes@ == old(self).nodes@
                    &&& final(self).grad_marks@ == old(self).grad_marks@
                    &&& final(self).adjoints@ == old(self).adjoints@
                    &&& final(self).phase == old(self).phase
                },
                Err(e) => *final(self) == *old(self) && if old(self).phase != Phase::Recording {
                    e == AdError::RecordingFinished
                } else {
                    !(old(self).frames@.len() > 0 && (old(self).frames@.last()
                        matches Frame::SwitchRegion { default_val: None, current: None, .. })) && e
                        == AdError::BranchMismatch
                },
            },
    {
        if self.phase != Phase::Recording {
            return Err(AdError::RecordingFinished);
        }
        if self.frames.len() == 0 {
            return Err(AdError::BranchMismatch);
        }
        let li: usize = self.frames.len() - 1;
        match &self.frames[li] {
            Frame::SwitchRegion { default_val: None, current: None, .. } => {},
            _ => {
                return Err(AdError::BranchMismatch);
            },
        }
        let f: Frame = self.frames.pop().unwrap();
        match f {
            Frame::SwitchRegion { key, prev_active, cases, default_val: _, current: _ } => {
                let unmatched: bool = find_case(&cases, key).is_none();
                let mask: bool = prev_active && unmatched;
                self.frames.push(
                    Frame::SwitchRegion {
                        key,
                        prev_active,
                        cases,
                        default_val: None,
                        current: Some(CaseSel::Fallback),
                    },
                );
                self.active = mask;
                proof {
                    assert(final(self).frames@ =~= old(self).frames@.update(
                        old(self).frames@.len() - 1,
                        final(self).frames@.last(),
                    ));
                }
                Ok(())
            },
            _ => {
                proof {
                    assert(false);
                }
                Err(AdError::BranchMismatch)
            },
        }
    }

    /// Closes the default case, remembering `v` as its value.
    pub fn end_default(&mut self, v: usize) -> (r: Result<(), AdError>)
        requires
            old(self).wf(),
        ensures
            final(self).wf(),
            match r {
                Ok(u) => {
                    &&& old(self).phase == Phase::Recording
                    &&& old(self).frames@.len() > 0
                    &&& v < old(self).nodes@.len()
                    &&& (old(self).frames@.last() matches Frame::SwitchRegion {
                        key,
                        prev_active,
                        cases,
                        default_val,
                        current: Some(CaseSel::Fallback),
                    } && {
                        &&& final(self).frames@ == old(self).frames@.update(
                            old(self).frames@.len() - 1,
                            Frame::SwitchRegion {
                                key,
                                prev_active,
                                cases,
                                default_val: Some(v),
                                current: None,
                            },
                        )
                        &&& final(self).active == prev_active
                    })
                    &&& final(self).nodes@ == old(self).nodes@
                    &&& final(self).grad_marks@ == old(self).grad_marks@
                    &&& final(self).adjoints@ == old(self).adjoints@
                    &&& final(self).phase == old(self).phase
                },
                Err(e) => *final(self) == *old(self) && if old(self).phase != Phase::Recording {
                    e == AdError::RecordingFinished
                } else if !(old(self).frames@.len() > 0 && (old(self).frames@.last()
                    matches Frame::SwitchRegion { current: Some(CaseSel::Fallback), .. })) {
                    e == AdError::BranchMismatch
                } else {
                    v >= old(self).nodes@.len() && e == AdError::UntrackedValue
                },
            },
    {
        if self.phase != Phase::Recording {
            return Err(AdError::RecordingFinished);
        }
        if self.frames.len() == 0 {
            return Err(AdError::BranchMismatch);
        }
        let li: usize = self.frames.len() - 1;
        match &self.frames[li] {
            Frame::SwitchRegion { current: Some(CaseSel::Fallback), .. } => {},
            _ => {
                return Err(AdError::BranchMismatch);
            },
        }
        if v >= self.nodes.len() {
            return Err(AdError::UntrackedValue);
        }
        let f: Frame = self.frames.pop().unwrap();
        match f {
            Frame::SwitchRegion { key, prev_active, cases, default_val: _, current: _ } => {
                self.frames.push(
                    Frame::SwitchRegion {
                        key,
                        prev_active,
                        cases,
                        default_val: Some(v),
                        current: None,
                    },
                );
                self.active = prev_active;
                proof {
                    assert(final(self).frames@ =~= old(self).frames@.update(
                        old(self).frames@.len() - 1,
                        final(self).frames@.last(),
                    ));
                }
                Ok(())
            },
            _ => {
                proof {
                    assert(false);
                }
                Err(AdError::BranchMismatch)
            },
        }
    }

    /// Closes the innermost `switch`, recording its merge node.  Per lane
    /// the first case whose tag equals the key supplies the value and
    /// receives the whole adjoint; every other case receives exactly zero.
    pub fn end_switch(&mut self) -> (r: Result<usize, AdError>)
        requires
            old(self).wf(),
        ensures
            final(self).wf(),
            match r {
                Ok(id) => {
                    &&& old(self).phase == Phase::Recording
                    &&& old(self).frames@.len() > 0
                    &&& id == old(self).nodes@.len()
                    &&& (old(self).frames@.last() matches Frame::SwitchRegion {
                        key,
                        prev_active,
                        cases,
                        default_val,
                        current: None,
                    } && {
                        &&& final(self).nodes@ == old(self).nodes@.push(
                            Node {
                                op: NodeOp::Switch { key, cases, default_case: default_val },
                                val: switch_value(old(self).nodes@, cases@, default_val, key),
                                active: prev_active,
                            },
                        )
                        &&& final(self).active == prev_active
                    })
                    &&& final(self).frames@ == old(self).frames@.drop_last()
                    &&& final(self).grad_marks@ == old(self).grad_marks@.push(false)
                    &&& final(self).adjoints@ == old(self).adjoints@
                    &&& final(self).phase == old(self).phase
                },
                Err(e) => *final(self) == *old(self) && if old(self).phase != Phase::Recording {
                    e == AdError::RecordingFinished
                } else {
                    !(old(self).frames@.len() > 0 && (old(self).frames@.last()
                        matches Frame::SwitchRegion { current: None, .. })) && e
                        == AdError::BranchMismatch
                },
            },
    {
        if self.phase != Phase::Recording {
            return Err(AdError::RecordingFinished);
        }
        if self.frames.len() == 0 {
            return Err(AdError::BranchMismatch);
        }
        let li: usize = self.frames.len() - 1;
        match &self.frames[li] {
            Frame::SwitchRegion { current: None, .. } => {},
            _ => {
                return Err(AdError::BranchMismatch);
            },
        }
        let f: Frame = self.frames.pop().unwrap();
        match f {
            Frame::SwitchRegion { key, prev_active, cases, default_val, current: _ } => {
                proof {
                    assert(frame_wf(old(self).frames@.last(), old(self).nodes@.len() as int));
                    lemma_first_case_in_range(cases@, key, self.nodes@.len() as int, 0);
                }
                let v: Option<Rat> = match find_case(&cases, key) {
                    Some(t) => self.nodes[t].val,
                    None => match default_val {
                        Some(d) => self.nodes[d].val,
                        None => None,
                    },
                };
                let id: usize = self.nodes.len();
                self.nodes.push(
                    Node {
                        op: NodeOp::Switch { key, cases, default_case: default_val },
                        val: v,
                        active: prev_active,
                    },
                );
                self.grad_marks.push(false);
                self.active = prev_active;
                Ok(id)
            },
            _ => {
                proof {
                    assert(false);
                }
                Err(AdError::BranchMismatch)
            },
        }
    }

    /// Seeds the output's adjoint to one and walks the trace in exact
    /// reverse creation order, accumulating every operand's adjoint.  The
    /// scope moves to `BackwardDone`; gradients of marked leaves may then
    /// be read.
    #[verifier::loop_isolation(false)]
    pub fn backward(&mut self, out: usize) -> (r: Result<(), AdError>)
        requires
            old(self).wf(),
        ensures
            final(self).wf(),
            match r {
                Ok(u) => {
                    &&& old(self).phase == Phase::Recording
                    &&& old(self).frames@.len() == 0
                    &&& out < old(self).nodes@.len()
                    &&& final(self).adjoints@ == backward_adjoints(old(self).nodes@, out as int)
                    &&& final(self).phase == Phase::BackwardDone
                    &&& final(self).nodes@ == old(self).nodes@
                    &&& final(self).grad_marks@ == old(self).grad_marks@
                    &&& final(self).frames@ == old(self).frames@
                    &&& final(self).active == old(self).active
                },
                Err(e) => *final(self) == *old(self) && if old(self).phase != Phase::Recording {
                    e == AdError::RecordingFinished
                } else if old(self).frames@.len() > 0 {
                    e == AdError::BranchMismatch
                } else {
                    out >= old(self).nodes@.len() && e == AdError::UntrackedValue
                },
            },
    {
        if self.phase != Phase::Recording {
            return Err(AdError::RecordingFinished);
        }
        if self.frames.len() > 0 {
            return Err(AdError::BranchMismatch);
        }
        if out >= self.nodes.len() {
            return Err(AdError::UntrackedValue);
        }
        let len: usize = self.nodes.len();
        let mut adj: Vec<Option<Rat>> = Vec::new();
        let mut j: usize = 0;
        while j < len
            invariant
                j <= len,
                adj@.len() == j,
                forall|q: int| 0 <= q < j ==> adj@[q] == Some(Rat { num: 0, den: 1 }),
            decreases len - j,
        {
            adj.push(Some(Rat { num: 0, den: 1 }));
            j = j + 1;
        }
        adj.set(out, Some(Rat { num: 1, den: 1 }));
        proof {
            assert(adj@ =~= init_adj(len as nat, out as int));
        }
        let mut k: usize = 0;
        while k < len
            invariant
                k <= len,
                adj@.len() == len,
                forall|q: int| 0 <= q < adj@.len() ==> val_wf(#[trigger] adj@[q]),
                adj@ == run_back(self.nodes@, init_adj(len as nat, out as int), k as nat),
            decreases len - k,
        {
            let i: usize = len - 1 - k;
            node_backward_exec(&self.nodes, &mut adj, i);
            proof {
                assert(run_back(self.nodes@, init_adj(len as nat, out as int), (k + 1) as nat)
                    == node_back(
                    self.nodes@,
                    run_back(self.nodes@, init_adj(len as nat, out as int), k as nat),
                    self.nodes@.len() - (k + 1),
                ));
            }
            k = k + 1;
        }
        self.adjoints = adj;
        self.phase = Phase::BackwardDone;
        Ok(())
    }

    /// Why recording would fail right now, decided executably.
    fn blocked_now(&self) -> (r: Option<AdError>)
        ensures
            r == self.blocked(),
    {
        if self.phase != Phase::Recording {
            return Some(AdError::RecordingFinished);
        }
        if self.frames.len() > 0 {
            let li: usize = self.frames.len() - 1;
            match &self.frames[li] {
                Frame::SwitchRegion { current: None, .. } => {
                    return Some(AdError::BranchMismatch);
                },
                _ => {},
            }
        }
        None
    }
}

/// The first case whose tag equals `key`.
fn find_case(cases: &Vec<(i64, usize)>, key: i64) -> (r: Option<usize>)
    ensures
        r == first_case(cases@, key),
    decreases cases@.len(),
{
    let mut i: usize = 0;
    while i < cases.len()
        invariant
            i <= cases@.len(),
            first_case(cases@, key) == first_case_from(cases@, key, i as int),
        decreases cases@.len() - i,
    {
        if cases[i].0 == key {
            return Some(cases[i].1);
        }
        i = i + 1;
    }
    None
}

/// Adds `amount` into the accumulator at `idx`.
fn accumulate(adj: &mut Vec<Option<Rat>>, idx: usize, amount: Option<Rat>)
    requires
        idx < old(adj)@.len(),
        forall|q: int| 0 <= q < old(adj)@.len() ==> val_wf(#[trigger] old(adj)@[q]),
        val_wf(amount),
    ensures
        final(adj)@ == acc_adj(old(adj)@, idx as int, amount),
        final(adj)@.len() == old(adj)@.len(),
        forall|q: int| 0 <= q < final(adj)@.len() ==> val_wf(#[trigger] final(adj)@[q]),
{
    let cur: Option<Rat> = adj[idx];
    let nv: Option<Rat> = opt_add(cur, amount);
    proof {
        lemma_ops_preserve_wf(cur, amount);
    }
    adj.set(idx, nv);
}

/// One step of the backward sweep over node `i`, matching `node_back`.
fn node_backward_exec(nodes: &Vec<Node>, adj: &mut Vec<Option<Rat>>, i: usize)
    requires
        nodes_wf(nodes@),
        i < nodes@.len(),
        old(adj)@.len() == nodes@.len(),
        forall|q: int| 0 <= q < old(adj)@.len() ==> val_wf(#[trigger] old(adj)@[q]),
    ensures
        final(adj)@ == node_back(nodes@, old(adj)@, i as int),
        final(adj)@.len() == old(adj)@.len(),
        forall|q: int| 0 <= q < final(adj)@.len() ==> val_wf(#[trigger] final(adj)@[q]),
{
    let active: bool = nodes[i].active;
    let a: Option<Rat> = adj[i];
    let zero_skip: bool = match a {
        Some(c) => c.num == 0,
        None => false,
    };
    if !active || zero_skip {
        return;
    }
    proof {
        assert(val_wf(a));
        assert(val_wf(nodes@[i as int].val));
    }
    match &nodes[i].op {
        NodeOp::Leaf => {},
        NodeOp::Detach(_) => {},
        NodeOp::Add(l, r) => {
            let l: usize = *l;
            let r: usize = *r;
            accumulate(adj, l, a);
            accumulate(adj, r, a);
        },
        NodeOp::Sub(l, r) => {
            let l: usize = *l;
            let r: usize = *r;
            let cr: Option<Rat> = opt_neg(a);
            proof {
                lemma_ops_preserve_wf(a, a);
            }
            accumulate(adj, l, a);
            accumulate(adj, r, cr);
        },
        NodeOp::Mul(l, r) => {
            let l: usize = *l;
            let r: usize = *r;
            let vl: Option<Rat> = nodes[l].val;
            let vr: Option<Rat> = nodes[r].val;
            proof {
                assert(val_wf(vl));
                assert(val_wf(vr));
                lemma_ops_preserve_wf(a, vr);
                lemma_ops_preserve_wf(a, vl);
            }
            let cl: Option<Rat> = opt_mul(a, vr);
            let cr: Option<Rat> = opt_mul(a, vl);
            accumulate(adj, l, cl);
            accumulate(adj, r, cr);
        },
        NodeOp::Div(l, r) => {
            let l: usize = *l;
            let r: usize = *r;
            let vl: Option<Rat> = nodes[l].val;
            let vr: Option<Rat> = nodes[r].val;
            proof {
                assert(val_wf(vl));
                assert(val_wf(vr));
                lemma_ops_preserve_wf(a, vr);
                lemma_ops_preserve_wf(a, vl);
                lemma_ops_preserve_wf(vr, vr);
                lemma_ops_preserve_wf(omul(a, vl), omul(vr, vr));
                lemma_ops_preserve_wf(odiv(omul(a, vl), omul(vr, vr)), a);
            }
            let cl: Option<Rat> = opt_div(a, vr);
            let num: Option<Rat> = opt_mul(a, vl);
            let den: Option<Rat> = opt_mul(vr, vr);
            let cr: Option<Rat> = opt_neg(opt_div(num, den));
            accumulate(adj, l, cl);
            accumulate(adj, r, cr);
        },
        NodeOp::Neg(x) => {
            let x: usize = *x;
            let c: Option<Rat> = opt_neg(a);
            proof {
                lemma_ops_preserve_wf(a, a);
            }
            accumulate(adj, x, c);
        },
        NodeOp::Sqrt(x) => {
            let x: usize = *x;
            let two: Option<Rat> = Some(Rat { num: 2, den: 1 });
            let vi: Option<Rat> = nodes[i].val;
            proof {
                lemma_ops_preserve_wf(two, vi);
                lemma_ops_preserve_wf(a, omul(two, vi));
            }
            let denom: Option<Rat> = opt_mul(two, vi);
            let c: Option<Rat> = opt_div(a, denom);
            accumulate(adj, x, c);
        },
        NodeOp::Abs(x) => {
            let x: usize = *x;
            let vx: Option<Rat> = nodes[x].val;
            let c: Option<Rat> = match vx {
                Some(cv) => if cv.num >= 0 {
                    a
                } else {
                    opt_neg(a)
                },
                None => None,
            };
            proof {
                lemma_ops_preserve_wf(a, a);
            }
            accumulate(adj, x, c);
        },
        NodeOp::Select { cond, on_true, on_false } => {
            if *cond {
                let t: usize = *on_true;
                accumulate(adj, t, a);
            } else {
                let e: usize = *on_false;
                accumulate(adj, e, a);
            }
        },
        NodeOp::Switch { key, cases, default_case } => {
            proof {
                lemma_first_case_in_range(cases@, *key, i as int, 0);
            }
            match find_case(cases, *key) {
                Some(t) => {
                    accumulate(adj, t, a);
                },
                None => {
                    match default_case {
                        Some(d) => {
                            let d: usize = *d;
                            accumulate(adj, d, a);
                        },
                        None => {},
                    }
                },
            }
        },
    }
}

} // verus!
