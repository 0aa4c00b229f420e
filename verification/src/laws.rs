//! Gradient laws.
//!
//! Each public proof function here states a law of the backward sweep over
//! a trace of a given shape, for every lane input the law admits, and is
//! checked against the same `backward_adjoints` model that
//! [`crate::tape::Tape::backward`] is proved to compute.  The traces are
//! exactly the node sequences the recording interface produces for the
//! corresponding programs.

use vstd::prelude::*;

use crate::rational::{in_i64, oadd, ogt, omul, osqrt, osub, Rat};
use crate::tape::{
    acc_adj, adj_is_zero, backward_adjoints, first_case, first_case_from, init_adj, node_back,
    run_back, Node, NodeOp, Tape,
};

verus! {

/// Diamond accumulation: for the trace of `z = x * x` with `x` marked, the
/// backward sweep sums both uses, so the gradient of `x` is exactly `2 * x`.
///
/// The only inputs left out are those whose doubled product no longer fits
/// the scalar's 64-bit components.
pub proof fn diamond_accumulation(nodes: Seq<Node>, x: Rat)
    requires
        x.wf(),
        in_i64(2 * x.num * x.den),
        in_i64(x.den * x.den),
        nodes.len() == 2,
        nodes[0] == (Node { op: NodeOp::Leaf, val: Some(x), active: true }),
        nodes[1].op == NodeOp::Mul(0, 0),
        nodes[1].active == true,
    ensures
        backward_adjoints(nodes, 1)[0] matches Some(g) && g.wf() && g.num * x.den == 2 * x.num
            * g.den,
{
    let init = init_adj(2, 1);
    reveal_with_fuel(run_back, 3);
    let one = Rat { num: 1, den: 1 };
    assert(init[1] == Some(one));
    assert(init[0] == Some(Rat { num: 0, den: 1 }));
    assert(omul(Some(one), Some(x)) == Some(x)) by {
        assert(1 * x.num == x.num);
        assert(1 * x.den == x.den);
    }
    let b1 = acc_adj(init, 0, Some(x));
    assert(b1[0] == oadd(Some(Rat { num: 0, den: 1 }), Some(x)));
    assert(b1[0] == Some(x)) by {
        assert(0 * x.den + x.num * 1 == x.num);
        assert(1 * x.den == x.den);
    }
    let b2 = acc_adj(b1, 0, Some(x));
    assert(x.num * x.den + x.num * x.den == 2 * x.num * x.den) by (nonlinear_arith);
    assert(in_i64(x.num * x.den + x.num * x.den));
    let g = Rat { num: (2 * x.num * x.den) as i64, den: (x.den * x.den) as i64 };
    assert(b2[0] == Some(g));
    assert(node_back(nodes, init, 1) == b2);
    assert(node_back(nodes, b2, 0) == b2);
    assert(backward_adjoints(nodes, 1) == b2);
    assert(g.den >= 1) by (nonlinear_arith)
        requires
            x.den >= 1,
            g.den == x.den * x.den,
    ;
    assert(g.num * x.den == 2 * x.num * g.den) by (nonlinear_arith)
        requires
            g.num == 2 * x.num * x.den,
            g.den == x.den * x.den,
    ;
}

/// Detach isolation: for the trace of `k = detach(x * y); z = (x + y) * k`,
/// no adjoint flows through the detach marker, so the gradients of `x` and
/// `y` are both exactly the value `x * y` — not the derivative of `x * y`
/// propagated further.
///
/// The only inputs left out are those whose product does not fit the
/// scalar's 64-bit components.
pub proof fn detach_isolation(nodes: Seq<Node>, x: Rat, y: Rat)
    requires
        x.wf(),
        y.wf(),
        in_i64(x.num * y.num),
        in_i64(x.den * y.den),
        nodes.len() == 6,
        nodes[0] == (Node { op: NodeOp::Leaf, val: Some(x), active: true }),
        nodes[1] == (Node { op: NodeOp::Leaf, val: Some(y), active: true }),
        nodes[2].op == NodeOp::Mul(0, 1),
        nodes[3].op == NodeOp::Detach(2),
        nodes[3].val == omul(Some(x), Some(y)),
        nodes[4].op == NodeOp::Add(0, 1),
        nodes[4].active == true,
        nodes[5].op == NodeOp::Mul(4, 3),
        nodes[5].active == true,
    ensures
        backward_adjoints(nodes, 5)[0] matches Some(gx) && gx.wf() && gx.num * (x.den * y.den) == (
        x.num * y.num) * gx.den,
        backward_adjoints(nodes, 5)[1] matches Some(gy) && gy.wf() && gy.num * (x.den * y.den) == (
        x.num * y.num) * gy.den,
{
    let init = init_adj(6, 5);
    reveal_with_fuel(run_back, 7);
    let one = Rat { num: 1, den: 1 };
    let zero = Rat { num: 0, den: 1 };
    let k = Rat { num: (x.num * y.num) as i64, den: (x.den * y.den) as i64 };
    assert(k.den >= 1) by (nonlinear_arith)
        requires
            x.den >= 1,
            y.den >= 1,
            k.den == x.den * y.den,
    ;
    assert(nodes[3].val == Some(k));
    assert(omul(Some(one), Some(k)) == Some(k)) by {
        assert(1 * k.num == k.num);
        assert(1 * k.den == k.den);
    }
    assert(oadd(Some(zero), Some(k)) == Some(k)) by {
        assert(0 * k.den + k.num * 1 == k.num);
        assert(1 * k.den == k.den);
    }
    let s1 = node_back(nodes, init, 5);
    assert(s1[4] == Some(k));
    assert(s1[0] == Some(zero));
    assert(s1[1] == Some(zero));
    let s2 = node_back(nodes, s1, 4);
    if k.num == 0 {
        assert(adj_is_zero(s1[4]));
        assert(s2 == s1);
    } else {
        assert(s2 == acc_adj(acc_adj(s1, 0, Some(k)), 1, Some(k)));
        assert(s2[0] == Some(k));
        assert(s2[1] == Some(k));
    }
    let s3 = node_back(nodes, s2, 3);
    assert(s3 == s2);
    assert(s3[2] == Some(zero));
    let s4 = node_back(nodes, s3, 2);
    assert(s4 == s3);
    let s5 = node_back(nodes, s4, 1);
    let s6 = node_back(nodes, s5, 0);
    assert(backward_adjoints(nodes, 5) == s6);
    assert(s6 == s2);
    if k.num == 0 {
        assert(s6[0] == Some(zero));
        assert(x.num * y.num == 0);
    } else {
        assert(s6[0] == Some(k));
        assert(k.num * (x.den * y.den) == (x.num * y.num) * k.den);
    }
}

/// Branch masking with zero tolerance: for the trace of
/// `z = select(x > y, x * 4, y * (1/2))`, a lane whose condition holds gets
/// exactly gradient 4 for `x` and exactly 0 for `y`; any other lane gets
/// exactly 0 for `x` and exactly 1/2 for `y`.
pub proof fn select_branch_masking(nodes: Seq<Node>, x: Rat, y: Rat, cond: bool)
    requires
        x.wf(),
        y.wf(),
        cond == ogt(Some(x), Some(y)),
        nodes.len() == 7,
        nodes[0] == (Node { op: NodeOp::Leaf, val: Some(x), active: true }),
        nodes[1] == (Node { op: NodeOp::Leaf, val: Some(y), active: true }),
        nodes[2] == (Node { op: NodeOp::Leaf, val: Some(Rat { num: 4, den: 1 }), active: true }),
        nodes[3].op == NodeOp::Mul(0, 2),
        nodes[3].active == true,
        nodes[4] == (Node { op: NodeOp::Leaf, val: Some(Rat { num: 1, den: 2 }), active: true }),
        nodes[5].op == NodeOp::Mul(1, 4),
        nodes[5].active == true,
        nodes[6].op == (NodeOp::Select { cond, on_true: 3, on_false: 5 }),
        nodes[6].active == true,
    ensures
        cond ==> backward_adjoints(nodes, 6)[0] == Some(Rat { num: 4, den: 1 })
            && backward_adjoints(nodes, 6)[1] == Some(Rat { num: 0, den: 1 }),
        !cond ==> backward_adjoints(nodes, 6)[0] == Some(Rat { num: 0, den: 1 })
            && backward_adjoints(nodes, 6)[1] == Some(Rat { num: 1, den: 2 }),
{
    let init = init_adj(7, 6);
    reveal_with_fuel(run_back, 8);
    let one = Rat { num: 1, den: 1 };
    let zero = Rat { num: 0, den: 1 };
    assert(oadd(Some(zero), Some(one)) == Some(one));
    let s1 = node_back(nodes, init, 6);
    if cond {
        assert(s1 == acc_adj(init, 3, Some(one)));
        assert(s1[3] == Some(one));
        assert(s1[5] == Some(zero));
        let s2 = node_back(nodes, s1, 5);
        assert(s2 == s1);
        let s3 = node_back(nodes, s2, 4);
        assert(s3 == s2);
        let s4 = node_back(nodes, s3, 3);
        assert(omul(Some(one), nodes[2].val) == Some(Rat { num: 4, den: 1 }));
        assert(omul(Some(one), nodes[0].val) == Some(x)) by {
            assert(1 * x.num == x.num);
            assert(1 * x.den == x.den);
        }
        assert(s4 == acc_adj(acc_adj(s3, 0, Some(Rat { num: 4, den: 1 })), 2, Some(x)));
        assert(s4[0] == Some(Rat { num: 4, den: 1 }));
        assert(s4[1] == Some(zero));
        let s5 = node_back(nodes, s4, 2);
        let s6 = node_back(nodes, s5, 1);
        let s7 = node_back(nodes, s6, 0);
        assert(s7 == s4);
        assert(backward_adjoints(nodes, 6) == s7);
    } else {
        assert(s1 == acc_adj(init, 5, Some(one)));
        assert(s1[5] == Some(one));
        assert(s1[3] == Some(zero));
        let s2 = node_back(nodes, s1, 5);
        assert(omul(Some(one), nodes[4].val) == Some(Rat { num: 1, den: 2 }));
        assert(omul(Some(one), nodes[1].val) == Some(y)) by {
            assert(1 * y.num == y.num);
            assert(1 * y.den == y.den);
        }
        assert(s2 == acc_adj(acc_adj(s1, 1, Some(Rat { num: 1, den: 2 })), 4, Some(y)));
        assert(s2[1] == Some(Rat { num: 1, den: 2 }));
        assert(s2[0] == Some(zero));
        let s3 = node_back(nodes, s2, 4);
        let s4 = node_back(nodes, s3, 3);
        assert(s4 == s2);
        let s5 = node_back(nodes, s4, 2);
        let s6 = node_back(nodes, s5, 1);
        let s7 = node_back(nodes, s6, 0);
        assert(s7 == s2);
        assert(backward_adjoints(nodes, 6) == s7);
    }
}

/// Masking is safe against undefined values: for the trace of
/// `z = select(x > y, sqrt(x - y), y * (1/2))` on a lane with `x < y`, the
/// untaken square root is evaluated on a negative domain and its value is
/// undefined, yet the gradients are exactly 0 for `x` and exactly 1/2 for
/// `y` — defined values, never the undefined one.
pub proof fn nan_safe_masking(nodes: Seq<Node>, x: Rat, y: Rat, cond: bool)
    requires
        x.wf(),
        y.wf(),
        x.ratio_lt(y),
        cond == ogt(Some(x), Some(y)),
        nodes.len() == 7,
        nodes[0] == (Node { op: NodeOp::Leaf, val: Some(x), active: true }),
        nodes[1] == (Node { op: NodeOp::Leaf, val: Some(y), active: true }),
        nodes[2].op == NodeOp::Sub(0, 1),
        nodes[2].val == osub(Some(x), Some(y)),
        nodes[3].op == NodeOp::Sqrt(2),
        nodes[3].val == osqrt(osub(Some(x), Some(y))),
        nodes[3].active == true,
        nodes[4] == (Node { op: NodeOp::Leaf, val: Some(Rat { num: 1, den: 2 }), active: true }),
        nodes[5].op == NodeOp::Mul(1, 4),
        nodes[5].active == true,
        nodes[6].op == (NodeOp::Select { cond, on_true: 3, on_false: 5 }),
        nodes[6].active == true,
    ensures
        backward_adjoints(nodes, 6)[0] == Some(Rat { num: 0, den: 1 }),
        backward_adjoints(nodes, 6)[1] == Some(Rat { num: 1, den: 2 }),
        nodes[3].val is None,
{
    assert(!cond);
    let init = init_adj(7, 6);
    reveal_with_fuel(run_back, 8);
    let one = Rat { num: 1, den: 1 };
    let zero = Rat { num: 0, den: 1 };
    assert(oadd(Some(zero), Some(one)) == Some(one));
    let s1 = node_back(nodes, init, 6);
    assert(s1 == acc_adj(init, 5, Some(one)));
    assert(s1[5] == Some(one));
    let s2 = node_back(nodes, s1, 5);
    assert(omul(Some(one), nodes[4].val) == Some(Rat { num: 1, den: 2 }));
    assert(omul(Some(one), nodes[1].val) == Some(y)) by {
        assert(1 * y.num == y.num);
        assert(1 * y.den == y.den);
    }
    assert(s2 == acc_adj(acc_adj(s1, 1, Some(Rat { num: 1, den: 2 })), 4, Some(y)));
    assert(s2[1] == Some(Rat { num: 1, den: 2 }));
    assert(s2[0] == Some(zero));
    assert(s2[3] == Some(zero));
    assert(s2[2] == Some(zero));
    let s3 = node_back(nodes, s2, 4);
    let s4 = node_back(nodes, s3, 3);
    assert(s4 == s2);
    let s5 = node_back(nodes, s4, 2);
    assert(s5 == s2);
    let s6 = node_back(nodes, s5, 1);
    let s7 = node_back(nodes, s6, 0);
    assert(s7 == s2);
    assert(backward_adjoints(nodes, 6) == s7);
}

/// Switch exclusivity: for the trace of a three-way `switch` keyed by
/// `t` in `{0, 1, 2}` with cases `x * 4`, `x * 2` and `y * (1/2)`, each
/// lane's gradient is exactly the derivative of its selected case and
/// exactly zero for every other case.
pub proof fn switch_exclusivity(nodes: Seq<Node>, x: Rat, y: Rat, t: i64)
    requires
        x.wf(),
        y.wf(),
        t == 0 || t == 1 || t == 2,
        nodes.len() == 9,
        nodes[0] == (Node { op: NodeOp::Leaf, val: Some(x), active: true }),
        nodes[1] == (Node { op: NodeOp::Leaf, val: Some(y), active: true }),
        nodes[2].op == NodeOp::Leaf,
        nodes[2].val == Some(Rat { num: 4, den: 1 }),
        nodes[3].op == NodeOp::Mul(0, 2),
        nodes[3].active == (t == 0),
        nodes[4].op == NodeOp::Leaf,
        nodes[4].val == Some(Rat { num: 2, den: 1 }),
        nodes[5].op == NodeOp::Mul(0, 4),
        nodes[5].active == (t == 1),
        nodes[6].op == NodeOp::Leaf,
        nodes[6].val == Some(Rat { num: 1, den: 2 }),
        nodes[7].op == NodeOp::Mul(1, 6),
        nodes[7].active == (t == 2),
        (nodes[8].op matches NodeOp::Switch { key, cases, default_case: None } && key == t
            && cases@ == seq![(0i64, 3usize), (1i64, 5usize), (2i64, 7usize)]),
        nodes[8].active == true,
    ensures
        t == 0 ==> backward_adjoints(nodes, 8)[0] == Some(Rat { num: 4, den: 1 })
            && backward_adjoints(nodes, 8)[1] == Some(Rat { num: 0, den: 1 }),
        t == 1 ==> backward_adjoints(nodes, 8)[0] == Some(Rat { num: 2, den: 1 })
            && backward_adjoints(nodes, 8)[1] == Some(Rat { num: 0, den: 1 }),
        t == 2 ==> backward_adjoints(nodes, 8)[0] == Some(Rat { num: 0, den: 1 })
            && backward_adjoints(nodes, 8)[1] == Some(Rat { num: 1, den: 2 }),
{
    let init = init_adj(9, 8);
    reveal_with_fuel(run_back, 10);
    reveal_with_fuel(first_case_from, 4);
    let one = Rat { num: 1, den: 1 };
    let zero = Rat { num: 0, den: 1 };
    assert(oadd(Some(zero), Some(one)) == Some(one));
    assert(omul(Some(one), Some(x)) == Some(x)) by {
        assert(1 * x.num == x.num);
        assert(1 * x.den == x.den);
    }
    assert(omul(Some(one), Some(y)) == Some(y)) by {
        assert(1 * y.num == y.num);
        assert(1 * y.den == y.den);
    }
    let s1 = node_back(nodes, init, 8);
    if let NodeOp::Switch { key, cases, default_case } = nodes[8].op {
        let cs = cases@;
        if t == 0 {
            assert(first_case(cs, t) == Some(3usize));
            assert(s1 == acc_adj(init, 3, Some(one)));
            let s2 = node_back(nodes, s1, 7);
            assert(s2 == s1);
            let s3 = node_back(nodes, s2, 6);
            let s4 = node_back(nodes, s3, 5);
            assert(s4 == s1);
            let s5 = node_back(nodes, s4, 4);
            let s6 = node_back(nodes, s5, 3);
            assert(omul(Some(one), nodes[2].val) == Some(Rat { num: 4, den: 1 }));
            assert(s6 == acc_adj(acc_adj(s5, 0, Some(Rat { num: 4, den: 1 })), 2, Some(x)));
            assert(s6[0] == Some(Rat { num: 4, den: 1 }));
            assert(s6[1] == Some(zero));
            let s7 = node_back(nodes, s6, 2);
            let s8 = node_back(nodes, s7, 1);
            let s9 = node_back(nodes, s8, 0);
            assert(s9 == s6);
            assert(backward_adjoints(nodes, 8) == s9);
        } else if t == 1 {
            assert(first_case(cs, t) == Some(5usize));
            assert(s1 == acc_adj(init, 5, Some(one)));
            let s2 = node_back(nodes, s1, 7);
            assert(s2 == s1);
            let s3 = node_back(nodes, s2, 6);
            let s4 = node_back(nodes, s3, 5);
            assert(omul(Some(one), nodes[4].val) == Some(Rat { num: 2, den: 1 }));
            assert(s4 == acc_adj(acc_adj(s3, 0, Some(Rat { num: 2, den: 1 })), 4, Some(x)));
            assert(s4[0] == Some(Rat { num: 2, den: 1 }));
            assert(s4[1] == Some(zero));
            let s5 = node_back(nodes, s4, 4);
            let s6 = node_back(nodes, s5, 3);
            assert(s6 == s4);
            let s7 = node_back(nodes, s6, 2);
            let s8 = node_back(nodes, s7, 1);
            let s9 = node_back(nodes, s8, 0);
            assert(s9 == s4);
            assert(backward_adjoints(nodes, 8) == s9);
        } else {
            assert(first_case(cs, t) == Some(7usize));
            assert(s1 == acc_adj(init, 7, Some(one)));
            let s2 = node_back(nodes, s1, 7);
            assert(omul(Some(one), nodes[6].val) == Some(Rat { num: 1, den: 2 }));
            assert(s2 == acc_adj(acc_adj(s1, 1, Some(Rat { num: 1, den: 2 })), 6, Some(y)));
            assert(s2[1] == Some(Rat { num: 1, den: 2 }));
            assert(s2[0] == Some(zero));
            let s3 = node_back(nodes, s2, 6);
            let s4 = node_back(nodes, s3, 5);
            assert(s4 == s2);
            let s5 = node_back(nodes, s4, 4);
            let s6 = node_back(nodes, s5, 3);
            assert(s6 == s2);
            let s7 = node_back(nodes, s6, 2);
            let s8 = node_back(nodes, s7, 1);
            let s9 = node_back(nodes, s8, 0);
            assert(s9 == s2);
            assert(backward_adjoints(nodes, 8) == s9);
        }
    }
}

/// Nested branch composition: for the trace of
/// `if c1 { if c2 { x * 4 } else { x * 2 } } else { y * (1/2) }`, a node
/// two levels deep carries the conjunction of both enclosing masks, so the
/// gradient of `x` is its local derivative exactly when both masks hold,
/// the once-enclosed alternative's derivative when only the outer mask
/// holds, and exactly zero otherwise.
pub proof fn nested_branch_composition(nodes: Seq<Node>, x: Rat, y: Rat, c1: bool, c2: bool)
    requires
        x.wf(),
        y.wf(),
        nodes.len() == 10,
        nodes[0] == (Node { op: NodeOp::Leaf, val: Some(x), active: true }),
        nodes[1] == (Node { op: NodeOp::Leaf, val: Some(y), active: true }),
        nodes[2].op == NodeOp::Leaf,
        nodes[2].val == Some(Rat { num: 4, den: 1 }),
        nodes[3].op == NodeOp::Mul(0, 2),
        nodes[3].active == (c1 && c2),
        nodes[4].op == NodeOp::Leaf,
        nodes[4].val == Some(Rat { num: 2, den: 1 }),
        nodes[5].op == NodeOp::Mul(0, 4),
        nodes[5].active == (c1 && !c2),
        nodes[6].op == (NodeOp::Select { cond: c2, on_true: 3, on_false: 5 }),
        nodes[6].active == c1,
        nodes[7].op == NodeOp::Leaf,
        nodes[7].val == Some(Rat { num: 1, den: 2 }),
        nodes[8].op == NodeOp::Mul(1, 7),
        nodes[8].active == !c1,
        nodes[9].op == (NodeOp::Select { cond: c1, on_true: 6, on_false: 8 }),
        nodes[9].active == true,
    ensures
        c1 && c2 ==> backward_adjoints(nodes, 9)[0] == Some(Rat { num: 4, den: 1 })
            && backward_adjoints(nodes, 9)[1] == Some(Rat { num: 0, den: 1 }),
        c1 && !c2 ==> backward_adjoints(nodes, 9)[0] == Some(Rat { num: 2, den: 1 })
            && backward_adjoints(nodes, 9)[1] == Some(Rat { num: 0, den: 1 }),
        !c1 ==> backward_adjoints(nodes, 9)[0] == Some(Rat { num: 0, den: 1 })
            && backward_adjoints(nodes, 9)[1] == Some(Rat { num: 1, den: 2 }),
{
    let init = init_adj(10, 9);
    reveal_with_fuel(run_back, 11);
    let one = Rat { num: 1, den: 1 };
    let zero = Rat { num: 0, den: 1 };
    assert(oadd(Some(zero), Some(one)) == Some(one));
    assert(omul(Some(one), Some(x)) == Some(x)) by {
        assert(1 * x.num == x.num);
        assert(1 * x.den == x.den);
    }
    assert(omul(Some(one), Some(y)) == Some(y)) by {
        assert(1 * y.num == y.num);
        assert(1 * y.den == y.den);
    }
    let s1 = node_back(nodes, init, 9);
    if c1 {
        assert(s1 == acc_adj(init, 6, Some(one)));
        let s2 = node_back(nodes, s1, 8);
        assert(s2 == s1);
        let s3 = node_back(nodes, s2, 7);
        assert(s3 == s1);
        let s4 = node_back(nodes, s3, 6);
        if c2 {
            assert(s4 == acc_adj(s3, 3, Some(one)));
            let s5 = node_back(nodes, s4, 5);
            assert(s5 == s4);
            let s6 = node_back(nodes, s5, 4);
            let s7 = node_back(nodes, s6, 3);
            assert(omul(Some(one), nodes[2].val) == Some(Rat { num: 4, den: 1 }));
            assert(s7 == acc_adj(acc_adj(s6, 0, Some(Rat { num: 4, den: 1 })), 2, Some(x)));
            assert(s7[0] == Some(Rat { num: 4, den: 1 }));
            assert(s7[1] == Some(zero));
            let s8 = node_back(nodes, s7, 2);
            let s9 = node_back(nodes, s8, 1);
            let s10 = node_back(nodes, s9, 0);
            assert(s10 == s7);
            assert(backward_adjoints(nodes, 9) == s10);
        } else {
            assert(s4 == acc_adj(s3, 5, Some(one)));
            let s5 = node_back(nodes, s4, 5);
            assert(omul(Some(one), nodes[4].val) == Some(Rat { num: 2, den: 1 }));
            assert(s5 == acc_adj(acc_adj(s4, 0, Some(Rat { num: 2, den: 1 })), 4, Some(x)));
            assert(s5[0] == Some(Rat { num: 2, den: 1 }));
            assert(s5[1] == Some(zero));
            let s6 = node_back(nodes, s5, 4);
            let s7 = node_back(nodes, s6, 3);
            assert(s7 == s5);
            let s8 = node_back(nodes, s7, 2);
            let s9 = node_back(nodes, s8, 1);
            let s10 = node_back(nodes, s9, 0);
            assert(s10 == s5);
            assert(backward_adjoints(nodes, 9) == s10);
        }
    } else {
        assert(s1 == acc_adj(init, 8, Some(one)));
        let s2 = node_back(nodes, s1, 8);
        assert(omul(Some(one), nodes[7].val) == Some(Rat { num: 1, den: 2 }));
        assert(s2 == acc_adj(acc_adj(s1, 1, Some(Rat { num: 1, den: 2 })), 7, Some(y)));
        assert(s2[1] == Some(Rat { num: 1, den: 2 }));
        assert(s2[0] == Some(zero));
        let s3 = node_back(nodes, s2, 7);
        let s4 = node_back(nodes, s3, 6);
        assert(s4 == s2);
        let s5 = node_back(nodes, s4, 5);
        assert(s5 == s2);
        let s6 = node_back(nodes, s5, 4);
        let s7 = node_back(nodes, s6, 3);
        assert(s7 == s2);
        let s8 = node_back(nodes, s7, 2);
        let s9 = node_back(nodes, s8, 1);
        let s10 = node_back(nodes, s9, 0);
        assert(s10 == s2);
        assert(backward_adjoints(nodes, 9) == s10);
    }
}

/// The branch-masking law made executable: records the trace of
/// `z = select(x > y, x * 4, y * (1/2))` through the tape interface, runs
/// the backward pass, and returns both gradients — whose exact values the
/// law pins for every pair of inputs.
pub fn select_lane_gradients(xv: Rat, yv: Rat) -> (r: (Option<Rat>, Option<Rat>))
    requires
        xv.wf(),
        yv.wf(),
    ensures
        ogt(Some(xv), Some(yv)) ==> r == (
            Some(Rat { num: 4, den: 1 }),
            Some(Rat { num: 0, den: 1 }),
        ),
        !ogt(Some(xv), Some(yv)) ==> r == (
            Some(Rat { num: 0, den: 1 }),
            Some(Rat { num: 1, den: 2 }),
        ),
{
    let mut t = Tape::new();
    let x = t.constant(xv).unwrap();
    let y = t.constant(yv).unwrap();
    t.requires_grad(x).unwrap();
    t.requires_grad(y).unwrap();
    let c4 = t.constant(Rat { num: 4, den: 1 }).unwrap();
    let xt = t.times(x, c4).unwrap();
    let ch = t.constant(Rat { num: 1, den: 2 }).unwrap();
    let yh = t.times(y, ch).unwrap();
    let cond = t.greater_than(x, y).unwrap();
    let z = t.select(cond, xt, yh).unwrap();
    let ghost nodes = t.nodes@;
    proof {
        assert(nodes.len() == 7);
        assert(nodes[0] == (Node { op: NodeOp::Leaf, val: Some(xv), active: true }));
        assert(nodes[1] == (Node { op: NodeOp::Leaf, val: Some(yv), active: true }));
        assert(nodes[2] == (Node {
            op: NodeOp::Leaf,
            val: Some(Rat { num: 4, den: 1 }),
            active: true,
        }));
        assert(nodes[3].op == NodeOp::Mul(0, 2));
        assert(nodes[3].active);
        assert(nodes[4] == (Node {
            op: NodeOp::Leaf,
            val: Some(Rat { num: 1, den: 2 }),
            active: true,
        }));
        assert(nodes[5].op == NodeOp::Mul(1, 4));
        assert(nodes[5].active);
        assert(nodes[6].op == (NodeOp::Select { cond, on_true: 3, on_false: 5 }));
        assert(nodes[6].active);
        assert(cond == ogt(Some(xv), Some(yv)));
        select_branch_masking(nodes, xv, yv, cond);
    }
    t.backward(z).unwrap();
    let gx = t.gradient(x).unwrap();
    let gy = t.gradient(y).unwrap();
    (gx, gy)
}

/// The undefined-value-safe masking law made executable: for any lane with
/// `x < y`, records `z = select(x > y, sqrt(x - y), y * (1/2))`, in which
/// the untaken square root is evaluated on a negative domain, and returns
/// the gradients — exactly zero and one half, never the undefined value.
pub fn masked_sqrt_gradients(xv: Rat, yv: Rat) -> (r: (Option<Rat>, Option<Rat>))
    requires
        xv.wf(),
        yv.wf(),
        xv.ratio_lt(yv),
    ensures
        r == (Some(Rat { num: 0, den: 1 }), Some(Rat { num: 1, den: 2 })),
{
    let mut t = Tape::new();
    let x = t.constant(xv).unwrap();
    let y = t.constant(yv).unwrap();
    t.requires_grad(x).unwrap();
    t.requires_grad(y).unwrap();
    let cond = t.greater_than(x, y).unwrap();
    let d = t.minus(x, y).unwrap();
    let a = t.square_root(d).unwrap();
    let ch = t.constant(Rat { num: 1, den: 2 }).unwrap();
    let yh = t.times(y, ch).unwrap();
    let z = t.select(cond, a, yh).unwrap();
    let ghost nodes = t.nodes@;
    proof {
        assert(nodes.len() == 7);
        assert(nodes[0] == (Node { op: NodeOp::Leaf, val: Some(xv), active: true }));
        assert(nodes[1] == (Node { op: NodeOp::Leaf, val: Some(yv), active: true }));
        assert(nodes[2].op == NodeOp::Sub(0, 1));
        assert(nodes[2].val == osub(Some(xv), Some(yv)));
        assert(nodes[3].op == NodeOp::Sqrt(2));
        assert(nodes[3].val == osqrt(osub(Some(xv), Some(yv))));
        assert(nodes[3].active);
        assert(nodes[4] == (Node {
            op: NodeOp::Leaf,
            val: Some(Rat { num: 1, den: 2 }),
            active: true,
        }));
        assert(nodes[5].op == NodeOp::Mul(1, 4));
        assert(nodes[5].active);
        assert(nodes[6].op == (NodeOp::Select { cond, on_true: 3, on_false: 5 }));
        assert(nodes[6].active);
        assert(cond == ogt(Some(xv), Some(yv)));
        nan_safe_masking(nodes, xv, yv, cond);
    }
    t.backward(z).unwrap();
    let gx = t.gradient(x).unwrap();
    let gy = t.gradient(y).unwrap();
    (gx, gy)
}

/// The switch-exclusivity law made executable: records a three-way
/// `switch` keyed by `key` with cases `x * 4`, `x * 2` and `y * (1/2)`
/// through the region interface, runs the backward pass, and returns both
/// gradients — exactly the selected case's derivative, and exactly zero
/// through every other case.
pub fn switch_lane_gradients(xv: Rat, yv: Rat, key: i64) -> (r: (Option<Rat>, Option<Rat>))
    requires
        xv.wf(),
        yv.wf(),
        key == 0 || key == 1 || key == 2,
    ensures
        key == 0 ==> r == (Some(Rat { num: 4, den: 1 }), Some(Rat { num: 0, den: 1 })),
        key == 1 ==> r == (Some(Rat { num: 2, den: 1 }), Some(Rat { num: 0, den: 1 })),
        key == 2 ==> r == (Some(Rat { num: 0, den: 1 }), Some(Rat { num: 1, den: 2 })),
{
    let mut t = Tape::new();
    let x = t.constant(xv).unwrap();
    let y = t.constant(yv).unwrap();
    t.requires_grad(x).unwrap();
    t.requires_grad(y).unwrap();
    t.begin_switch(key).unwrap();
    proof {
        reveal_with_fuel(first_case_from, 4);
    }
    t.begin_case(0).unwrap();
    let c4 = t.constant(Rat { num: 4, den: 1 }).unwrap();
    let v0 = t.times(x, c4).unwrap();
    t.end_case(v0).unwrap();
    t.begin_case(1).unwrap();
    let c2 = t.constant(Rat { num: 2, den: 1 }).unwrap();
    let v1 = t.times(x, c2).unwrap();
    t.end_case(v1).unwrap();
    t.begin_case(2).unwrap();
    let ch = t.constant(Rat { num: 1, den: 2 }).unwrap();
    let v2 = t.times(y, ch).unwrap();
    t.end_case(v2).unwrap();
    let z = t.end_switch().unwrap();
    let ghost nodes = t.nodes@;
    proof {
        reveal_with_fuel(first_case_from, 4);
        assert(nodes.len() == 9);
        assert(nodes[0] == (Node { op: NodeOp::Leaf, val: Some(xv), active: true }));
        assert(nodes[1] == (Node { op: NodeOp::Leaf, val: Some(yv), active: true }));
        assert(nodes[2].op == NodeOp::Leaf);
        assert(nodes[2].val == Some(Rat { num: 4, den: 1 }));
        assert(nodes[3].op == NodeOp::Mul(0, 2));
        assert(nodes[3].active == (key == 0));
        assert(nodes[4].op == NodeOp::Leaf);
        assert(nodes[4].val == Some(Rat { num: 2, den: 1 }));
        assert(nodes[5].op == NodeOp::Mul(0, 4));
        assert(nodes[5].active == (key == 1));
        assert(nodes[6].op == NodeOp::Leaf);
        assert(nodes[6].val == Some(Rat { num: 1, den: 2 }));
        assert(nodes[7].op == NodeOp::Mul(1, 6));
        assert(nodes[7].active == (key == 2));
        assert(nodes[8].op matches NodeOp::Switch { key: k2, cases, default_case: None } && k2
            == key && cases@ == seq![(0i64, 3usize), (1i64, 5usize), (2i64, 7usize)]);
        assert(nodes[8].active == true);
        switch_exclusivity(nodes, xv, yv, key);
    }
    t.backward(z).unwrap();
    let gx = t.gradient(x).unwrap();
    let gy = t.gradient(y).unwrap();
    (gx, gy)
}

} // verus!
