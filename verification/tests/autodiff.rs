use simt_autodiff::laws::{masked_sqrt_gradients, select_lane_gradients, switch_lane_gradients};
use simt_autodiff::rational::Rat;
use simt_autodiff::tape::{AdError, Tape};

fn rat(n: i64, d: i64) -> Rat {
    Rat::new(n, d).unwrap()
}

fn grad(t: &Tape, id: usize) -> Rat {
    t.gradient(id).unwrap().unwrap()
}

/// A small deterministic grid of rational lane inputs.
fn grid() -> Vec<Rat> {
    let mut v = Vec::new();
    for n in -6i64..7 {
        for d in 1i64..4 {
            v.push(rat(n, d));
        }
    }
    v
}

#[test]
fn autodiff_diamond() {
    // z = x * x: both uses of x accumulate, so the gradient is exactly 2x.
    for xv in grid() {
        let mut t = Tape::new();
        let x = t.constant(xv).unwrap();
        t.requires_grad(x).unwrap();
        let z = t.times(x, x).unwrap();
        t.backward(z).unwrap();
        let two_x = rat(2 * xv.num, xv.den);
        assert!(grad(&t, x).same_ratio(two_x));
    }
}

#[test]
fn autodiff_select() {
    // z = select(x > y, x * 4, y * 1/2), exact gradients with zero tolerance.
    for xv in grid() {
        for yv in [rat(-2, 1), rat(1, 2), rat(3, 1)] {
            let mut t = Tape::new();
            let x = t.constant(xv).unwrap();
            let y = t.constant(yv).unwrap();
            t.requires_grad(x).unwrap();
            t.requires_grad(y).unwrap();
            let c4 = t.constant(rat(4, 1)).unwrap();
            let xt = t.times(x, c4).unwrap();
            let ch = t.constant(rat(1, 2)).unwrap();
            let yh = t.times(y, ch).unwrap();
            let cond = t.greater_than(x, y).unwrap();
            let z = t.select(cond, xt, yh).unwrap();
            t.backward(z).unwrap();
            if cond {
                assert_eq!(grad(&t, x), rat(4, 1));
                assert_eq!(grad(&t, y), rat(0, 1));
            } else {
                assert_eq!(grad(&t, x), rat(0, 1));
                assert!(grad(&t, y).same_ratio(rat(1, 2)));
            }
        }
    }
}

#[test]
fn autodiff_detach() {
    // k = detach(x * y); z = (x + y) * k: the gradient of both x and y is
    // the value x * y itself, not its derivative propagated further.
    for xv in [rat(-3, 2), rat(0, 1), rat(5, 3)] {
        for yv in [rat(-1, 3), rat(2, 1), rat(7, 2)] {
            let mut t = Tape::new();
            let x = t.constant(xv).unwrap();
            let y = t.constant(yv).unwrap();
            t.requires_grad(x).unwrap();
            t.requires_grad(y).unwrap();
            let xy = t.times(x, y).unwrap();
            let k = t.detach(xy).unwrap();
            let s = t.plus(x, y).unwrap();
            let z = t.times(s, k).unwrap();
            t.backward(z).unwrap();
            let prod = rat(xv.num * yv.num, xv.den * yv.den);
            assert!(grad(&t, x).same_ratio(prod));
            assert!(grad(&t, y).same_ratio(prod));
        }
    }
}

#[test]
fn autodiff_select_nan() {
    // With x < y always, the untaken sqrt(x - y) is evaluated on a negative
    // domain; the gradients must still be exactly 0 and 1/2, never
    // undefined.
    for xv in grid() {
        let yv = rat(xv.num + 10 * xv.den, xv.den);
        let mut t = Tape::new();
        let x = t.constant(xv).unwrap();
        let y = t.constant(yv).unwrap();
        t.requires_grad(x).unwrap();
        t.requires_grad(y).unwrap();
        let cond = t.greater_than(x, y).unwrap();
        let d = t.minus(x, y).unwrap();
        let a = t.square_root(d).unwrap();
        assert_eq!(t.value_of(a).unwrap(), None);
        let ch = t.constant(rat(1, 2)).unwrap();
        let yh = t.times(y, ch).unwrap();
        let z = t.select(cond, a, yh).unwrap();
        t.backward(z).unwrap();
        assert!(!cond);
        assert_eq!(grad(&t, x), rat(0, 1));
        assert!(grad(&t, y).same_ratio(rat(1, 2)));
    }
}

#[test]
fn autodiff_if_nan() {
    // The same scenario through the structured if regions.
    for xv in grid() {
        let yv = rat(xv.num + 10 * xv.den, xv.den);
        let mut t = Tape::new();
        let x = t.constant(xv).unwrap();
        let y = t.constant(yv).unwrap();
        t.requires_grad(x).unwrap();
        t.requires_grad(y).unwrap();
        let cond = t.greater_than(x, y).unwrap();
        t.begin_if(cond).unwrap();
        let d = t.minus(x, y).unwrap();
        let a = t.square_root(d).unwrap();
        t.begin_else(a).unwrap();
        let ch = t.constant(rat(1, 2)).unwrap();
        let yh = t.times(y, ch).unwrap();
        let z = t.end_if(yh).unwrap();
        t.backward(z).unwrap();
        assert!(xv.less_than(yv));
        assert_eq!(grad(&t, x), rat(0, 1));
        assert!(grad(&t, y).same_ratio(rat(1, 2)));
    }
}

#[test]
fn autodiff_if_phi() {
    // z = if x > y { x * 4 } else { y * 1/2 } through the region interface.
    for xv in grid() {
        for yv in [rat(-5, 2), rat(0, 1), rat(2, 1)] {
            let mut t = Tape::new();
            let x = t.constant(xv).unwrap();
            let y = t.constant(yv).unwrap();
            t.requires_grad(x).unwrap();
            t.requires_grad(y).unwrap();
            let cond = t.greater_than(x, y).unwrap();
            t.begin_if(cond).unwrap();
            let c4 = t.constant(rat(4, 1)).unwrap();
            let xt = t.times(x, c4).unwrap();
            t.begin_else(xt).unwrap();
            let ch = t.constant(rat(1, 2)).unwrap();
            let yh = t.times(y, ch).unwrap();
            let z = t.end_if(yh).unwrap();
            t.backward(z).unwrap();
            if cond {
                assert_eq!(grad(&t, x), rat(4, 1));
                assert_eq!(grad(&t, y), rat(0, 1));
            } else {
                assert_eq!(grad(&t, x), rat(0, 1));
                assert!(grad(&t, y).same_ratio(rat(1, 2)));
            }
        }
    }
}

#[test]
fn autodiff_if_phi2() {
    // A branch nested inside a branch: the inner gradients are masked by
    // both conditions.
    for xv in grid() {
        for yv in [rat(-5, 2), rat(0, 1), rat(2, 1)] {
            let mut t = Tape::new();
            let x = t.constant(xv).unwrap();
            let y = t.constant(yv).unwrap();
            t.requires_grad(x).unwrap();
            t.requires_grad(y).unwrap();
            let three = t.constant(rat(3, 1)).unwrap();
            let c1 = t.greater_than(x, y).unwrap();
            let c2 = t.greater_than(x, three).unwrap();
            t.begin_if(c1).unwrap();
            t.begin_if(c2).unwrap();
            let c4 = t.constant(rat(4, 1)).unwrap();
            let x4 = t.times(x, c4).unwrap();
            t.begin_else(x4).unwrap();
            let c2v = t.constant(rat(2, 1)).unwrap();
            let x2 = t.times(x, c2v).unwrap();
            let inner = t.end_if(x2).unwrap();
            t.begin_else(inner).unwrap();
            let ch = t.constant(rat(1, 2)).unwrap();
            let yh = t.times(y, ch).unwrap();
            let z = t.end_if(yh).unwrap();
            t.backward(z).unwrap();
            if c1 {
                if c2 {
                    assert_eq!(grad(&t, x), rat(4, 1));
                } else {
                    assert_eq!(grad(&t, x), rat(2, 1));
                }
                assert_eq!(grad(&t, y), rat(0, 1));
            } else {
                assert_eq!(grad(&t, x), rat(0, 1));
                assert!(grad(&t, y).same_ratio(rat(1, 2)));
            }
        }
    }
}

#[test]
fn autodiff_if_phi3() {
    // A switch inside a branch, scaled afterwards: the selected case's
    // derivative is multiplied by the outer factor.
    for xv in grid() {
        for yv in [rat(-5, 2), rat(0, 1), rat(2, 1)] {
            let mut t = Tape::new();
            let x = t.constant(xv).unwrap();
            let y = t.constant(yv).unwrap();
            t.requires_grad(x).unwrap();
            t.requires_grad(y).unwrap();
            let three = t.constant(rat(3, 1)).unwrap();
            let c1 = t.greater_than(x, y).unwrap();
            let key: i64 = if t.greater_than(x, three).unwrap() { 1 } else { 0 };
            t.begin_if(c1).unwrap();
            t.begin_switch(key).unwrap();
            t.begin_case(0).unwrap();
            let c2v = t.constant(rat(2, 1)).unwrap();
            let x2 = t.times(x, c2v).unwrap();
            t.end_case(x2).unwrap();
            t.begin_default().unwrap();
            let c4 = t.constant(rat(4, 1)).unwrap();
            let x4 = t.times(x, c4).unwrap();
            t.end_default(x4).unwrap();
            let sw = t.end_switch().unwrap();
            let two = t.constant(rat(2, 1)).unwrap();
            let scaled = t.times(sw, two).unwrap();
            t.begin_else(scaled).unwrap();
            let ch = t.constant(rat(1, 2)).unwrap();
            let yh = t.times(y, ch).unwrap();
            let z = t.end_if(yh).unwrap();
            t.backward(z).unwrap();
            if c1 {
                if key == 1 {
                    assert!(grad(&t, x).same_ratio(rat(8, 1)));
                } else {
                    assert!(grad(&t, x).same_ratio(rat(4, 1)));
                }
                assert_eq!(grad(&t, y), rat(0, 1));
            } else {
                assert_eq!(grad(&t, x), rat(0, 1));
                assert!(grad(&t, y).same_ratio(rat(1, 2)));
            }
        }
    }
}

#[test]
fn autodiff_if_phi4() {
    // As autodiff_if_phi3, with the constants loaded from one vector of
    // leaves first.
    for xv in grid() {
        for yv in [rat(-5, 2), rat(0, 1), rat(2, 1)] {
            let mut t = Tape::new();
            let x = t.constant(xv).unwrap();
            let y = t.constant(yv).unwrap();
            t.requires_grad(x).unwrap();
            t.requires_grad(y).unwrap();
            let consts = [
                t.constant(rat(2, 1)).unwrap(),
                t.constant(rat(3, 1)).unwrap(),
                t.constant(rat(4, 1)).unwrap(),
            ];
            let c1 = t.greater_than(x, y).unwrap();
            let key: i64 = if t.greater_than(x, consts[1]).unwrap() { 1 } else { 0 };
            t.begin_if(c1).unwrap();
            t.begin_switch(key).unwrap();
            t.begin_case(0).unwrap();
            let x2 = t.times(x, consts[0]).unwrap();
            t.end_case(x2).unwrap();
            t.begin_default().unwrap();
            let x4 = t.times(x, consts[2]).unwrap();
            t.end_default(x4).unwrap();
            let sw = t.end_switch().unwrap();
            let scaled = t.times(sw, consts[0]).unwrap();
            t.begin_else(scaled).unwrap();
            let ch = t.constant(rat(1, 2)).unwrap();
            let yh = t.times(y, ch).unwrap();
            let z = t.end_if(yh).unwrap();
            t.backward(z).unwrap();
            if c1 {
                if key == 1 {
                    assert!(grad(&t, x).same_ratio(rat(8, 1)));
                } else {
                    assert!(grad(&t, x).same_ratio(rat(4, 1)));
                }
                assert_eq!(grad(&t, y), rat(0, 1));
            } else {
                assert_eq!(grad(&t, x), rat(0, 1));
                assert!(grad(&t, y).same_ratio(rat(1, 2)));
            }
        }
    }
}

#[test]
fn autodiff_switch() {
    // A three-way switch keyed by t in {0, 1, 2}: each lane's gradient is
    // exactly its selected case's derivative and zero elsewhere.
    for key in 0i64..3 {
        for xv in [rat(-3, 2), rat(1, 1), rat(9, 4)] {
            let yv = rat(5, 3);
            let mut t = Tape::new();
            let x = t.constant(xv).unwrap();
            let y = t.constant(yv).unwrap();
            t.requires_grad(x).unwrap();
            t.requires_grad(y).unwrap();
            t.begin_switch(key).unwrap();
            t.begin_case(0).unwrap();
            let c4 = t.constant(rat(4, 1)).unwrap();
            let v0 = t.times(x, c4).unwrap();
            t.end_case(v0).unwrap();
            t.begin_case(1).unwrap();
            let c2 = t.constant(rat(2, 1)).unwrap();
            let v1 = t.times(x, c2).unwrap();
            t.end_case(v1).unwrap();
            t.begin_case(2).unwrap();
            let ch = t.constant(rat(1, 2)).unwrap();
            let v2 = t.times(y, ch).unwrap();
            t.end_case(v2).unwrap();
            let z = t.end_switch().unwrap();
            t.backward(z).unwrap();
            match key {
                0 => {
                    assert_eq!(grad(&t, x), rat(4, 1));
                    assert_eq!(grad(&t, y), rat(0, 1));
                }
                1 => {
                    assert_eq!(grad(&t, x), rat(2, 1));
                    assert_eq!(grad(&t, y), rat(0, 1));
                }
                2 => {
                    assert_eq!(grad(&t, x), rat(0, 1));
                    assert!(grad(&t, y).same_ratio(rat(1, 2)));
                }
                _ => unreachable!(),
            }
        }
    }
}

/// A subroutine that opens its own differentiation scope and exposes the
/// gradients it computed through its return value — the only way across a
/// callable boundary, since traces are never stitched.
fn switch_gradients(xv: Rat, yv: Rat, key: i64) -> (Rat, Rat) {
    let mut t = Tape::new();
    let x = t.constant(xv).unwrap();
    let y = t.constant(yv).unwrap();
    t.requires_grad(x).unwrap();
    t.requires_grad(y).unwrap();
    t.begin_switch(key).unwrap();
    t.begin_case(0).unwrap();
    let c4 = t.constant(rat(4, 1)).unwrap();
    let v0 = t.times(x, c4).unwrap();
    t.end_case(v0).unwrap();
    t.begin_case(1).unwrap();
    let c2 = t.constant(rat(2, 1)).unwrap();
    let v1 = t.times(x, c2).unwrap();
    t.end_case(v1).unwrap();
    t.begin_case(2).unwrap();
    let ch = t.constant(rat(1, 2)).unwrap();
    let v2 = t.times(y, ch).unwrap();
    t.end_case(v2).unwrap();
    let z = t.end_switch().unwrap();
    t.backward(z).unwrap();
    (grad(&t, x), grad(&t, y))
}

#[test]
fn autodiff_callable() {
    // The caller's own scope is untouched by the callee's: the callee's
    // gradients arrive only through its outputs.
    for key in 0i64..3 {
        let mut outer = Tape::new();
        let a = outer.constant(rat(7, 5)).unwrap();
        outer.requires_grad(a).unwrap();
        let (dx, dy) = switch_gradients(rat(-3, 2), rat(5, 3), key);
        match key {
            0 => {
                assert_eq!(dx, rat(4, 1));
                assert_eq!(dy, rat(0, 1));
            }
            1 => {
                assert_eq!(dx, rat(2, 1));
                assert_eq!(dy, rat(0, 1));
            }
            2 => {
                assert_eq!(dx, rat(0, 1));
                assert!(dy.same_ratio(rat(1, 2)));
            }
            _ => unreachable!(),
        }
        // The outer trace still records and differentiates independently.
        let z = outer.times(a, a).unwrap();
        outer.backward(z).unwrap();
        assert!(grad(&outer, a).same_ratio(rat(14, 5)));
    }
}

#[test]
fn autodiff_const() {
    // z = x * k + y * k with k = 2/3.
    let k = rat(2, 3);
    for xv in [rat(1, 1), rat(9, 2)] {
        let yv = rat(7, 3);
        let mut t = Tape::new();
        let x = t.constant(xv).unwrap();
        let y = t.constant(yv).unwrap();
        t.requires_grad(x).unwrap();
        t.requires_grad(y).unwrap();
        let kk = t.constant(k).unwrap();
        let xk = t.times(x, kk).unwrap();
        let yk = t.times(y, kk).unwrap();
        let z = t.plus(xk, yk).unwrap();
        t.backward(z).unwrap();
        assert!(grad(&t, x).same_ratio(k));
        assert!(grad(&t, y).same_ratio(k));
    }
}

#[test]
fn autodiff_struct() {
    // A two-field record whose first field is replaced by 1 + x before the
    // fields are summed: z = (1 + x) + y.
    let mut t = Tape::new();
    let x = t.constant(rat(5, 2)).unwrap();
    let y = t.constant(rat(-1, 3)).unwrap();
    t.requires_grad(x).unwrap();
    t.requires_grad(y).unwrap();
    let one = t.constant(rat(1, 1)).unwrap();
    let fx = t.plus(one, x).unwrap();
    let z = t.plus(fx, y).unwrap();
    t.backward(z).unwrap();
    assert!(grad(&t, x).same_ratio(rat(1, 1)));
    assert!(grad(&t, y).same_ratio(rat(1, 1)));
}

#[test]
fn autodiff_div() {
    // z = x / y: dz/dx = 1/y and dz/dy = -x/y^2, exactly.
    let xv = rat(3, 2);
    let yv = rat(5, 4);
    let mut t = Tape::new();
    let x = t.constant(xv).unwrap();
    let y = t.constant(yv).unwrap();
    t.requires_grad(x).unwrap();
    t.requires_grad(y).unwrap();
    let z = t.divide(x, y).unwrap();
    t.backward(z).unwrap();
    assert!(grad(&t, x).same_ratio(rat(4, 5)));
    assert!(grad(&t, y).same_ratio(rat(-24, 25)));
}

#[test]
fn autodiff_lerp() {
    // lerp(x, y, s) = x + (y - x) * s: dx = 1 - s, dy = s, ds = y - x.
    let xv = rat(1, 2);
    let yv = rat(7, 2);
    let sv = rat(1, 3);
    let mut t = Tape::new();
    let x = t.constant(xv).unwrap();
    let y = t.constant(yv).unwrap();
    let s = t.constant(sv).unwrap();
    t.requires_grad(x).unwrap();
    t.requires_grad(y).unwrap();
    t.requires_grad(s).unwrap();
    let d = t.minus(y, x).unwrap();
    let ds = t.times(d, s).unwrap();
    let z = t.plus(x, ds).unwrap();
    t.backward(z).unwrap();
    assert!(grad(&t, x).same_ratio(rat(2, 3)));
    assert!(grad(&t, y).same_ratio(rat(1, 3)));
    assert!(grad(&t, s).same_ratio(rat(3, 1)));
}

#[test]
fn autodiff_abs() {
    // |x| on a positive domain: gradient exactly one.
    for xv in [rat(1, 10), rat(7, 3), rat(10, 1)] {
        let mut t = Tape::new();
        let x = t.constant(xv).unwrap();
        t.requires_grad(x).unwrap();
        let z = t.absolute(x).unwrap();
        assert_eq!(t.value_of(z).unwrap(), Some(xv));
        t.backward(z).unwrap();
        assert!(grad(&t, x).same_ratio(rat(1, 1)));
    }
}

#[test]
fn autodiff_abs2() {
    // |x| on a negative domain: gradient exactly minus one.
    for xv in [rat(-1, 10), rat(-7, 3), rat(-10, 1)] {
        let mut t = Tape::new();
        let x = t.constant(xv).unwrap();
        t.requires_grad(x).unwrap();
        let z = t.absolute(x).unwrap();
        t.backward(z).unwrap();
        assert!(grad(&t, x).same_ratio(rat(-1, 1)));
    }
}

#[test]
fn autodiff_rsqrt() {
    // 1 / sqrt(x) at x = 9/4: the gradient is -1/(2 x^(3/2)) = -4/27.
    let mut t = Tape::new();
    let x = t.constant(rat(9, 4)).unwrap();
    t.requires_grad(x).unwrap();
    let s = t.square_root(x).unwrap();
    let one = t.constant(rat(1, 1)).unwrap();
    let r = t.divide(one, s).unwrap();
    assert!(t.value_of(r).unwrap().unwrap().same_ratio(rat(2, 3)));
    t.backward(r).unwrap();
    assert!(grad(&t, x).same_ratio(rat(-4, 27)));
}

#[test]
fn autodiff_sqrt() {
    // sqrt(x) at an exactly representable point: gradient 1/(2 sqrt(x)).
    let mut t = Tape::new();
    let x = t.constant(rat(25, 16)).unwrap();
    t.requires_grad(x).unwrap();
    let s = t.square_root(x).unwrap();
    assert_eq!(t.value_of(s).unwrap(), Some(rat(5, 4)));
    t.backward(s).unwrap();
    assert!(grad(&t, x).same_ratio(rat(2, 5)));
}

#[test]
fn autodiff_state_machine_errors() {
    let mut t = Tape::new();
    let x = t.constant(rat(2, 1)).unwrap();
    t.requires_grad(x).unwrap();
    // gradient before backward
    assert_eq!(t.gradient(x), Err(AdError::NoActiveBackwardPass));
    // an index from nowhere
    assert_eq!(t.requires_grad(17), Err(AdError::UntrackedValue));
    assert_eq!(t.times(x, 17), Err(AdError::UntrackedValue));
    // a region must be closed before backward
    t.begin_if(true).unwrap();
    assert_eq!(t.backward(x), Err(AdError::BranchMismatch));
    t.begin_else(x).unwrap();
    let z = t.end_if(x).unwrap();
    // closing what is not open
    assert_eq!(t.end_if(x), Err(AdError::BranchMismatch));
    assert_eq!(t.begin_else(x), Err(AdError::BranchMismatch));
    assert_eq!(t.end_switch(), Err(AdError::BranchMismatch));
    t.backward(z).unwrap();
    // the scope is finished: no recording, no marking, no second pass
    assert_eq!(t.constant(rat(1, 1)), Err(AdError::RecordingFinished));
    assert_eq!(t.requires_grad(x), Err(AdError::RecordingFinished));
    assert_eq!(t.backward(z), Err(AdError::RecordingFinished));
    // an unmarked node has no gradient accumulator
    assert_eq!(t.gradient(z), Err(AdError::NotALeaf));
    // the marked leaf reads back
    assert!(grad(&t, x).same_ratio(rat(1, 1)));
}

#[test]
fn autodiff_switch_body_blocked() {
    // Directly inside a switch body, outside any case, nothing may be
    // recorded.
    let mut t = Tape::new();
    let x = t.constant(rat(1, 1)).unwrap();
    t.begin_switch(0).unwrap();
    assert_eq!(t.constant(rat(1, 1)), Err(AdError::BranchMismatch));
    assert_eq!(t.times(x, x), Err(AdError::BranchMismatch));
    t.begin_case(0).unwrap();
    let v = t.times(x, x).unwrap();
    t.end_case(v).unwrap();
    // cases may not follow the default
    t.begin_default().unwrap();
    t.end_default(v).unwrap();
    assert_eq!(t.begin_case(1), Err(AdError::BranchMismatch));
    let z = t.end_switch().unwrap();
    t.requires_grad(x).unwrap();
    t.backward(z).unwrap();
    assert!(grad(&t, x).same_ratio(rat(2, 1)));
}

#[test]
fn autodiff_select_lane_gradients() {
    // The packaged select scenario gives the same exact answers.
    assert_eq!(
        select_lane_gradients(rat(3, 1), rat(1, 2)),
        (Some(rat(4, 1)), Some(rat(0, 1)))
    );
    assert_eq!(
        select_lane_gradients(rat(-1, 2), rat(1, 2)),
        (Some(rat(0, 1)), Some(rat(1, 2)))
    );
    assert_eq!(
        select_lane_gradients(rat(1, 2), rat(1, 2)),
        (Some(rat(0, 1)), Some(rat(1, 2)))
    );
}

#[test]
fn autodiff_masked_sqrt_gradients() {
    // The packaged masked-sqrt scenario: for x < y the gradients are
    // exactly 0 and 1/2 even though sqrt(x - y) is undefined.
    for xv in grid() {
        let yv = rat(xv.num + xv.den, xv.den);
        assert_eq!(
            masked_sqrt_gradients(xv, yv),
            (Some(rat(0, 1)), Some(rat(1, 2)))
        );
    }
}

#[test]
fn autodiff_switch_lane_gradients() {
    // The packaged switch scenario gives each key its exact gradients.
    assert_eq!(
        switch_lane_gradients(rat(-3, 2), rat(5, 3), 0),
        (Some(rat(4, 1)), Some(rat(0, 1)))
    );
    assert_eq!(
        switch_lane_gradients(rat(-3, 2), rat(5, 3), 1),
        (Some(rat(2, 1)), Some(rat(0, 1)))
    );
    assert_eq!(
        switch_lane_gradients(rat(-3, 2), rat(5, 3), 2),
        (Some(rat(0, 1)), Some(rat(1, 2)))
    );
}

#[test]
fn autodiff_switch_duplicate_tag_first_wins() {
    // Two cases with the same tag: only the first is ever active, so only
    // it receives adjoint.
    let mut t = Tape::new();
    let x = t.constant(rat(2, 1)).unwrap();
    t.requires_grad(x).unwrap();
    t.begin_switch(0).unwrap();
    t.begin_case(0).unwrap();
    let c4 = t.constant(rat(4, 1)).unwrap();
    let v0 = t.times(x, c4).unwrap();
    t.end_case(v0).unwrap();
    t.begin_case(0).unwrap();
    let c9 = t.constant(rat(9, 1)).unwrap();
    let v1 = t.times(x, c9).unwrap();
    t.end_case(v1).unwrap();
    let z = t.end_switch().unwrap();
    assert!(t.value_of(z).unwrap().unwrap().same_ratio(rat(8, 1)));
    t.backward(z).unwrap();
    assert_eq!(grad(&t, x), rat(4, 1));
}

#[test]
fn autodiff_switch_no_match_no_default() {
    // A key that matches no case and finds no default merges an undefined
    // value and routes no adjoint anywhere.
    let mut t = Tape::new();
    let x = t.constant(rat(3, 1)).unwrap();
    t.requires_grad(x).unwrap();
    t.begin_switch(9).unwrap();
    t.begin_case(0).unwrap();
    let v = t.times(x, x).unwrap();
    t.end_case(v).unwrap();
    let z = t.end_switch().unwrap();
    assert_eq!(t.value_of(z).unwrap(), None);
    t.backward(z).unwrap();
    assert_eq!(grad(&t, x), rat(0, 1));
}
