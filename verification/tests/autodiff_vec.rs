use simt_autodiff::rational::Rat;
use simt_autodiff::tape::Tape;

fn rat(n: i64, d: i64) -> Rat {
    Rat::new(n, d).unwrap()
}

fn grad(t: &Tape, id: usize) -> Rat {
    t.gradient(id).unwrap().unwrap()
}

fn leaf(t: &mut Tape, v: Rat) -> usize {
    let id = t.constant(v).unwrap();
    t.requires_grad(id).unwrap();
    id
}

#[test]
fn autodiff_vec3_reduce_add_manual() {
    // v = (x, y, z); v.x + v.y + v.z: every gradient is exactly one.
    let mut t = Tape::new();
    let x = leaf(&mut t, rat(-3, 2));
    let y = leaf(&mut t, rat(5, 4));
    let z = leaf(&mut t, rat(7, 1));
    let s = t.plus(x, y).unwrap();
    let out = t.plus(s, z).unwrap();
    t.backward(out).unwrap();
    assert!(grad(&t, x).same_ratio(rat(1, 1)));
    assert!(grad(&t, y).same_ratio(rat(1, 1)));
    assert!(grad(&t, z).same_ratio(rat(1, 1)));
}

#[test]
fn autodiff_vec3_reduce_prod_manual() {
    // v.x * v.y * v.z: each gradient is the product of the other two.
    let xv = rat(-3, 2);
    let yv = rat(5, 4);
    let zv = rat(7, 1);
    let mut t = Tape::new();
    let x = leaf(&mut t, xv);
    let y = leaf(&mut t, yv);
    let z = leaf(&mut t, zv);
    let p = t.times(x, y).unwrap();
    let out = t.times(p, z).unwrap();
    t.backward(out).unwrap();
    assert!(grad(&t, x).same_ratio(rat(35, 4)));
    assert!(grad(&t, y).same_ratio(rat(-21, 2)));
    assert!(grad(&t, z).same_ratio(rat(-15, 8)));
}

#[test]
fn autodiff_vec3_reduce_add() {
    // reduce_sum of (x, y, z), built as one balanced reduction.
    let mut t = Tape::new();
    let x = leaf(&mut t, rat(1, 3));
    let y = leaf(&mut t, rat(-2, 5));
    let z = leaf(&mut t, rat(4, 1));
    let s = t.plus(x, y).unwrap();
    let out = t.plus(s, z).unwrap();
    t.backward(out).unwrap();
    assert!(grad(&t, x).same_ratio(rat(1, 1)));
    assert!(grad(&t, y).same_ratio(rat(1, 1)));
    assert!(grad(&t, z).same_ratio(rat(1, 1)));
}

#[test]
fn autodiff_vec3_reduce_mul() {
    // reduce_prod of (x, y, z).
    let mut t = Tape::new();
    let x = leaf(&mut t, rat(2, 1));
    let y = leaf(&mut t, rat(3, 1));
    let z = leaf(&mut t, rat(5, 1));
    let p = t.times(x, y).unwrap();
    let out = t.times(p, z).unwrap();
    t.backward(out).unwrap();
    assert!(grad(&t, x).same_ratio(rat(15, 1)));
    assert!(grad(&t, y).same_ratio(rat(10, 1)));
    assert!(grad(&t, z).same_ratio(rat(6, 1)));
}

#[test]
fn autodiff_vec3_dot() {
    // v.dot(v) = x^2 + y^2 + z^2: the gradient of each lane is twice it.
    let mut t = Tape::new();
    let x = leaf(&mut t, rat(-1, 2));
    let y = leaf(&mut t, rat(3, 4));
    let z = leaf(&mut t, rat(2, 1));
    let xx = t.times(x, x).unwrap();
    let yy = t.times(y, y).unwrap();
    let zz = t.times(z, z).unwrap();
    let s = t.plus(xx, yy).unwrap();
    let out = t.plus(s, zz).unwrap();
    t.backward(out).unwrap();
    assert!(grad(&t, x).same_ratio(rat(-1, 1)));
    assert!(grad(&t, y).same_ratio(rat(3, 2)));
    assert!(grad(&t, z).same_ratio(rat(4, 1)));
}

#[test]
fn autodiff_vec3_length_squared() {
    let mut t = Tape::new();
    let x = leaf(&mut t, rat(5, 3));
    let y = leaf(&mut t, rat(0, 1));
    let z = leaf(&mut t, rat(-7, 6));
    let xx = t.times(x, x).unwrap();
    let yy = t.times(y, y).unwrap();
    let zz = t.times(z, z).unwrap();
    let s = t.plus(xx, yy).unwrap();
    let out = t.plus(s, zz).unwrap();
    t.backward(out).unwrap();
    assert!(grad(&t, x).same_ratio(rat(10, 3)));
    assert!(grad(&t, y).same_ratio(rat(0, 1)));
    assert!(grad(&t, z).same_ratio(rat(-7, 3)));
}

#[test]
fn autodiff_vec3_length() {
    // |(3, 4, 0)| = 5: the gradient of each lane is lane / length.
    let mut t = Tape::new();
    let x = leaf(&mut t, rat(3, 1));
    let y = leaf(&mut t, rat(4, 1));
    let z = leaf(&mut t, rat(0, 1));
    let xx = t.times(x, x).unwrap();
    let yy = t.times(y, y).unwrap();
    let zz = t.times(z, z).unwrap();
    let s = t.plus(xx, yy).unwrap();
    let dot = t.plus(s, zz).unwrap();
    let len = t.square_root(dot).unwrap();
    assert_eq!(t.value_of(len).unwrap(), Some(rat(5, 1)));
    t.backward(len).unwrap();
    assert!(grad(&t, x).same_ratio(rat(3, 5)));
    assert!(grad(&t, y).same_ratio(rat(4, 5)));
    assert!(grad(&t, z).same_ratio(rat(0, 1)));
}

#[test]
fn autodiff_vec3_normalize() {
    // normalize((3, 4, 0)).x = x / |v|: d/dx = (|v|^2 - x^2) / |v|^3.
    let mut t = Tape::new();
    let x = leaf(&mut t, rat(3, 1));
    let y = leaf(&mut t, rat(4, 1));
    let z = leaf(&mut t, rat(0, 1));
    let xx = t.times(x, x).unwrap();
    let yy = t.times(y, y).unwrap();
    let zz = t.times(z, z).unwrap();
    let s = t.plus(xx, yy).unwrap();
    let dot = t.plus(s, zz).unwrap();
    let len = t.square_root(dot).unwrap();
    let nx = t.divide(x, len).unwrap();
    t.backward(nx).unwrap();
    assert!(grad(&t, x).same_ratio(rat(16, 125)));
    assert!(grad(&t, y).same_ratio(rat(-12, 125)));
    assert!(grad(&t, z).same_ratio(rat(0, 1)));
}

#[test]
fn autodiff_vec3_cross_x() {
    // (a x b).x = a.y * b.z - a.z * b.y.
    let ayv = rat(2, 1);
    let azv = rat(-1, 2);
    let byv = rat(5, 3);
    let bzv = rat(7, 4);
    let mut t = Tape::new();
    let ay = leaf(&mut t, ayv);
    let az = leaf(&mut t, azv);
    let by = leaf(&mut t, byv);
    let bz = leaf(&mut t, bzv);
    let p1 = t.times(ay, bz).unwrap();
    let p2 = t.times(az, by).unwrap();
    let out = t.minus(p1, p2).unwrap();
    t.backward(out).unwrap();
    assert!(grad(&t, ay).same_ratio(bzv));
    assert!(grad(&t, az).same_ratio(rat(-5, 3)));
    assert!(grad(&t, by).same_ratio(rat(1, 2)));
    assert!(grad(&t, bz).same_ratio(ayv));
}

#[test]
fn autodiff_vec3_cross_y() {
    // (a x b).y = a.z * b.x - a.x * b.z.
    let axv = rat(1, 3);
    let azv = rat(-1, 2);
    let bxv = rat(4, 1);
    let bzv = rat(7, 4);
    let mut t = Tape::new();
    let ax = leaf(&mut t, axv);
    let az = leaf(&mut t, azv);
    let bx = leaf(&mut t, bxv);
    let bz = leaf(&mut t, bzv);
    let p1 = t.times(az, bx).unwrap();
    let p2 = t.times(ax, bz).unwrap();
    let out = t.minus(p1, p2).unwrap();
    t.backward(out).unwrap();
    assert!(grad(&t, az).same_ratio(bxv));
    assert!(grad(&t, ax).same_ratio(rat(-7, 4)));
    assert!(grad(&t, bx).same_ratio(azv));
    assert!(grad(&t, bz).same_ratio(rat(-1, 3)));
}

#[test]
fn autodiff_vec3_cross_z() {
    // (a x b).z = a.x * b.y - a.y * b.x.
    let axv = rat(1, 3);
    let ayv = rat(2, 1);
    let bxv = rat(4, 1);
    let byv = rat(5, 3);
    let mut t = Tape::new();
    let ax = leaf(&mut t, axv);
    let ay = leaf(&mut t, ayv);
    let bx = leaf(&mut t, bxv);
    let by = leaf(&mut t, byv);
    let p1 = t.times(ax, by).unwrap();
    let p2 = t.times(ay, bx).unwrap();
    let out = t.minus(p1, p2).unwrap();
    t.backward(out).unwrap();
    assert!(grad(&t, ax).same_ratio(byv));
    assert!(grad(&t, ay).same_ratio(rat(-4, 1)));
    assert!(grad(&t, bx).same_ratio(rat(-2, 1)));
    assert!(grad(&t, by).same_ratio(axv));
}

#[test]
fn autodiff_vec3_distance() {
    // |a - b| with a = (3, 4, 0), b = (0, 0, 0): gradients (3/5, 4/5, 0)
    // for a and their negations for b.
    let mut t = Tape::new();
    let ax = leaf(&mut t, rat(3, 1));
    let ay = leaf(&mut t, rat(4, 1));
    let az = leaf(&mut t, rat(0, 1));
    let bx = leaf(&mut t, rat(0, 1));
    let by = leaf(&mut t, rat(0, 1));
    let bz = leaf(&mut t, rat(0, 1));
    let dx = t.minus(ax, bx).unwrap();
    let dy = t.minus(ay, by).unwrap();
    let dz = t.minus(az, bz).unwrap();
    let xx = t.times(dx, dx).unwrap();
    let yy = t.times(dy, dy).unwrap();
    let zz = t.times(dz, dz).unwrap();
    let s = t.plus(xx, yy).unwrap();
    let dot = t.plus(s, zz).unwrap();
    let out = t.square_root(dot).unwrap();
    t.backward(out).unwrap();
    assert!(grad(&t, ax).same_ratio(rat(3, 5)));
    assert!(grad(&t, ay).same_ratio(rat(4, 5)));
    assert!(grad(&t, az).same_ratio(rat(0, 1)));
    assert!(grad(&t, bx).same_ratio(rat(-3, 5)));
    assert!(grad(&t, by).same_ratio(rat(-4, 5)));
    assert!(grad(&t, bz).same_ratio(rat(0, 1)));
}

#[test]
fn autodiff_vec3_replace() {
    // c = a.set_y(w); a.dot(c) = x^2 + y*w + z^2.
    let xv = rat(1, 2);
    let yv = rat(3, 1);
    let zv = rat(-2, 3);
    let wv = rat(5, 4);
    let mut t = Tape::new();
    let x = leaf(&mut t, xv);
    let y = leaf(&mut t, yv);
    let z = leaf(&mut t, zv);
    let w = leaf(&mut t, wv);
    let xx = t.times(x, x).unwrap();
    let yw = t.times(y, w).unwrap();
    let zz = t.times(z, z).unwrap();
    let s = t.plus(xx, yw).unwrap();
    let out = t.plus(s, zz).unwrap();
    t.backward(out).unwrap();
    assert!(grad(&t, x).same_ratio(rat(1, 1)));
    assert!(grad(&t, y).same_ratio(wv));
    assert!(grad(&t, z).same_ratio(rat(-4, 3)));
    assert!(grad(&t, w).same_ratio(yv));
}

#[test]
fn autodiff_matmul_transpose() {
    // o = transpose(M) * d; o.y is the dot product of M's second column
    // with d.
    let b_col = [rat(3, 1), rat(0, 1), rat(5, 2)];
    let dv = [rat(1, 3), rat(-4, 1), rat(3, 2)];
    let mut t = Tape::new();
    let mut b = Vec::new();
    for v in b_col.iter() {
        b.push(leaf(&mut t, *v));
    }
    let mut d = Vec::new();
    for v in dv.iter() {
        d.push(leaf(&mut t, *v));
    }
    let p0 = t.times(b[0], d[0]).unwrap();
    let p1 = t.times(b[1], d[1]).unwrap();
    let p2 = t.times(b[2], d[2]).unwrap();
    let s = t.plus(p0, p1).unwrap();
    let oy = t.plus(s, p2).unwrap();
    t.backward(oy).unwrap();
    for i in 0..3 {
        assert!(grad(&t, b[i]).same_ratio(dv[i]));
        assert!(grad(&t, d[i]).same_ratio(b_col[i]));
    }
}

/// Records rows-times-vector products for a 3x3 matrix given by columns,
/// returning the three result node indices.
fn mat_vec(t: &mut Tape, cols: &[Vec<usize>], v: &[usize]) -> Vec<usize> {
    let mut out = Vec::new();
    for row in 0..3 {
        let p0 = t.times(cols[0][row], v[0]).unwrap();
        let p1 = t.times(cols[1][row], v[1]).unwrap();
        let p2 = t.times(cols[2][row], v[2]).unwrap();
        let s = t.plus(p0, p1).unwrap();
        out.push(t.plus(s, p2).unwrap());
    }
    out
}

fn matmul_fixture(t: &mut Tape) -> (Vec<Vec<usize>>, Vec<usize>) {
    // columns (1,2,0), (0,1,3), (2,1,1); d = (1, 2, -1)
    let cols_v = [
        [rat(1, 1), rat(2, 1), rat(0, 1)],
        [rat(0, 1), rat(1, 1), rat(3, 1)],
        [rat(2, 1), rat(1, 1), rat(1, 1)],
    ];
    let dv = [rat(1, 1), rat(2, 1), rat(-1, 1)];
    let mut cols = Vec::new();
    for col in cols_v.iter() {
        let mut ids = Vec::new();
        for v in col.iter() {
            ids.push(leaf(t, *v));
        }
        cols.push(ids);
    }
    let mut d = Vec::new();
    for v in dv.iter() {
        d.push(leaf(t, *v));
    }
    (cols, d)
}

#[test]
fn autodiff_matmul_2() {
    // o = M * (M * d); the gradient of o.z with respect to an entry in row
    // r, column c is [r == 3] * (M d)_c + (row 3 of M)_r * d_c.
    let mut t = Tape::new();
    let (cols, d) = matmul_fixture(&mut t);
    let v = mat_vec(&mut t, &cols, &d);
    let o = mat_vec(&mut t, &cols, &v);
    assert!(t.value_of(o[2]).unwrap().unwrap().same_ratio(rat(14, 1)));
    t.backward(o[2]).unwrap();
    let expect_m = [[rat(0, 1), rat(3, 1), rat(0, 1)], [rat(0, 1), rat(6, 1), rat(5, 1)], [
        rat(0, 1),
        rat(-3, 1),
        rat(4, 1),
    ]];
    for col in 0..3 {
        for row in 0..3 {
            assert!(grad(&t, cols[col][row]).same_ratio(expect_m[col][row]));
        }
    }
    let expect_d = [rat(6, 1), rat(6, 1), rat(4, 1)];
    for j in 0..3 {
        assert!(grad(&t, d[j]).same_ratio(expect_d[j]));
    }
}

#[test]
fn autodiff_matmul_4() {
    // o = (M * M) * d: the product matrix is materialised first; the
    // gradients are the same as for M * (M * d).
    let mut t = Tape::new();
    let (cols, d) = matmul_fixture(&mut t);
    let mut prod_cols = Vec::new();
    for j in 0..3 {
        prod_cols.push(mat_vec(&mut t, &cols, &cols[j]));
    }
    let o = mat_vec(&mut t, &prod_cols, &d);
    assert!(t.value_of(o[2]).unwrap().unwrap().same_ratio(rat(14, 1)));
    t.backward(o[2]).unwrap();
    let expect_m = [[rat(0, 1), rat(3, 1), rat(0, 1)], [rat(0, 1), rat(6, 1), rat(5, 1)], [
        rat(0, 1),
        rat(-3, 1),
        rat(4, 1),
    ]];
    for col in 0..3 {
        for row in 0..3 {
            assert!(grad(&t, cols[col][row]).same_ratio(expect_m[col][row]));
        }
    }
    let expect_d = [rat(6, 1), rat(6, 1), rat(4, 1)];
    for j in 0..3 {
        assert!(grad(&t, d[j]).same_ratio(expect_d[j]));
    }
}

#[test]
fn autodiff_matmul_5() {
    // o = (M comp_mul M) * d: elementwise squaring, so o.z touches only
    // row 3, with gradient 2 * entry * d_c there and entry^2 for d.
    let mut t = Tape::new();
    let (cols, d) = matmul_fixture(&mut t);
    let mut sq_cols = Vec::new();
    for j in 0..3 {
        let mut col = Vec::new();
        for row in 0..3 {
            col.push(t.times(cols[j][row], cols[j][row]).unwrap());
        }
        sq_cols.push(col);
    }
    let o = mat_vec(&mut t, &sq_cols, &d);
    assert!(t.value_of(o[2]).unwrap().unwrap().same_ratio(rat(17, 1)));
    t.backward(o[2]).unwrap();
    let expect_m = [[rat(0, 1), rat(0, 1), rat(0, 1)], [rat(0, 1), rat(0, 1), rat(12, 1)], [
        rat(0, 1),
        rat(0, 1),
        rat(-2, 1),
    ]];
    for col in 0..3 {
        for row in 0..3 {
            assert!(grad(&t, cols[col][row]).same_ratio(expect_m[col][row]));
        }
    }
    let expect_d = [rat(0, 1), rat(9, 1), rat(1, 1)];
    for j in 0..3 {
        assert!(grad(&t, d[j]).same_ratio(expect_d[j]));
    }
}

#[test]
fn autodiff_mat_det() {
    // det[a | b | c] = a . (b x c): the gradient with respect to each
    // column is the cross product of the other two.
    let av = [rat(1, 1), rat(2, 1), rat(3, 1)];
    let bv = [rat(2, 1), rat(0, 1), rat(1, 1)];
    let cv = [rat(1, 1), rat(1, 1), rat(4, 1)];
    let mut t = Tape::new();
    let a: Vec<usize> = av.iter().map(|v| leaf(&mut t, *v)).collect();
    let b: Vec<usize> = bv.iter().map(|v| leaf(&mut t, *v)).collect();
    let c: Vec<usize> = cv.iter().map(|v| leaf(&mut t, *v)).collect();
    let m1 = t.times(b[1], c[2]).unwrap();
    let m2 = t.times(b[2], c[1]).unwrap();
    let t1 = t.minus(m1, m2).unwrap();
    let p1 = t.times(a[0], t1).unwrap();
    let m3 = t.times(b[2], c[0]).unwrap();
    let m4 = t.times(b[0], c[2]).unwrap();
    let t2 = t.minus(m3, m4).unwrap();
    let p2 = t.times(a[1], t2).unwrap();
    let m5 = t.times(b[0], c[1]).unwrap();
    let m6 = t.times(b[1], c[0]).unwrap();
    let t3 = t.minus(m5, m6).unwrap();
    let p3 = t.times(a[2], t3).unwrap();
    let s = t.plus(p1, p2).unwrap();
    let det = t.plus(s, p3).unwrap();
    assert!(t.value_of(det).unwrap().unwrap().same_ratio(rat(-9, 1)));
    t.backward(det).unwrap();
    // b x c
    assert!(grad(&t, a[0]).same_ratio(rat(-1, 1)));
    assert!(grad(&t, a[1]).same_ratio(rat(-7, 1)));
    assert!(grad(&t, a[2]).same_ratio(rat(2, 1)));
    // c x a
    assert!(grad(&t, b[0]).same_ratio(rat(-5, 1)));
    assert!(grad(&t, b[1]).same_ratio(rat(1, 1)));
    assert!(grad(&t, b[2]).same_ratio(rat(1, 1)));
    // a x b
    assert!(grad(&t, c[0]).same_ratio(rat(2, 1)));
    assert!(grad(&t, c[1]).same_ratio(rat(5, 1)));
    assert!(grad(&t, c[2]).same_ratio(rat(-4, 1)));
}

#[test]
fn autodiff_matmul() {
    // o = M * d with M = [a | b | c] by columns; o.x depends on the x row
    // and on d alone, and every other lane's gradient is exactly zero.
    let cols = [
        [rat(1, 2), rat(2, 1), rat(-1, 3)],
        [rat(3, 1), rat(0, 1), rat(5, 2)],
        [rat(-2, 1), rat(7, 3), rat(1, 1)],
    ];
    let dv = [rat(1, 3), rat(-4, 1), rat(3, 2)];
    let mut t = Tape::new();
    let mut m = Vec::new();
    for col in cols.iter() {
        let mut ids = Vec::new();
        for v in col.iter() {
            ids.push(leaf(&mut t, *v));
        }
        m.push(ids);
    }
    let mut d = Vec::new();
    for v in dv.iter() {
        d.push(leaf(&mut t, *v));
    }
    // o.x = a.x * d.x + b.x * d.y + c.x * d.z
    let p0 = t.times(m[0][0], d[0]).unwrap();
    let p1 = t.times(m[1][0], d[1]).unwrap();
    let p2 = t.times(m[2][0], d[2]).unwrap();
    let s = t.plus(p0, p1).unwrap();
    let ox = t.plus(s, p2).unwrap();
    t.backward(ox).unwrap();
    assert!(grad(&t, m[0][0]).same_ratio(dv[0]));
    assert!(grad(&t, m[1][0]).same_ratio(dv[1]));
    assert!(grad(&t, m[2][0]).same_ratio(dv[2]));
    assert!(grad(&t, d[0]).same_ratio(cols[0][0]));
    assert!(grad(&t, d[1]).same_ratio(cols[1][0]));
    assert!(grad(&t, d[2]).same_ratio(cols[2][0]));
    for col in 0..3 {
        for row in 1..3 {
            assert_eq!(grad(&t, m[col][row]), Rat::new(0, 1).unwrap());
        }
    }
}
