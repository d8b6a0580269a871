use simple_renderer::math::{
    cross, dot_vec1, dot_vec2, dot_vec3, dot_vec4, identity_mat3x3, null_mat3x3, zero_vec1, zero_vec2, zero_vec3,
    zero_vec4, Mat3x3, Mat4x4, Vec1, Vec2, Vec3, Vec4,
};

fn m4(rows: [[i32; 4]; 4]) -> Mat4x4<i32> {
    Mat4x4 {
        r1: Vec4 { x: rows[0][0], y: rows[0][1], z: rows[0][2], w: rows[0][3] },
        r2: Vec4 { x: rows[1][0], y: rows[1][1], z: rows[1][2], w: rows[1][3] },
        r3: Vec4 { x: rows[2][0], y: rows[2][1], z: rows[2][2], w: rows[2][3] },
        r4: Vec4 { x: rows[3][0], y: rows[3][1], z: rows[3][2], w: rows[3][3] },
    }
}

fn rows4(m: Mat4x4<i32>) -> [[i32; 4]; 4] {
    [
        [m.r1.x, m.r1.y, m.r1.z, m.r1.w],
        [m.r2.x, m.r2.y, m.r2.z, m.r2.w],
        [m.r3.x, m.r3.y, m.r3.z, m.r3.w],
        [m.r4.x, m.r4.y, m.r4.z, m.r4.w],
    ]
}

#[test]
fn dot_products() {
    assert_eq!(dot_vec1(Vec1 { x: 3u32 }, Vec1 { x: 4 }), 12);
    assert_eq!(dot_vec2(Vec2 { x: 1u32, y: 2 }, Vec2 { x: 3, y: 4 }), 11);
    assert_eq!(dot_vec3(Vec3 { x: 1i32, y: 2, z: 3 }, Vec3 { x: 4, y: -5, z: 6 }), 12);
    assert_eq!(dot_vec4(Vec4 { x: 1u32, y: 2, z: 3, w: 4 }, Vec4 { x: 5, y: 6, z: 7, w: 8 }), 70);
}

#[test]
fn cross_product() {
    let c = cross(Vec3 { x: 1i32, y: 0, z: 0 }, Vec3 { x: 0, y: 1, z: 0 });
    assert_eq!((c.x, c.y, c.z), (0, 0, 1));
    let d = cross(Vec3 { x: 2i32, y: 3, z: 4 }, Vec3 { x: 5, y: 6, z: 7 });
    assert_eq!((d.x, d.y, d.z), (-3, 6, -3));
}

#[test]
fn constructors_fill_zero_and_one() {
    let z = Vec4::<u32>::null();
    assert_eq!((z.x, z.y, z.z, z.w), (0, 0, 0, 0));
    let i = Mat4x4::<u32>::identity();
    assert_eq!((i.r1.x, i.r2.y, i.r3.z, i.r4.w, i.r1.w, i.r4.x), (1, 1, 1, 1, 0, 0));
    let n = Mat4x4::<u32>::null();
    assert_eq!((n.r1.x, n.r2.y, n.r4.w), (0, 0, 0));
    let i3 = identity_mat3x3::<u32>();
    assert_eq!((i3.r1.x, i3.r2.y, i3.r3.z, i3.r1.y), (1, 1, 1, 0));
    let n3 = null_mat3x3::<u32>();
    assert_eq!((n3.r1.x, n3.r3.z), (0, 0));
    assert_eq!(zero_vec1::<i32>().x, 0);
    assert_eq!((zero_vec2::<i32>().x, zero_vec2::<i32>().y), (0, 0));
    let z3 = zero_vec3::<f32>();
    assert_eq!((z3.x, z3.y, z3.z), (0.0, 0.0, 0.0));
    let z4 = zero_vec4::<i32>();
    assert_eq!((z4.x, z4.w), (0, 0));
    let v = Vec3::<u32>::new(1, 2, 3);
    assert_eq!((v.x, v.y, v.z), (1, 2, 3));
}

#[test]
fn matrix_product() {
    let a = m4([[1, 2, 0, 0], [0, 1, 0, 0], [0, 0, 1, 3], [0, 0, 0, 1]]);
    let b = m4([[2, 0, 0, 1], [0, 2, 0, 0], [1, 0, 1, 0], [0, 0, 0, 1]]);
    assert_eq!(rows4(a * b), [[2, 4, 0, 1], [0, 2, 0, 0], [1, 0, 1, 3], [0, 0, 0, 1]]);
    assert_eq!(rows4(Mat4x4::<i32>::identity() * a), rows4(a));
}

#[test]
fn matrix_times_vector() {
    let a = m4([[1, 2, 0, 0], [0, 1, 0, 0], [0, 0, 1, 3], [0, 0, 0, 1]]);
    let v = a * Vec4 { x: 1, y: 1, z: 1, w: 1 };
    assert_eq!((v.x, v.y, v.z, v.w), (3, 1, 4, 1));
    let m = Mat3x3 { r1: Vec3 { x: 1, y: 0, z: 2 }, r2: Vec3 { x: 0, y: 3, z: 0 }, r3: Vec3 { x: 1, y: 1, z: 1 } };
    let w = m * Vec3 { x: 1, y: 2, z: 3 };
    assert_eq!((w.x, w.y, w.z), (7, 6, 6));
    let p = m * identity_mat3x3::<i32>();
    assert_eq!((p.r1.z, p.r2.y, p.r3.x), (2, 3, 1));
}

#[test]
fn embedding_a_3x3_matrix() {
    let m = Mat3x3 { r1: Vec3 { x: 1, y: 2, z: 3 }, r2: Vec3 { x: 4, y: 5, z: 6 }, r3: Vec3 { x: 7, y: 8, z: 9 } };
    let e: Mat4x4<i32> = Mat4x4::from(m);
    assert_eq!(rows4(e), [[1, 2, 3, 0], [4, 5, 6, 0], [7, 8, 9, 0], [0, 0, 0, 1]]);
}

#[test]
fn vector_arithmetic() {
    let a = Vec3 { x: 1i32, y: 2, z: 3 };
    let b = Vec3 { x: 4i32, y: 5, z: 6 };
    let s = a + b;
    assert_eq!((s.x, s.y, s.z), (5, 7, 9));
    let d = b - a;
    assert_eq!((d.x, d.y, d.z), (3, 3, 3));
    let m = a * 2;
    assert_eq!((m.x, m.y, m.z), (2, 4, 6));
    let q = b / 2;
    assert_eq!((q.x, q.y, q.z), (2, 2, 3));
    let n = -a;
    assert_eq!((n.x, n.y, n.z), (-1, -2, -3));
    let f = Vec2 { x: 1.5f32, y: 2.0 } + Vec2 { x: 0.5, y: 1.0 };
    assert_eq!((f.x, f.y), (2.0, 3.0));
    let g = Vec4 { x: 1, y: 2, z: 3, w: 4 } - Vec4 { x: 1, y: 1, z: 1, w: 1 };
    assert_eq!((g.x, g.w), (0, 3));
    let h = -Vec1 { x: 3i32 };
    assert_eq!(h.x, -3);
}

#[test]
fn cross_product_is_anti_commutative_and_orthogonal() {
    let a = Vec3 { x: 2i64, y: -3, z: 4 };
    let b = Vec3 { x: 5i64, y: 6, z: -7 };
    let c = cross(a, b);
    let d = cross(b, a);
    assert_eq!((c.x, c.y, c.z), (-d.x, -d.y, -d.z));
    assert_eq!(dot_vec3(a, c), 0);
    assert_eq!(dot_vec3(b, c), 0);
    let e = cross(Vec3 { x: 0i64, y: 1, z: 0 }, Vec3 { x: 0, y: 0, z: 1 });
    assert_eq!((e.x, e.y, e.z), (1, 0, 0));
}

#[test]
fn identity_is_neutral_for_the_product() {
    let m = Mat4x4 {
        r1: Vec4 { x: 1u64, y: 2, z: 3, w: 4 },
        r2: Vec4 { x: 5, y: 6, z: 7, w: 8 },
        r3: Vec4 { x: 9, y: 10, z: 11, w: 12 },
        r4: Vec4 { x: 13, y: 14, z: 15, w: 16 },
    };
    let left = Mat4x4::<u64>::identity() * m;
    let right = m * Mat4x4::<u64>::identity();
    for p in [left, right] {
        assert_eq!((p.r1.x, p.r1.y, p.r1.z, p.r1.w), (1, 2, 3, 4));
        assert_eq!((p.r2.x, p.r2.y, p.r2.z, p.r2.w), (5, 6, 7, 8));
        assert_eq!((p.r3.x, p.r3.y, p.r3.z, p.r3.w), (9, 10, 11, 12));
        assert_eq!((p.r4.x, p.r4.y, p.r4.z, p.r4.w), (13, 14, 15, 16));
    }
}
