//! Small fixed-size vectors and matrices, generic in their scalar.

use vstd::prelude::*;
use vstd::std_specs::convert::FromSpec;
use vstd::std_specs::convert::FromSpecImpl;
use vstd::std_specs::ops::{
    AddSpec, AddSpecImpl, DivSpec, DivSpecImpl, MulSpec, MulSpecImpl, NegSpec, NegSpecImpl, SubSpec, SubSpecImpl,
};
use core::ops::{Add, Div, Mul, Neg, Sub};

verus! {

#[derive(Clone, Copy)]
pub struct Vec1<T> {
    pub x: T,
}

#[derive(Clone, Copy)]
pub struct Vec2<T> {
    pub x: T,
    pub y: T,
}

#[derive(Clone, Copy)]
pub struct Vec3<T> {
    pub x: T,
    pub y: T,
    pub z: T,
}

#[derive(Clone, Copy)]
pub struct Vec4<T> {
    pub x: T,
    pub y: T,
    pub z: T,
    pub w: T,
}

#[derive(Clone, Copy)]
pub struct Mat3x3<T> {
    pub r1: Vec3<T>,
    pub r2: Vec3<T>,
    pub r3: Vec3<T>,
}

#[derive(Clone, Copy)]
pub struct Mat4x4<T> {
    pub r1: Vec4<T>,
    pub r2: Vec4<T>,
    pub r3: Vec4<T>,
    pub r4: Vec4<T>,
}

} // verus!


verus! {

pub type Vec1u = Vec1<u32>;
pub type Vec1i = Vec1<i16>;
pub type Vec2u = Vec2<u32>;
pub type Vec2i = Vec2<i16>;
pub type Vec3u = Vec3<u32>;
pub type Vec3i = Vec3<i16>;
pub type Vec4u = Vec4<u32>;
pub type Vec4i = Vec4<i16>;
pub type Mat3x3u = Mat3x3<u32>;
pub type Mat3x3i = Mat3x3<i16>;
pub type Mat4x4u = Mat4x4<u32>;
pub type Mat4x4i = Mat4x4<i16>;

/// The number of components of a vector type.
pub trait VecDimensions<T> {
    const DIMENSIONS: u32;
}

impl<T, S> VecDimensions<T> for Vec1<S> {
    const DIMENSIONS: u32 = 1;
}

impl<T, S> VecDimensions<T> for Vec2<S> {
    const DIMENSIONS: u32 = 2;
}

impl<T, S> VecDimensions<T> for Vec3<S> {
    const DIMENSIONS: u32 = 3;
}

impl<T, S> VecDimensions<T> for Vec4<S> {
    const DIMENSIONS: u32 = 4;
}

/// The OpenGL type number of a scalar type.
pub trait VecGLTypeValue {
    const GL_VALUE: u32;
}

/// The OpenGL type number of the components of a vector type.
pub trait VecGLTypeTrait {
    const GL_TYPE: u32;
}

impl<T: VecGLTypeValue> VecGLTypeTrait for Vec1<T> {
    const GL_TYPE: u32 = T::GL_VALUE;
}

impl<T: VecGLTypeValue> VecGLTypeTrait for Vec2<T> {
    const GL_TYPE: u32 = T::GL_VALUE;
}

impl<T: VecGLTypeValue> VecGLTypeTrait for Vec3<T> {
    const GL_TYPE: u32 = T::GL_VALUE;
}

impl<T: VecGLTypeValue> VecGLTypeTrait for Vec4<T> {
    const GL_TYPE: u32 = T::GL_VALUE;
}

impl VecGLTypeValue for i16 {
    const GL_VALUE: u32 = 0x1404;
}

impl VecGLTypeValue for u32 {
    const GL_VALUE: u32 = 0x1405;
}


impl<T: From<u16>> Vec1<T> {
    pub fn new(x: T) -> (r: Vec1<T>)
        ensures
            r.x == x,
    {
        Vec1 { x }
    }

    /// The vector whose component is `T::from(0)`.
    pub fn null() -> (r: Vec1<T>)
        ensures
            T::obeys_from_spec() ==> r.x == T::from_spec(0u16),
    {
        Vec1 { x: T::from(0u16) }
    }
}

impl<T: From<u16>> Vec2<T> {
    pub fn new(x: T, y: T) -> (r: Vec2<T>)
        ensures
            r.x == x,
            r.y == y,
    {
        Vec2 { x, y }
    }

    /// The vector whose components are `T::from(0)`.
    pub fn null() -> (r: Vec2<T>)
        ensures
            T::obeys_from_spec() ==> r.x == T::from_spec(0u16) && r.y == T::from_spec(0u16),
    {
        Vec2 { x: T::from(0u16), y: T::from(0u16) }
    }
}

impl<T: From<u16>> Vec3<T> {
    pub fn new(x: T, y: T, z: T) -> (r: Vec3<T>)
        ensures
            r.x == x,
            r.y == y,
            r.z == z,
    {
        Vec3 { x, y, z }
    }

    /// The vector whose components are `T::from(0)`.
    pub fn null() -> (r: Vec3<T>)
        ensures
            T::obeys_from_spec() ==> r == (Vec3 { x: T::from_spec(0u16), y: T::from_spec(0u16), z: T::from_spec(0u16) }),
    {
        Vec3 { x: T::from(0u16), y: T::from(0u16), z: T::from(0u16) }
    }
}

/// The vector `(x, y, z, w)`.
pub open spec fn vec4<T>(x: T, y: T, z: T, w: T) -> Vec4<T> {
    Vec4 { x, y, z, w }
}

impl<T: From<u16>> Vec4<T> {
    pub fn new(x: T, y: T, z: T, w: T) -> (r: Vec4<T>)
        ensures
            r == vec4(x, y, z, w),
    {
        Vec4 { x, y, z, w }
    }

    /// The vector whose components are `T::from(0)`.
    pub fn null() -> (r: Vec4<T>)
        ensures
            T::obeys_from_spec() ==> r == vec4(
                T::from_spec(0u16),
                T::from_spec(0u16),
                T::from_spec(0u16),
                T::from_spec(0u16),
            ),
    {
        Vec4 { x: T::from(0u16), y: T::from(0u16), z: T::from(0u16), w: T::from(0u16) }
    }
}

/// The 4x4 matrix with `one` on the diagonal and `zero` elsewhere.
pub open spec fn diagonal4<T>(one: T, zero: T) -> Mat4x4<T> {
    Mat4x4 {
        r1: vec4(one, zero, zero, zero),
        r2: vec4(zero, one, zero, zero),
        r3: vec4(zero, zero, one, zero),
        r4: vec4(zero, zero, zero, one),
    }
}

/// The 3x3 matrix with `one` on the diagonal and `zero` elsewhere.
pub open spec fn diagonal3<T>(one: T, zero: T) -> Mat3x3<T> {
    Mat3x3 {
        r1: Vec3 { x: one, y: zero, z: zero },
        r2: Vec3 { x: zero, y: one, z: zero },
        r3: Vec3 { x: zero, y: zero, z: one },
    }
}

impl<T: From<u16>> Mat4x4<T> {
    /// The identity matrix.
    pub fn identity() -> (r: Mat4x4<T>)
        ensures
            T::obeys_from_spec() ==> r == diagonal4(T::from_spec(1u16), T::from_spec(0u16)),
    {
        Mat4x4 {
            r1: Vec4::new(T::from(1u16), T::from(0u16), T::from(0u16), T::from(0u16)),
            r2: Vec4::new(T::from(0u16), T::from(1u16), T::from(0u16), T::from(0u16)),
            r3: Vec4::new(T::from(0u16), T::from(0u16), T::from(1u16), T::from(0u16)),
            r4: Vec4::new(T::from(0u16), T::from(0u16), T::from(0u16), T::from(1u16)),
        }
    }

    /// The zero matrix.
    pub fn null() -> (r: Mat4x4<T>)
        ensures
            T::obeys_from_spec() ==> r == diagonal4(T::from_spec(0u16), T::from_spec(0u16)),
    {
        Mat4x4 {
            r1: Vec4::new(T::from(0u16), T::from(0u16), T::from(0u16), T::from(0u16)),
            r2: Vec4::new(T::from(0u16), T::from(0u16), T::from(0u16), T::from(0u16)),
            r3: Vec4::new(T::from(0u16), T::from(0u16), T::from(0u16), T::from(0u16)),
            r4: Vec4::new(T::from(0u16), T::from(0u16), T::from(0u16), T::from(0u16)),
        }
    }
}

/// The zero 3x3 matrix.
pub fn null_mat3x3<T: From<u16>>() -> (r: Mat3x3<T>)
    ensures
        T::obeys_from_spec() ==> r == diagonal3(T::from_spec(0u16), T::from_spec(0u16)),
{
    Mat3x3 {
        r1: Vec3::new(T::from(0u16), T::from(0u16), T::from(0u16)),
        r2: Vec3::new(T::from(0u16), T::from(0u16), T::from(0u16)),
        r3: Vec3::new(T::from(0u16), T::from(0u16), T::from(0u16)),
    }
}

/// The identity 3x3 matrix.
pub fn identity_mat3x3<T: From<u16>>() -> (r: Mat3x3<T>)
    ensures
        T::obeys_from_spec() ==> r == diagonal3(T::from_spec(1u16), T::from_spec(0u16)),
{
    Mat3x3 {
        r1: Vec3::new(T::from(1u16), T::from(0u16), T::from(0u16)),
        r2: Vec3::new(T::from(0u16), T::from(1u16), T::from(0u16)),
        r3: Vec3::new(T::from(0u16), T::from(0u16), T::from(1u16)),
    }
}

/// The vector whose component is `T::from(0)`.
pub fn zero_vec1<T: From<i16>>() -> (r: Vec1<T>)
    ensures
        T::obeys_from_spec() ==> r.x == T::from_spec(0i16),
{
    Vec1 { x: T::from(0i16) }
}

/// The vector whose components are `T::from(0)`.
pub fn zero_vec2<T: From<i16>>() -> (r: Vec2<T>)
    ensures
        T::obeys_from_spec() ==> r.x == T::from_spec(0i16) && r.y == T::from_spec(0i16),
{
    Vec2 { x: T::from(0i16), y: T::from(0i16) }
}

/// The vector whose components are `T::from(0)`.
pub fn zero_vec3<T: From<i16>>() -> (r: Vec3<T>)
    ensures
        T::obeys_from_spec() ==> r == (Vec3 { x: T::from_spec(0i16), y: T::from_spec(0i16), z: T::from_spec(0i16) }),
{
    Vec3 { x: T::from(0i16), y: T::from(0i16), z: T::from(0i16) }
}

/// The vector whose components are `T::from(0)`.
pub fn zero_vec4<T: From<i16>>() -> (r: Vec4<T>)
    ensures
        T::obeys_from_spec() ==> r == vec4(
            T::from_spec(0i16),
            T::from_spec(0i16),
            T::from_spec(0i16),
            T::from_spec(0i16),
        ),
{
    Vec4 { x: T::from(0i16), y: T::from(0i16), z: T::from(0i16), w: T::from(0i16) }
}

/// `a.x * b.x`.
pub open spec fn dot1_spec<T: Mul<Output = T>>(a: Vec1<T>, b: Vec1<T>) -> T {
    a.x.mul_spec(b.x)
}

/// `a.x * b.x + a.y * b.y`.
pub open spec fn dot2_spec<T: Mul<Output = T> + Add<Output = T>>(a: Vec2<T>, b: Vec2<T>) -> T {
    a.x.mul_spec(b.x).add_spec(a.y.mul_spec(b.y))
}

/// `a.x * b.x + a.y * b.y + a.z * b.z`.
pub open spec fn dot3_spec<T: Mul<Output = T> + Add<Output = T>>(a: Vec3<T>, b: Vec3<T>) -> T {
    a.x.mul_spec(b.x).add_spec(a.y.mul_spec(b.y)).add_spec(a.z.mul_spec(b.z))
}

/// `a.x * b.x + a.y * b.y + a.z * b.z + a.w * b.w`.
pub open spec fn dot4_spec<T: Mul<Output = T> + Add<Output = T>>(a: Vec4<T>, b: Vec4<T>) -> T {
    a.x.mul_spec(b.x).add_spec(a.y.mul_spec(b.y)).add_spec(a.z.mul_spec(b.z)).add_spec(a.w.mul_spec(b.w))
}

/// Every product and sum of `dot2_spec(a, b)` may be computed.
pub open spec fn dot2_req<T: Mul<Output = T> + Add<Output = T>>(a: Vec2<T>, b: Vec2<T>) -> bool {
    &&& a.x.mul_req(b.x)
    &&& a.y.mul_req(b.y)
    &&& a.x.mul_spec(b.x).add_req(a.y.mul_spec(b.y))
}

/// Every product and sum of `dot3_spec(a, b)` may be computed.
pub open spec fn dot3_req<T: Mul<Output = T> + Add<Output = T>>(a: Vec3<T>, b: Vec3<T>) -> bool {
    &&& a.x.mul_req(b.x)
    &&& a.y.mul_req(b.y)
    &&& a.z.mul_req(b.z)
    &&& a.x.mul_spec(b.x).add_req(a.y.mul_spec(b.y))
    &&& a.x.mul_spec(b.x).add_spec(a.y.mul_spec(b.y)).add_req(a.z.mul_spec(b.z))
}

/// Every product and sum of `dot4_spec(a, b)` may be computed.
pub open spec fn dot4_req<T: Mul<Output = T> + Add<Output = T>>(a: Vec4<T>, b: Vec4<T>) -> bool {
    &&& a.x.mul_req(b.x)
    &&& a.y.mul_req(b.y)
    &&& a.z.mul_req(b.z)
    &&& a.w.mul_req(b.w)
    &&& a.x.mul_spec(b.x).add_req(a.y.mul_spec(b.y))
    &&& a.x.mul_spec(b.x).add_spec(a.y.mul_spec(b.y)).add_req(a.z.mul_spec(b.z))
    &&& a.x.mul_spec(b.x).add_spec(a.y.mul_spec(b.y)).add_spec(a.z.mul_spec(b.z)).add_req(a.w.mul_spec(b.w))
}

/// The dot product of two 1-vectors.
pub fn dot_vec1<T: Mul<Output = T> + Copy>(a: Vec1<T>, b: Vec1<T>) -> (r: T)
    requires
        a.x.mul_req(b.x),
    ensures
        T::obeys_mul_spec() ==> r == dot1_spec(a, b),
{
    a.x * b.x
}

/// The dot product of two 2-vectors.
pub fn dot_vec2<T: Mul<Output = T> + Add<Output = T> + Copy>(a: Vec2<T>, b: Vec2<T>) -> (r: T)
    requires
        T::obeys_mul_spec(),
        dot2_req(a, b),
    ensures
        T::obeys_add_spec() ==> r == dot2_spec(a, b),
{
    a.x * b.x + a.y * b.y
}

/// The dot product of two 3-vectors.
pub fn dot_vec3<T: Mul<Output = T> + Add<Output = T> + Copy>(a: Vec3<T>, b: Vec3<T>) -> (r: T)
    requires
        T::obeys_mul_spec(),
        T::obeys_add_spec(),
        dot3_req(a, b),
    ensures
        r == dot3_spec(a, b),
{
    a.x * b.x + a.y * b.y + a.z * b.z
}

/// The dot product of two 4-vectors.
pub fn dot_vec4<T: Mul<Output = T> + Add<Output = T> + Copy>(a: Vec4<T>, b: Vec4<T>) -> (r: T)
    requires
        T::obeys_mul_spec(),
        T::obeys_add_spec(),
        dot4_req(a, b),
    ensures
        r == dot4_spec(a, b),
{
    a.x * b.x + a.y * b.y + a.z * b.z + a.w * b.w
}

/// The cross product `a x b`.
pub open spec fn cross_spec<T: Mul<Output = T> + Sub<Output = T>>(a: Vec3<T>, b: Vec3<T>) -> Vec3<T> {
    Vec3 {
        x: a.y.mul_spec(b.z).sub_spec(a.z.mul_spec(b.y)),
        y: a.z.mul_spec(b.x).sub_spec(a.x.mul_spec(b.z)),
        z: a.x.mul_spec(b.y).sub_spec(a.y.mul_spec(b.x)),
    }
}

/// Every product and difference of `cross_spec(a, b)` may be computed.
pub open spec fn cross_req<T: Mul<Output = T> + Sub<Output = T>>(a: Vec3<T>, b: Vec3<T>) -> bool {
    &&& a.y.mul_req(b.z) && a.z.mul_req(b.y) && a.z.mul_req(b.x)
    &&& a.x.mul_req(b.z) && a.x.mul_req(b.y) && a.y.mul_req(b.x)
    &&& a.y.mul_spec(b.z).sub_req(a.z.mul_spec(b.y))
    &&& a.z.mul_spec(b.x).sub_req(a.x.mul_spec(b.z))
    &&& a.x.mul_spec(b.y).sub_req(a.y.mul_spec(b.x))
}

/// The cross product of two 3-vectors.
pub fn cross<T: Mul<Output = T> + Sub<Output = T> + Copy>(a: Vec3<T>, b: Vec3<T>) -> (r: Vec3<T>)
    requires
        T::obeys_mul_spec(),
        cross_req(a, b),
    ensures
        T::obeys_sub_spec() ==> r == cross_spec(a, b),
{
    Vec3 { x: a.y * b.z - a.z * b.y, y: a.z * b.x - a.x * b.z, z: a.x * b.y - a.y * b.x }
}

/// Column `j` of `m`.
pub open spec fn column4<T>(m: Mat4x4<T>, j: int) -> Vec4<T> {
    if j == 0 {
        vec4(m.r1.x, m.r2.x, m.r3.x, m.r4.x)
    } else if j == 1 {
        vec4(m.r1.y, m.r2.y, m.r3.y, m.r4.y)
    } else if j == 2 {
        vec4(m.r1.z, m.r2.z, m.r3.z, m.r4.z)
    } else {
        vec4(m.r1.w, m.r2.w, m.r3.w, m.r4.w)
    }
}

/// Row `i` of `m`.
pub open spec fn row4<T>(m: Mat4x4<T>, i: int) -> Vec4<T> {
    if i == 0 {
        m.r1
    } else if i == 1 {
        m.r2
    } else if i == 2 {
        m.r3
    } else {
        m.r4
    }
}

/// Row `i` of `a` times column `j` of `b`, for every cell, can be computed.
pub open spec fn product4_req<T: Mul<Output = T> + Add<Output = T>>(a: Mat4x4<T>, b: Mat4x4<T>) -> bool {
    forall|i: int, j: int| 0 <= i < 4 && 0 <= j < 4 ==> #[trigger] dot4_req(row4(a, i), column4(b, j))
}

/// The matrix product `a b`.
pub open spec fn product4<T: Mul<Output = T> + Add<Output = T>>(a: Mat4x4<T>, b: Mat4x4<T>) -> Mat4x4<T> {
    Mat4x4 {
        r1: vec4(dot4_spec(a.r1, column4(b, 0)), dot4_spec(a.r1, column4(b, 1)), dot4_spec(a.r1, column4(b, 2)), dot4_spec(a.r1, column4(b, 3))),
        r2: vec4(dot4_spec(a.r2, column4(b, 0)), dot4_spec(a.r2, column4(b, 1)), dot4_spec(a.r2, column4(b, 2)), dot4_spec(a.r2, column4(b, 3))),
        r3: vec4(dot4_spec(a.r3, column4(b, 0)), dot4_spec(a.r3, column4(b, 1)), dot4_spec(a.r3, column4(b, 2)), dot4_spec(a.r3, column4(b, 3))),
        r4: vec4(dot4_spec(a.r4, column4(b, 0)), dot4_spec(a.r4, column4(b, 1)), dot4_spec(a.r4, column4(b, 2)), dot4_spec(a.r4, column4(b, 3))),
    }
}

impl<T: Mul<Output = T> + Add<Output = T> + Copy + From<u16>> Mul<Mat4x4<T>> for Mat4x4<T> {
    type Output = Mat4x4<T>;

    fn mul(self, other: Mat4x4<T>) -> Mat4x4<T> {
        proof {
            assert(dot4_req(row4(self, 0), column4(other, 0)));
            assert(dot4_req(row4(self, 0), column4(other, 1)));
            assert(dot4_req(row4(self, 0), column4(other, 2)));
            assert(dot4_req(row4(self, 0), column4(other, 3)));
            assert(dot4_req(row4(self, 1), column4(other, 0)));
            assert(dot4_req(row4(self, 1), column4(other, 1)));
            assert(dot4_req(row4(self, 1), column4(other, 2)));
            assert(dot4_req(row4(self, 1), column4(other, 3)));
            assert(dot4_req(row4(self, 2), column4(other, 0)));
            assert(dot4_req(row4(self, 2), column4(other, 1)));
            assert(dot4_req(row4(self, 2), column4(other, 2)));
            assert(dot4_req(row4(self, 2), column4(other, 3)));
            assert(dot4_req(row4(self, 3), column4(other, 0)));
            assert(dot4_req(row4(self, 3), column4(other, 1)));
            assert(dot4_req(row4(self, 3), column4(other, 2)));
            assert(dot4_req(row4(self, 3), column4(other, 3)));
        }
        let c0 = Vec4::new(other.r1.x, other.r2.x, other.r3.x, other.r4.x);
        let c1 = Vec4::new(other.r1.y, other.r2.y, other.r3.y, other.r4.y);
        let c2 = Vec4::new(other.r1.z, other.r2.z, other.r3.z, other.r4.z);
        let c3 = Vec4::new(other.r1.w, other.r2.w, other.r3.w, other.r4.w);
        Mat4x4 {
            r1: Vec4 { x: dot_vec4(self.r1, c0), y: dot_vec4(self.r1, c1), z: dot_vec4(self.r1, c2), w: dot_vec4(self.r1, c3) },
            r2: Vec4 { x: dot_vec4(self.r2, c0), y: dot_vec4(self.r2, c1), z: dot_vec4(self.r2, c2), w: dot_vec4(self.r2, c3) },
            r3: Vec4 { x: dot_vec4(self.r3, c0), y: dot_vec4(self.r3, c1), z: dot_vec4(self.r3, c2), w: dot_vec4(self.r3, c3) },
            r4: Vec4 { x: dot_vec4(self.r4, c0), y: dot_vec4(self.r4, c1), z: dot_vec4(self.r4, c2), w: dot_vec4(self.r4, c3) },
        }
    }
}

impl<T: Mul<Output = T> + Add<Output = T> + Copy + From<u16>> MulSpecImpl<Mat4x4<T>> for Mat4x4<T> {
    open spec fn obeys_mul_spec() -> bool {
        T::obeys_mul_spec() && T::obeys_add_spec()
    }

    open spec fn mul_req(self, rhs: Mat4x4<T>) -> bool {
        T::obeys_mul_spec() && T::obeys_add_spec() && product4_req(self, rhs)
    }

    open spec fn mul_spec(self, rhs: Mat4x4<T>) -> Mat4x4<T> {
        product4(self, rhs)
    }
}

impl<T: Add<Output = T>> Add for Vec1<T> {
    type Output = Vec1<T>;

    fn add(self, other: Vec1<T>) -> Vec1<T> {
        Vec1 { x: self.x + other.x }
    }
}

impl<T: Add<Output = T>> AddSpecImpl for Vec1<T> {
    open spec fn obeys_add_spec() -> bool {
        T::obeys_add_spec()
    }

    open spec fn add_req(self, rhs: Vec1<T>) -> bool {
        self.x.add_req(rhs.x)
    }

    open spec fn add_spec(self, rhs: Vec1<T>) -> Vec1<T> {
        Vec1 { x: self.x.add_spec(rhs.x) }
    }
}

impl<T: Sub<Output = T>> Sub for Vec1<T> {
    type Output = Vec1<T>;

    fn sub(self, other: Vec1<T>) -> Vec1<T> {
        Vec1 { x: self.x - other.x }
    }
}

impl<T: Sub<Output = T>> SubSpecImpl for Vec1<T> {
    open spec fn obeys_sub_spec() -> bool {
        T::obeys_sub_spec()
    }

    open spec fn sub_req(self, rhs: Vec1<T>) -> bool {
        self.x.sub_req(rhs.x)
    }

    open spec fn sub_spec(self, rhs: Vec1<T>) -> Vec1<T> {
        Vec1 { x: self.x.sub_spec(rhs.x) }
    }
}

impl<T: Mul<Output = T> + Copy> Mul<T> for Vec1<T> {
    type Output = Vec1<T>;

    fn mul(self, other: T) -> Vec1<T> {
        Vec1 { x: self.x * other }
    }
}

impl<T: Mul<Output = T> + Copy> MulSpecImpl<T> for Vec1<T> {
    open spec fn obeys_mul_spec() -> bool {
        T::obeys_mul_spec()
    }

    open spec fn mul_req(self, rhs: T) -> bool {
        self.x.mul_req(rhs)
    }

    open spec fn mul_spec(self, rhs: T) -> Vec1<T> {
        Vec1 { x: self.x.mul_spec(rhs) }
    }
}

impl<T: Div<Output = T> + Copy> Div<T> for Vec1<T> {
    type Output = Vec1<T>;

    fn div(self, other: T) -> Vec1<T> {
        Vec1 { x: self.x / other }
    }
}

impl<T: Div<Output = T> + Copy> DivSpecImpl<T> for Vec1<T> {
    open spec fn obeys_div_spec() -> bool {
        T::obeys_div_spec()
    }

    open spec fn div_req(self, rhs: T) -> bool {
        self.x.div_req(rhs)
    }

    open spec fn div_spec(self, rhs: T) -> Vec1<T> {
        Vec1 { x: self.x.div_spec(rhs) }
    }
}

impl<T: Neg<Output = T>> Neg for Vec1<T> {
    type Output = Vec1<T>;

    fn neg(self) -> Vec1<T> {
        Vec1 { x: self.x.neg() }
    }
}

impl<T: Neg<Output = T>> NegSpecImpl for Vec1<T> {
    open spec fn obeys_neg_spec() -> bool {
        T::obeys_neg_spec()
    }

    open spec fn neg_req(self) -> bool {
        self.x.neg_req()
    }

    open spec fn neg_spec(self) -> Vec1<T> {
        Vec1 { x: self.x.neg_spec() }
    }
}

impl<T: Add<Output = T>> Add for Vec2<T> {
    type Output = Vec2<T>;

    fn add(self, other: Vec2<T>) -> Vec2<T> {
        Vec2 { x: self.x + other.x, y: self.y + other.y }
    }
}

impl<T: Add<Output = T>> AddSpecImpl for Vec2<T> {
    open spec fn obeys_add_spec() -> bool {
        T::obeys_add_spec()
    }

    open spec fn add_req(self, rhs: Vec2<T>) -> bool {
        self.x.add_req(rhs.x) && self.y.add_req(rhs.y)
    }

    open spec fn add_spec(self, rhs: Vec2<T>) -> Vec2<T> {
        Vec2 { x: self.x.add_spec(rhs.x), y: self.y.add_spec(rhs.y) }
    }
}

impl<T: Sub<Output = T>> Sub for Vec2<T> {
    type Output = Vec2<T>;

    fn sub(self, other: Vec2<T>) -> Vec2<T> {
        Vec2 { x: self.x - other.x, y: self.y - other.y }
    }
}

impl<T: Sub<Output = T>> SubSpecImpl for Vec2<T> {
    open spec fn obeys_sub_spec() -> bool {
        T::obeys_sub_spec()
    }

    open spec fn sub_req(self, rhs: Vec2<T>) -> bool {
        self.x.sub_req(rhs.x) && self.y.sub_req(rhs.y)
    }

    open spec fn sub_spec(self, rhs: Vec2<T>) -> Vec2<T> {
        Vec2 { x: self.x.sub_spec(rhs.x), y: self.y.sub_spec(rhs.y) }
    }
}

impl<T: Mul<Output = T> + Copy> Mul<T> for Vec2<T> {
    type Output = Vec2<T>;

    fn mul(self, other: T) -> Vec2<T> {
        Vec2 { x: self.x * other, y: self.y * other }
    }
}

impl<T: Mul<Output = T> + Copy> MulSpecImpl<T> for Vec2<T> {
    open spec fn obeys_mul_spec() -> bool {
        T::obeys_mul_spec()
    }

    open spec fn mul_req(self, rhs: T) -> bool {
        self.x.mul_req(rhs) && self.y.mul_req(rhs)
    }

    open spec fn mul_spec(self, rhs: T) -> Vec2<T> {
        Vec2 { x: self.x.mul_spec(rhs), y: self.y.mul_spec(rhs) }
    }
}

impl<T: Div<Output = T> + Copy> Div<T> for Vec2<T> {
    type Output = Vec2<T>;

    fn div(self, other: T) -> Vec2<T> {
        Vec2 { x: self.x / other, y: self.y / other }
    }
}

impl<T: Div<Output = T> + Copy> DivSpecImpl<T> for Vec2<T> {
    open spec fn obeys_div_spec() -> bool {
        T::obeys_div_spec()
    }

    open spec fn div_req(self, rhs: T) -> bool {
        self.x.div_req(rhs) && self.y.div_req(rhs)
    }

    open spec fn div_spec(self, rhs: T) -> Vec2<T> {
        Vec2 { x: self.x.div_spec(rhs), y: self.y.div_spec(rhs) }
    }
}

impl<T: Neg<Output = T>> Neg for Vec2<T> {
    type Output = Vec2<T>;

    fn neg(self) -> Vec2<T> {
        Vec2 { x: self.x.neg(), y: self.y.neg() }
    }
}

impl<T: Neg<Output = T>> NegSpecImpl for Vec2<T> {
    open spec fn obeys_neg_spec() -> bool {
        T::obeys_neg_spec()
    }

    open spec fn neg_req(self) -> bool {
        self.x.neg_req() && self.y.neg_req()
    }

    open spec fn neg_spec(self) -> Vec2<T> {
        Vec2 { x: self.x.neg_spec(), y: self.y.neg_spec() }
    }
}

impl<T: Add<Output = T>> Add for Vec3<T> {
    type Output = Vec3<T>;

    fn add(self, other: Vec3<T>) -> Vec3<T> {
        Vec3 { x: self.x + other.x, y: self.y + other.y, z: self.z + other.z }
    }
}

impl<T: Add<Output = T>> AddSpecImpl for Vec3<T> {
    open spec fn obeys_add_spec() -> bool {
        T::obeys_add_spec()
    }

    open spec fn add_req(self, rhs: Vec3<T>) -> bool {
        self.x.add_req(rhs.x) && self.y.add_req(rhs.y) && self.z.add_req(rhs.z)
    }

    open spec fn add_spec(self, rhs: Vec3<T>) -> Vec3<T> {
        Vec3 { x: self.x.add_spec(rhs.x), y: self.y.add_spec(rhs.y), z: self.z.add_spec(rhs.z) }
    }
}

impl<T: Sub<Output = T>> Sub for Vec3<T> {
    type Output = Vec3<T>;

    fn sub(self, other: Vec3<T>) -> Vec3<T> {
        Vec3 { x: self.x - other.x, y: self.y - other.y, z: self.z - other.z }
    }
}

impl<T: Sub<Output = T>> SubSpecImpl for Vec3<T> {
    open spec fn obeys_sub_spec() -> bool {
        T::obeys_sub_spec()
    }

    open spec fn sub_req(self, rhs: Vec3<T>) -> bool {
        self.x.sub_req(rhs.x) && self.y.sub_req(rhs.y) && self.z.sub_req(rhs.z)
    }

    open spec fn sub_spec(self, rhs: Vec3<T>) -> Vec3<T> {
        Vec3 { x: self.x.sub_spec(rhs.x), y: self.y.sub_spec(rhs.y), z: self.z.sub_spec(rhs.z) }
    }
}

impl<T: Mul<Output = T> + Copy> Mul<T> for Vec3<T> {
    type Output = Vec3<T>;

    fn mul(self, other: T) -> Vec3<T> {
        Vec3 { x: self.x * other, y: self.y * other, z: self.z * other }
    }
}

impl<T: Mul<Output = T> + Copy> MulSpecImpl<T> for Vec3<T> {
    open spec fn obeys_mul_spec() -> bool {
        T::obeys_mul_spec()
    }

    open spec fn mul_req(self, rhs: T) -> bool {
        self.x.mul_req(rhs) && self.y.mul_req(rhs) && self.z.mul_req(rhs)
    }

    open spec fn mul_spec(self, rhs: T) -> Vec3<T> {
        Vec3 { x: self.x.mul_spec(rhs), y: self.y.mul_spec(rhs), z: self.z.mul_spec(rhs) }
    }
}

impl<T: Div<Output = T> + Copy> Div<T> for Vec3<T> {
    type Output = Vec3<T>;

    fn div(self, other: T) -> Vec3<T> {
        Vec3 { x: self.x / other, y: self.y / other, z: self.z / other }
    }
}

impl<T: Div<Output = T> + Copy> DivSpecImpl<T> for Vec3<T> {
    open spec fn obeys_div_spec() -> bool {
        T::obeys_div_spec()
    }

    open spec fn div_req(self, rhs: T) -> bool {
        self.x.div_req(rhs) && self.y.div_req(rhs) && self.z.div_req(rhs)
    }

    open spec fn div_spec(self, rhs: T) -> Vec3<T> {
        Vec3 { x: self.x.div_spec(rhs), y: self.y.div_spec(rhs), z: self.z.div_spec(rhs) }
    }
}

impl<T: Neg<Output = T>> Neg for Vec3<T> {
    type Output = Vec3<T>;

    fn neg(self) -> Vec3<T> {
        Vec3 { x: self.x.neg(), y: self.y.neg(), z: self.z.neg() }
    }
}

impl<T: Neg<Output = T>> NegSpecImpl for Vec3<T> {
    open spec fn obeys_neg_spec() -> bool {
        T::obeys_neg_spec()
    }

    open spec fn neg_req(self) -> bool {
        self.x.neg_req() && self.y.neg_req() && self.z.neg_req()
    }

    open spec fn neg_spec(self) -> Vec3<T> {
        Vec3 { x: self.x.neg_spec(), y: self.y.neg_spec(), z: self.z.neg_spec() }
    }
}

impl<T: Add<Output = T>> Add for Vec4<T> {
    type Output = Vec4<T>;

    fn add(self, other: Vec4<T>) -> Vec4<T> {
        Vec4 { x: self.x + other.x, y: self.y + other.y, z: self.z + other.z, w: self.w + other.w }
    }
}

impl<T: Add<Output = T>> AddSpecImpl for Vec4<T> {
    open spec fn obeys_add_spec() -> bool {
        T::obeys_add_spec()
    }

    open spec fn add_req(self, rhs: Vec4<T>) -> bool {
        self.x.add_req(rhs.x) && self.y.add_req(rhs.y) && self.z.add_req(rhs.z) && self.w.add_req(rhs.w)
    }

    open spec fn add_spec(self, rhs: Vec4<T>) -> Vec4<T> {
        Vec4 { x: self.x.add_spec(rhs.x), y: self.y.add_spec(rhs.y), z: self.z.add_spec(rhs.z), w: self.w.add_spec(rhs.w) }
    }
}

impl<T: Sub<Output = T>> Sub for Vec4<T> {
    type Output = Vec4<T>;

    fn sub(self, other: Vec4<T>) -> Vec4<T> {
        Vec4 { x: self.x - other.x, y: self.y - other.y, z: self.z - other.z, w: self.w - other.w }
    }
}

impl<T: Sub<Output = T>> SubSpecImpl for Vec4<T> {
    open spec fn obeys_sub_spec() -> bool {
        T::obeys_sub_spec()
    }

    open spec fn sub_req(self, rhs: Vec4<T>) -> bool {
        self.x.sub_req(rhs.x) && self.y.sub_req(rhs.y) && self.z.sub_req(rhs.z) && self.w.sub_req(rhs.w)
    }

    open spec fn sub_spec(self, rhs: Vec4<T>) -> Vec4<T> {
        Vec4 { x: self.x.sub_spec(rhs.x), y: self.y.sub_spec(rhs.y), z: self.z.sub_spec(rhs.z), w: self.w.sub_spec(rhs.w) }
    }
}

impl<T: Mul<Output = T> + Copy> Mul<T> for Vec4<T> {
    type Output = Vec4<T>;

    fn mul(self, other: T) -> Vec4<T> {
        Vec4 { x: self.x * other, y: self.y * other, z: self.z * other, w: self.w * other }
    }
}

impl<T: Mul<Output = T> + Copy> MulSpecImpl<T> for Vec4<T> {
    open spec fn obeys_mul_spec() -> bool {
        T::obeys_mul_spec()
    }

    open spec fn mul_req(self, rhs: T) -> bool {
        self.x.mul_req(rhs) && self.y.mul_req(rhs) && self.z.mul_req(rhs) && self.w.mul_req(rhs)
    }

    open spec fn mul_spec(self, rhs: T) -> Vec4<T> {
        Vec4 { x: self.x.mul_spec(rhs), y: self.y.mul_spec(rhs), z: self.z.mul_spec(rhs), w: self.w.mul_spec(rhs) }
    }
}

impl<T: Div<Output = T> + Copy> Div<T> for Vec4<T> {
    type Output = Vec4<T>;

    fn div(self, other: T) -> Vec4<T> {
        Vec4 { x: self.x / other, y: self.y / other, z: self.z / other, w: self.w / other }
    }
}

impl<T: Div<Output = T> + Copy> DivSpecImpl<T> for Vec4<T> {
    open spec fn obeys_div_spec() -> bool {
        T::obeys_div_spec()
    }

    open spec fn div_req(self, rhs: T) -> bool {
        self.x.div_req(rhs) && self.y.div_req(rhs) && self.z.div_req(rhs) && self.w.div_req(rhs)
    }

    open spec fn div_spec(self, rhs: T) -> Vec4<T> {
        Vec4 { x: self.x.div_spec(rhs), y: self.y.div_spec(rhs), z: self.z.div_spec(rhs), w: self.w.div_spec(rhs) }
    }
}

impl<T: Neg<Output = T>> Neg for Vec4<T> {
    type Output = Vec4<T>;

    fn neg(self) -> Vec4<T> {
        Vec4 { x: self.x.neg(), y: self.y.neg(), z: self.z.neg(), w: self.w.neg() }
    }
}

impl<T: Neg<Output = T>> NegSpecImpl for Vec4<T> {
    open spec fn obeys_neg_spec() -> bool {
        T::obeys_neg_spec()
    }

    open spec fn neg_req(self) -> bool {
        self.x.neg_req() && self.y.neg_req() && self.z.neg_req() && self.w.neg_req()
    }

    open spec fn neg_spec(self) -> Vec4<T> {
        Vec4 { x: self.x.neg_spec(), y: self.y.neg_spec(), z: self.z.neg_spec(), w: self.w.neg_spec() }
    }
}


/// `m v`, row by row.
pub open spec fn transform4<T: Mul<Output = T> + Add<Output = T>>(m: Mat4x4<T>, v: Vec4<T>) -> Vec4<T> {
    vec4(dot4_spec(m.r1, v), dot4_spec(m.r2, v), dot4_spec(m.r3, v), dot4_spec(m.r4, v))
}

impl<T: Mul<Output = T> + Add<Output = T> + Copy> Mul<Vec4<T>> for Mat4x4<T> {
    type Output = Vec4<T>;

    fn mul(self, other: Vec4<T>) -> Vec4<T> {
        Vec4 {
            x: dot_vec4(self.r1, other),
            y: dot_vec4(self.r2, other),
            z: dot_vec4(self.r3, other),
            w: dot_vec4(self.r4, other),
        }
    }
}

impl<T: Mul<Output = T> + Add<Output = T> + Copy> MulSpecImpl<Vec4<T>> for Mat4x4<T> {
    open spec fn obeys_mul_spec() -> bool {
        T::obeys_mul_spec() && T::obeys_add_spec()
    }

    open spec fn mul_req(self, rhs: Vec4<T>) -> bool {
        &&& T::obeys_mul_spec()
        &&& T::obeys_add_spec()
        &&& dot4_req(self.r1, rhs)
        &&& dot4_req(self.r2, rhs)
        &&& dot4_req(self.r3, rhs)
        &&& dot4_req(self.r4, rhs)
    }

    open spec fn mul_spec(self, rhs: Vec4<T>) -> Vec4<T> {
        transform4(self, rhs)
    }
}

/// `m v`, row by row.
pub open spec fn transform3<T: Mul<Output = T> + Add<Output = T>>(m: Mat3x3<T>, v: Vec3<T>) -> Vec3<T> {
    Vec3 { x: dot3_spec(m.r1, v), y: dot3_spec(m.r2, v), z: dot3_spec(m.r3, v) }
}

impl<T: Mul<Output = T> + Add<Output = T> + Copy> Mul<Vec3<T>> for Mat3x3<T> {
    type Output = Vec3<T>;

    fn mul(self, other: Vec3<T>) -> Vec3<T> {
        Vec3 { x: dot_vec3(self.r1, other), y: dot_vec3(self.r2, other), z: dot_vec3(self.r3, other) }
    }
}

impl<T: Mul<Output = T> + Add<Output = T> + Copy> MulSpecImpl<Vec3<T>> for Mat3x3<T> {
    open spec fn obeys_mul_spec() -> bool {
        T::obeys_mul_spec() && T::obeys_add_spec()
    }

    open spec fn mul_req(self, rhs: Vec3<T>) -> bool {
        &&& T::obeys_mul_spec()
        &&& T::obeys_add_spec()
        &&& dot3_req(self.r1, rhs)
        &&& dot3_req(self.r2, rhs)
        &&& dot3_req(self.r3, rhs)
    }

    open spec fn mul_spec(self, rhs: Vec3<T>) -> Vec3<T> {
        transform3(self, rhs)
    }
}

/// Column `j` of `m`.
pub open spec fn column3<T>(m: Mat3x3<T>, j: int) -> Vec3<T> {
    if j == 0 {
        Vec3 { x: m.r1.x, y: m.r2.x, z: m.r3.x }
    } else if j == 1 {
        Vec3 { x: m.r1.y, y: m.r2.y, z: m.r3.y }
    } else {
        Vec3 { x: m.r1.z, y: m.r2.z, z: m.r3.z }
    }
}

/// The matrix product `a b`.
pub open spec fn product3<T: Mul<Output = T> + Add<Output = T>>(a: Mat3x3<T>, b: Mat3x3<T>) -> Mat3x3<T> {
    Mat3x3 {
        r1: Vec3 { x: dot3_spec(a.r1, column3(b, 0)), y: dot3_spec(a.r1, column3(b, 1)), z: dot3_spec(a.r1, column3(b, 2)) },
        r2: Vec3 { x: dot3_spec(a.r2, column3(b, 0)), y: dot3_spec(a.r2, column3(b, 1)), z: dot3_spec(a.r2, column3(b, 2)) },
        r3: Vec3 { x: dot3_spec(a.r3, column3(b, 0)), y: dot3_spec(a.r3, column3(b, 1)), z: dot3_spec(a.r3, column3(b, 2)) },
    }
}

/// Every cell of `a b` can be computed.
pub open spec fn product3_req<T: Mul<Output = T> + Add<Output = T>>(a: Mat3x3<T>, b: Mat3x3<T>) -> bool {
    forall|j: int|
        0 <= j < 3 ==> dot3_req(a.r1, #[trigger] column3(b, j)) && dot3_req(a.r2, column3(b, j)) && dot3_req(
            a.r3,
            column3(b, j),
        )
}

impl<T: Mul<Output = T> + Add<Output = T> + Copy + From<u16>> Mul<Mat3x3<T>> for Mat3x3<T> {
    type Output = Mat3x3<T>;

    fn mul(self, other: Mat3x3<T>) -> Mat3x3<T> {
        let c0 = Vec3::new(other.r1.x, other.r2.x, other.r3.x);
        let c1 = Vec3::new(other.r1.y, other.r2.y, other.r3.y);
        let c2 = Vec3::new(other.r1.z, other.r2.z, other.r3.z);
        assert(c0 == column3(other, 0) && c1 == column3(other, 1) && c2 == column3(other, 2));
        Mat3x3 {
            r1: Vec3 { x: dot_vec3(self.r1, c0), y: dot_vec3(self.r1, c1), z: dot_vec3(self.r1, c2) },
            r2: Vec3 { x: dot_vec3(self.r2, c0), y: dot_vec3(self.r2, c1), z: dot_vec3(self.r2, c2) },
            r3: Vec3 { x: dot_vec3(self.r3, c0), y: dot_vec3(self.r3, c1), z: dot_vec3(self.r3, c2) },
        }
    }
}

impl<T: Mul<Output = T> + Add<Output = T> + Copy + From<u16>> MulSpecImpl<Mat3x3<T>> for Mat3x3<T> {
    open spec fn obeys_mul_spec() -> bool {
        T::obeys_mul_spec() && T::obeys_add_spec()
    }

    open spec fn mul_req(self, rhs: Mat3x3<T>) -> bool {
        T::obeys_mul_spec() && T::obeys_add_spec() && product3_req(self, rhs)
    }

    open spec fn mul_spec(self, rhs: Mat3x3<T>) -> Mat3x3<T> {
        product3(self, rhs)
    }
}

/// `src` in the upper left corner of a 4x4 matrix whose last row and column are those of
/// the identity.
pub open spec fn embed3<T>(src: Mat3x3<T>, one: T, zero: T) -> Mat4x4<T> {
    Mat4x4 {
        r1: vec4(src.r1.x, src.r1.y, src.r1.z, zero),
        r2: vec4(src.r2.x, src.r2.y, src.r2.z, zero),
        r3: vec4(src.r3.x, src.r3.y, src.r3.z, zero),
        r4: vec4(zero, zero, zero, one),
    }
}

impl<T: From<u16>> From<Mat3x3<T>> for Mat4x4<T> {
    fn from(src: Mat3x3<T>) -> Mat4x4<T> {
        Mat4x4 {
            r1: Vec4::new(src.r1.x, src.r1.y, src.r1.z, T::from(0u16)),
            r2: Vec4::new(src.r2.x, src.r2.y, src.r2.z, T::from(0u16)),
            r3: Vec4::new(src.r3.x, src.r3.y, src.r3.z, T::from(0u16)),
            r4: Vec4::new(T::from(0u16), T::from(0u16), T::from(0u16), T::from(1u16)),
        }
    }
}

impl<T: From<u16>> FromSpecImpl<Mat3x3<T>> for Mat4x4<T> {
    open spec fn obeys_from_spec() -> bool {
        T::obeys_from_spec()
    }

    open spec fn from_spec(src: Mat3x3<T>) -> Mat4x4<T> {
        embed3(src, T::from_spec(1u16), T::from_spec(0u16))
    }
}

/// The cross product of integer vectors, where it can be computed, is anti-commutative,
/// `a x b == -(b x a)`, and orthogonal to both factors: `a . (a x b) == b . (a x b) == 0`.
pub proof fn lemma_cross_laws(a: Vec3<i64>, b: Vec3<i64>)
    requires
        cross_req(a, b),
    ensures
        ({
            let c = cross_spec(a, b);
            &&& a.x * c.x + a.y * c.y + a.z * c.z == 0
            &&& b.x * c.x + b.y * c.y + b.z * c.z == 0
        }),
        cross_req(b, a) ==> {
            let c = cross_spec(a, b);
            let d = cross_spec(b, a);
            &&& c.x == -d.x
            &&& c.y == -d.y
            &&& c.z == -d.z
        },
{
    let c = cross_spec(a, b);
    let (ax, ay, az, bx, by, bz) = (a.x as int, a.y as int, a.z as int, b.x as int, b.y as int, b.z as int);
    assert(c.x == ay * bz - az * by);
    assert(c.y == az * bx - ax * bz);
    assert(c.z == ax * by - ay * bx);
    assert(ax * (ay * bz - az * by) + ay * (az * bx - ax * bz) + az * (ax * by - ay * bx) == 0) by (nonlinear_arith);
    assert(bx * (ay * bz - az * by) + by * (az * bx - ax * bz) + bz * (ax * by - ay * bx) == 0) by (nonlinear_arith);
    if cross_req(b, a) {
        assert(ay * bz == bz * ay && az * by == by * az) by (nonlinear_arith);
        assert(az * bx == bx * az && ax * bz == bz * ax) by (nonlinear_arith);
        assert(ax * by == by * ax && ay * bx == bx * ay) by (nonlinear_arith);
    }
}

/// The identity matrix is neutral for the matrix product: `I m == m I == m`, for matrices
/// of unsigned integers (where every product is defined). `Mat4x4::<u64>::identity()` is
/// `diagonal4(1, 0)`.
pub proof fn lemma_identity_neutral(m: Mat4x4<u64>)
    ensures
        <u64 as FromSpec<u16>>::obeys_from_spec(),
        diagonal4(<u64 as FromSpec<u16>>::from_spec(1u16), <u64 as FromSpec<u16>>::from_spec(0u16))
            == diagonal4(1u64, 0u64),
        product4_req(diagonal4(1u64, 0u64), m),
        product4(diagonal4(1u64, 0u64), m) == m,
        product4_req(m, diagonal4(1u64, 0u64)),
        product4(m, diagonal4(1u64, 0u64)) == m,
{
    let id = diagonal4(1u64, 0u64);
    assert forall|i: int, j: int| 0 <= i < 4 && 0 <= j < 4 implies #[trigger] dot4_req(row4(id, i), column4(m, j)) by {}
    assert forall|i: int, j: int| 0 <= i < 4 && 0 <= j < 4 implies #[trigger] dot4_req(row4(m, i), column4(id, j)) by {}
}


/// Row `i` of `m`.
pub open spec fn row3<T>(m: Mat3x3<T>, i: int) -> Vec3<T> {
    if i == 0 {
        m.r1
    } else if i == 1 {
        m.r2
    } else {
        m.r3
    }
}

/// The entry of `v` at index `j`.
pub open spec fn entry3<T>(v: Vec3<T>, j: int) -> T {
    if j == 0 {
        v.x
    } else if j == 1 {
        v.y
    } else {
        v.z
    }
}

/// Every cell of the 3x3 matrix product is the dot product of a row of the left factor
/// with a column of the right one: cell `(i, j)` of `a b` is `row i of a . column j of b`,
/// and column `j` of `a b` is `a` applied to column `j` of `b`.
pub proof fn lemma_product3_cells<T: Mul<Output = T> + Add<Output = T>>(a: Mat3x3<T>, b: Mat3x3<T>)
    ensures
        forall|i: int, j: int|
            0 <= i < 3 && 0 <= j < 3 ==> #[trigger] entry3(row3(product3(a, b), i), j) == dot3_spec(
                row3(a, i),
                column3(b, j),
            ),
        forall|j: int| 0 <= j < 3 ==> #[trigger] column3(product3(a, b), j) == transform3(a, column3(b, j)),
{
}

/// The identity matrix is neutral for the 3x3 matrix product: `I m == m I == m`, for
/// matrices of unsigned integers (where every product is defined).
/// `identity_mat3x3::<u64>()` is `diagonal3(1, 0)`.
pub proof fn lemma_identity_neutral3(m: Mat3x3<u64>)
    ensures
        <u64 as FromSpec<u16>>::obeys_from_spec(),
        diagonal3(<u64 as FromSpec<u16>>::from_spec(1u16), <u64 as FromSpec<u16>>::from_spec(0u16))
            == diagonal3(1u64, 0u64),
        product3_req(diagonal3(1u64, 0u64), m),
        product3(diagonal3(1u64, 0u64), m) == m,
        product3_req(m, diagonal3(1u64, 0u64)),
        product3(m, diagonal3(1u64, 0u64)) == m,
{
    let id = diagonal3(1u64, 0u64);
    assert forall|j: int| 0 <= j < 3 implies dot3_req(id.r1, #[trigger] column3(m, j)) && dot3_req(id.r2, column3(m, j))
        && dot3_req(id.r3, column3(m, j)) by {}
    assert forall|j: int| 0 <= j < 3 implies dot3_req(m.r1, #[trigger] column3(id, j)) && dot3_req(m.r2, column3(id, j))
        && dot3_req(m.r3, column3(id, j)) by {}
}

} // verus!
