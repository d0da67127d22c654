//! Points on an integer grid, in the inertial frame of the propagation model
//! and in the scene frame, and the one map between the two frames.
//!
//! A coordinate counts whole units of length; which length a unit is, the
//! caller decides. Coordinates are bounded so that the squared distances and
//! their products, which the occlusion test compares, fit in 128 bits.

use vstd::prelude::*;

verus! {

/// The largest magnitude of a coordinate: 2^28.
pub const COORD_LIMIT: i64 = 268_435_456;

/// A vector of three integers.
pub struct Vec3 {
    pub x: int,
    pub y: int,
    pub z: int,
}

/// `a - b`, component by component.
pub open spec fn minus(a: Vec3, b: Vec3) -> Vec3 {
    Vec3 { x: a.x - b.x, y: a.y - b.y, z: a.z - b.z }
}

/// The scalar product of `a` and `b`.
pub open spec fn dot(a: Vec3, b: Vec3) -> int {
    a.x * b.x + a.y * b.y + a.z * b.z
}

/// The squared length of `a`.
pub open spec fn norm2(a: Vec3) -> int {
    dot(a, a)
}

/// The vector product of `a` and `b`.
pub open spec fn cross(a: Vec3, b: Vec3) -> Vec3 {
    Vec3 { x: a.y * b.z - a.z * b.y, y: a.z * b.x - a.x * b.z, z: a.x * b.y - a.y * b.x }
}

/// Whether `c` may be a coordinate.
pub open spec fn coord_ok(c: int) -> bool {
    -COORD_LIMIT <= c <= COORD_LIMIT
}

/// The image of an inertial position in the scene: the inertial polar axis
/// `z` becomes the scene's up axis `y`, and the inertial `y` axis, negated,
/// becomes the scene's `z`.
pub open spec fn scene_of(p: Vec3) -> Vec3 {
    Vec3 { x: p.x, y: p.z, z: -p.y }
}

/// A position in the inertial frame.
#[derive(Clone, Copy, Debug)]
pub struct InertialPoint {
    x: i64,
    y: i64,
    z: i64,
}

/// A position in the scene frame.
#[derive(Clone, Copy, Debug)]
pub struct ScenePoint {
    x: i64,
    y: i64,
    z: i64,
}

impl View for InertialPoint {
    type V = Vec3;

    closed spec fn view(&self) -> Vec3 {
        Vec3 { x: self.x as int, y: self.y as int, z: self.z as int }
    }
}

impl View for ScenePoint {
    type V = Vec3;

    closed spec fn view(&self) -> Vec3 {
        Vec3 { x: self.x as int, y: self.y as int, z: self.z as int }
    }
}

impl InertialPoint {
    #[verifier::type_invariant]
    spec fn inv(self) -> bool {
        coord_ok(self.x as int) && coord_ok(self.y as int) && coord_ok(self.z as int)
    }

    /// The point with the given coordinates, if each is within the limit.
    pub fn new(x: i64, y: i64, z: i64) -> (out: Option<Self>)
        ensures
            out is Some <==> coord_ok(x as int) && coord_ok(y as int) && coord_ok(z as int),
            out matches Some(p) ==> p@ == (Vec3 { x: x as int, y: y as int, z: z as int }),
    {
        if -COORD_LIMIT <= x && x <= COORD_LIMIT && -COORD_LIMIT <= y && y <= COORD_LIMIT
            && -COORD_LIMIT <= z && z <= COORD_LIMIT {
            Some(InertialPoint { x, y, z })
        } else {
            None
        }
    }

    pub fn x(&self) -> (out: i64)
        ensures
            out == self@.x,
            coord_ok(out as int),
    {
        proof {
            use_type_invariant(self);
        }
        self.x
    }

    pub fn y(&self) -> (out: i64)
        ensures
            out == self@.y,
            coord_ok(out as int),
    {
        proof {
            use_type_invariant(self);
        }
        self.y
    }

    pub fn z(&self) -> (out: i64)
        ensures
            out == self@.z,
            coord_ok(out as int),
    {
        proof {
            use_type_invariant(self);
        }
        self.z
    }
}

impl ScenePoint {
    #[verifier::type_invariant]
    spec fn inv(self) -> bool {
        coord_ok(self.x as int) && coord_ok(self.y as int) && coord_ok(self.z as int)
    }

    /// The point with the given coordinates, if each is within the limit.
    pub fn new(x: i64, y: i64, z: i64) -> (out: Option<Self>)
        ensures
            out is Some <==> coord_ok(x as int) && coord_ok(y as int) && coord_ok(z as int),
            out matches Some(p) ==> p@ == (Vec3 { x: x as int, y: y as int, z: z as int }),
    {
        if -COORD_LIMIT <= x && x <= COORD_LIMIT && -COORD_LIMIT <= y && y <= COORD_LIMIT
            && -COORD_LIMIT <= z && z <= COORD_LIMIT {
            Some(ScenePoint { x, y, z })
        } else {
            None
        }
    }

    /// The centre of the scene.
    pub fn origin() -> (out: Self)
        ensures
            out@ == (Vec3 { x: 0, y: 0, z: 0 }),
    {
        ScenePoint { x: 0, y: 0, z: 0 }
    }

    pub fn x(&self) -> (out: i64)
        ensures
            out == self@.x,
            coord_ok(out as int),
    {
        proof {
            use_type_invariant(self);
        }
        self.x
    }

    pub fn y(&self) -> (out: i64)
        ensures
            out == self@.y,
            coord_ok(out as int),
    {
        proof {
            use_type_invariant(self);
        }
        self.y
    }

    pub fn z(&self) -> (out: i64)
        ensures
            out == self@.z,
            coord_ok(out as int),
    {
        proof {
            use_type_invariant(self);
        }
        self.z
    }
}

/// Maps a position from the inertial frame to the scene frame.
pub fn teme_to_bevy(pos: InertialPoint) -> (out: ScenePoint)
    ensures
        out@ == scene_of(pos@),
{
    let x = pos.x();
    let y = pos.y();
    let z = pos.z();
    ScenePoint { x, y: z, z: -y }
}

/// The map is a rotation: it is linear, it keeps scalar products and with
/// them lengths, and it keeps handedness, since it maps the vector product of
/// two vectors to the vector product of their images.
pub proof fn lemma_scene_of_rotation(a: Vec3, b: Vec3)
    ensures
        scene_of(minus(a, b)) == minus(scene_of(a), scene_of(b)),
        dot(scene_of(a), scene_of(b)) == dot(a, b),
        norm2(scene_of(a)) == norm2(a),
        scene_of(cross(a, b)) == cross(scene_of(a), scene_of(b)),
{
    assert((-a.y) * (-b.y) == a.y * b.y) by (nonlinear_arith);
    assert((-a.y) * (-a.y) == a.y * a.y) by (nonlinear_arith);
    assert(a.z * (-b.y) == -(a.z * b.y)) by (nonlinear_arith);
    assert((-a.y) * b.z == -(a.y * b.z)) by (nonlinear_arith);
    assert((-a.y) * b.x == -(a.y * b.x)) by (nonlinear_arith);
    assert(a.x * (-b.y) == -(a.x * b.y)) by (nonlinear_arith);
}

} // verus!
