//! The camera: where the rays of an image start and where they point.

use vstd::prelude::*;
use vstd::arithmetic::power2::lemma2_to64;
use crate::scalar::{lemma_encodes, Scalar};
use crate::vector::Vector3;

verus! {

/// The encoding of `-2.0`.
pub const MINUS_TWO_BITS: u32 = 0xc000_0000;

/// The encoding of `-1.0`.
pub const MINUS_ONE_BITS: u32 = 0xbf80_0000;

/// The encoding of `2.0`.
pub const TWO_BITS: u32 = 0x4000_0000;

/// The encoding of `4.0`.
pub const FOUR_BITS: u32 = 0x4080_0000;

/// A pinhole camera: the eye, the lower left corner of the image plane, and
/// the two spans of the plane. The ray through the plane coordinates `(u, v)`
/// starts at the eye and points along
/// `lower_left_corner + u * horizontal + v * vertical - origin`.
#[derive(Clone, Copy, Debug, PartialEq, Eq, Structural)]
pub struct Camera {
    origin: Vector3,
    ll_corner: Vector3,
    horizontal: Vector3,
    vertical: Vector3,
}

impl Camera {
    /// The eye, as a spec value.
    pub closed spec fn spec_origin(&self) -> Vector3 {
        self.origin
    }

    /// The lower left corner of the image plane, as a spec value.
    pub closed spec fn spec_lower_left_corner(&self) -> Vector3 {
        self.ll_corner
    }

    /// The span of the image plane from left to right, as a spec value.
    pub closed spec fn spec_horizontal(&self) -> Vector3 {
        self.horizontal
    }

    /// The span of the image plane from bottom to top, as a spec value.
    pub closed spec fn spec_vertical(&self) -> Vector3 {
        self.vertical
    }

    /// The camera at the world's origin that looks down the negative z axis
    /// at a plane one unit away, four units wide and two high: the eye is
    /// `(0, 0, 0)`, the corner `(-2, -1, -1)`, the spans `(4, 0, 0)` and
    /// `(0, 2, 0)`. Neither span is the zero vector.
    pub fn new() -> (camera: Camera)
        ensures
            camera.spec_origin() == Vector3::from_bits(0, 0, 0),
            camera.spec_lower_left_corner() == Vector3::from_bits(
                MINUS_TWO_BITS,
                MINUS_ONE_BITS,
                MINUS_ONE_BITS,
            ),
            camera.spec_horizontal() == Vector3::from_bits(FOUR_BITS, 0, 0),
            camera.spec_vertical() == Vector3::from_bits(0, TWO_BITS, 0),
            !camera.spec_horizontal().is_zero(),
            !camera.spec_vertical().is_zero(),
            camera.spec_lower_left_corner().x.encodes(-2, 1),
            camera.spec_lower_left_corner().y.encodes(-1, 1),
            camera.spec_lower_left_corner().z.encodes(-1, 1),
            camera.spec_horizontal().x.encodes(4, 1),
            camera.spec_vertical().y.encodes(2, 1),
    {
        proof {
            lemma2_to64();
            lemma_encodes(Scalar { bits: MINUS_TWO_BITS }, -2, 1, 22);
            lemma_encodes(Scalar { bits: MINUS_ONE_BITS }, -1, 1, 23);
            lemma_encodes(Scalar { bits: FOUR_BITS }, 4, 1, 21);
            lemma_encodes(Scalar { bits: TWO_BITS }, 2, 1, 22);
        }
        Camera {
            origin: Vector3::from_bits(0, 0, 0),
            ll_corner: Vector3::from_bits(MINUS_TWO_BITS, MINUS_ONE_BITS, MINUS_ONE_BITS),
            horizontal: Vector3::from_bits(FOUR_BITS, 0, 0),
            vertical: Vector3::from_bits(0, TWO_BITS, 0),
        }
    }

    /// The eye.
    #[verifier::when_used_as_spec(spec_origin)]
    pub fn origin(&self) -> (v: Vector3)
        ensures
            v == self.spec_origin(),
    {
        self.origin
    }

    /// The lower left corner of the image plane.
    #[verifier::when_used_as_spec(spec_lower_left_corner)]
    pub fn lower_left_corner(&self) -> (v: Vector3)
        ensures
            v == self.spec_lower_left_corner(),
    {
        self.ll_corner
    }

    /// The span of the image plane from left to right.
    #[verifier::when_used_as_spec(spec_horizontal)]
    pub fn horizontal(&self) -> (v: Vector3)
        ensures
            v == self.spec_horizontal(),
    {
        self.horizontal
    }

    /// The span of the image plane from bottom to top.
    #[verifier::when_used_as_spec(spec_vertical)]
    pub fn vertical(&self) -> (v: Vector3)
        ensures
            v == self.spec_vertical(),
    {
        self.vertical
    }
}

} // verus!
