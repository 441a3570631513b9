use vstd::prelude::*;

verus! {

/// Bit mask of the sign bit in an IEEE 754 single-precision encoding.
pub const SIGN_MASK: u32 = 0x8000_0000;

/// IEEE 754 single-precision encoding of the number one.
pub const ONE_BITS: u32 = 0x3F80_0000;

/// An `[x, y, z]` vector. Each component carries the 32-bit IEEE 754
/// encoding of the underlying scalar; this crate moves, compares and
/// sign-flips such encodings but never performs approximate arithmetic
/// on them itself.
#[derive(Clone, Copy, Debug, PartialEq, Eq, Structural)]
pub struct Vector3 {
    pub x: u32,
    pub y: u32,
    pub z: u32,
}

/// A quaternion; `s` is the scalar part and `x`, `y`, `z` the imaginary
/// parts, each carried as its 32-bit IEEE 754 encoding.
#[derive(Clone, Copy, Debug, PartialEq, Eq, Structural)]
pub struct Quaternion {
    pub s: u32,
    pub x: u32,
    pub y: u32,
    pub z: u32,
}

/// Euler angles in degrees, each carried as its 32-bit IEEE 754 encoding.
/// A value of this form always describes a ZYX-intrinsic rotation in the
/// target engine's convention.
#[derive(Clone, Copy, Debug, PartialEq, Eq, Structural)]
pub struct Euler {
    pub x: u32,
    pub y: u32,
    pub z: u32,
}

/// Rotation, either as a quaternion or as Euler degrees.
/// Values fresh from the source asset are quaternions; the Euler form only
/// appears after an explicit conversion in the surrounding layers.
#[derive(Clone, Copy, Debug, PartialEq, Eq, Structural)]
pub enum RotationTransform {
    /// Rotation as a quaternion
    Quaternion(Quaternion),
    /// Rotation as ZYX Euler degrees
    Euler(Euler),
}

/// Identifier of an object in a scene.
#[derive(Clone, Copy, Debug, PartialEq, Eq, Structural)]
pub enum GlobalNodeIdentifier {
    /// The scene root
    SceneRoot,
    /// The node id given by the source asset
    NodeId(usize),
    /// Index in the final object array
    ObjectIndex(usize),
}

/// A transform decomposed into translation, rotation and scale.
#[derive(Clone, Copy, Debug, PartialEq, Eq, Structural)]
pub struct DecomposedTransform {
    /// `[x, y, z]` translation
    pub translation: Vector3,
    /// rotation, as a quaternion or as Euler degrees
    pub rotation: RotationTransform,
    /// `[x, y, z]` scale
    pub scale: Vector3,
}

/// Flipping the sign bit of an encoding negates the encoded scalar.
pub open spec fn spec_flip_sign(b: u32) -> u32 {
    b ^ SIGN_MASK
}

/// Negate an encoded scalar by flipping its sign bit. IEEE 754 negation
/// is exactly a sign-bit flip, so no arithmetic is involved.
pub fn flip_sign(b: u32) -> (r: u32)
    ensures
        r == spec_flip_sign(b),
{
    b ^ SIGN_MASK
}

/// Negation is self-inverse on encodings: flipping the sign bit twice
/// returns the original value.
pub proof fn lemma_flip_sign_involutive(b: u32)
    ensures
        spec_flip_sign(spec_flip_sign(b)) == b,
{
    assert(((b ^ 0x8000_0000u32) ^ 0x8000_0000u32) == b) by (bit_vector);
}

/// The rotation part of the remap into the target engine's convention:
/// for a quaternion, the `x` and `z` imaginary parts are negated to flip
/// handedness. A rotation already in Euler form is left as it stands; its
/// conversion needs trigonometry and lives in the surrounding layers.
pub open spec fn renpy_rotation(r: RotationTransform) -> RotationTransform {
    match r {
        RotationTransform::Quaternion(q) => RotationTransform::Quaternion(
            Quaternion { s: q.s, x: spec_flip_sign(q.x), y: q.y, z: spec_flip_sign(q.z) },
        ),
        RotationTransform::Euler(e) => RotationTransform::Euler(e),
    }
}

/// The remap of a whole transform into the target engine's convention:
/// the translation's vertical component is negated and the rotation is
/// remapped as in [`renpy_rotation`]; the scale is untouched.
pub open spec fn renpy_transform(t: DecomposedTransform) -> DecomposedTransform {
    DecomposedTransform {
        translation: Vector3 {
            x: t.translation.x,
            y: spec_flip_sign(t.translation.y),
            z: t.translation.z,
        },
        rotation: renpy_rotation(t.rotation),
        scale: t.scale,
    }
}

/// The identity transform: zero translation, identity quaternion, unit scale.
pub open spec fn identity_transform() -> DecomposedTransform {
    DecomposedTransform {
        translation: Vector3 { x: 0, y: 0, z: 0 },
        rotation: RotationTransform::Quaternion(Quaternion { s: ONE_BITS, x: 0, y: 0, z: 0 }),
        scale: Vector3 { x: ONE_BITS, y: ONE_BITS, z: ONE_BITS },
    }
}

/// Whether an encoding names the number zero: IEEE 754 has two such
/// encodings, positive and negative zero, and a numeric comparison treats
/// them alike.
pub open spec fn is_zero_encoding(b: u32) -> bool {
    b == 0 || b == SIGN_MASK
}

/// Whether every component of a vector encodes zero.
pub open spec fn is_zero_vector(v: Vector3) -> bool {
    is_zero_encoding(v.x) && is_zero_encoding(v.y) && is_zero_encoding(v.z)
}

/// Whether a transform does nothing: zero translation, unit scale, and a
/// rotation equal to either the identity quaternion or all-zero Euler
/// angles. Zero components accept both zero encodings, as a numeric
/// comparison does; one has a single encoding, so the unit components are
/// exact. Values merely within rounding distance of zero do not count.
pub open spec fn is_identity_transform(t: DecomposedTransform) -> bool {
    &&& is_zero_vector(t.translation)
    &&& t.scale == (Vector3 { x: ONE_BITS, y: ONE_BITS, z: ONE_BITS })
    &&& match t.rotation {
        RotationTransform::Quaternion(q) => q.s == ONE_BITS && is_zero_encoding(q.x)
            && is_zero_encoding(q.y) && is_zero_encoding(q.z),
        RotationTransform::Euler(e) => is_zero_encoding(e.x) && is_zero_encoding(e.y)
            && is_zero_encoding(e.z),
    }
}

/// Whether an encoding names the number zero.
pub fn zero_encoded(b: u32) -> (r: bool)
    ensures
        r == is_zero_encoding(b),
{
    b == 0 || b == SIGN_MASK
}

impl RotationTransform {
    /// Get the inner value as a quaternion. Converting from the Euler form
    /// needs trigonometry, which the surrounding layers provide, so this
    /// accessor asks for a value already in quaternion form.
    pub fn unwrap_quaternion(self) -> (r: Quaternion)
        requires
            self is Quaternion,
        ensures
            self == RotationTransform::Quaternion(r),
    {
        match self {
            RotationTransform::Quaternion(q) => q,
            RotationTransform::Euler(_) => Quaternion { s: ONE_BITS, x: 0, y: 0, z: 0 },
        }
    }

    /// Get the inner value as Euler degrees; the value must already be in
    /// Euler form, for the same reason as [`Self::unwrap_quaternion`].
    pub fn unwrap_euler(self) -> (r: Euler)
        requires
            self is Euler,
        ensures
            self == RotationTransform::Euler(r),
    {
        match self {
            RotationTransform::Quaternion(_) => Euler { x: 0, y: 0, z: 0 },
            RotationTransform::Euler(e) => e,
        }
    }
}

impl DecomposedTransform {
    /// Is this transform the identity transform (does nothing)? Both
    /// encodings of zero count as zero, as under numeric comparison.
    pub fn is_default(&self) -> (r: bool)
        ensures
            r == is_identity_transform(*self),
    {
        let rotation_default = match self.rotation {
            RotationTransform::Quaternion(q) => {
                q.s == ONE_BITS && zero_encoded(q.x) && zero_encoded(q.y) && zero_encoded(q.z)
            },
            RotationTransform::Euler(e) => {
                zero_encoded(e.x) && zero_encoded(e.y) && zero_encoded(e.z)
            },
        };
        zero_encoded(self.translation.x) && zero_encoded(self.translation.y) && zero_encoded(
            self.translation.z,
        ) && rotation_default && self.scale == (Vector3 { x: ONE_BITS, y: ONE_BITS, z: ONE_BITS })
    }

    /// Remap this transform in place from the source asset's convention to
    /// the target engine's convention: negate the translation's vertical
    /// component and negate the `x` and `z` imaginary parts of the rotation
    /// quaternion. The rotation stays in quaternion form, as the animation
    /// path needs; this remap must be applied exactly once per value.
    pub fn as_renpy_coords(&mut self)
        requires
            old(self).rotation is Quaternion,
        ensures
            *final(self) == renpy_transform(*old(self)),
    {
        self.translation.y = flip_sign(self.translation.y);
        match self.rotation {
            RotationTransform::Quaternion(q) => {
                self.rotation = RotationTransform::Quaternion(
                    Quaternion { s: q.s, x: flip_sign(q.x), y: q.y, z: flip_sign(q.z) },
                );
            },
            RotationTransform::Euler(_) => {},
        }
    }

    /// Remap into the target engine's convention, by value.
    pub fn to_renpy_coords(self) -> (r: DecomposedTransform)
        requires
            self.rotation is Quaternion,
        ensures
            r == renpy_transform(self),
    {
        let mut t = self;
        t.as_renpy_coords();
        t
    }
}

impl Default for DecomposedTransform {
    /// The identity transform.
    fn default() -> (r: Self)
        ensures
            r == identity_transform(),
    {
        DecomposedTransform {
            translation: Vector3 { x: 0, y: 0, z: 0 },
            rotation: RotationTransform::Quaternion(Quaternion { s: ONE_BITS, x: 0, y: 0, z: 0 }),
            scale: Vector3 { x: ONE_BITS, y: ONE_BITS, z: ONE_BITS },
        }
    }
}

/// The convention remap is self-inverse on quaternion-form transforms:
/// applying it twice returns the original encoding. The remap must
/// therefore be applied exactly once per value; a second application
/// silently undoes the first rather than failing loudly.
pub proof fn lemma_renpy_transform_involutive(t: DecomposedTransform)
    requires
        t.rotation is Quaternion,
    ensures
        renpy_transform(renpy_transform(t)) == t,
{
    lemma_flip_sign_involutive(t.translation.y);
    match t.rotation {
        RotationTransform::Quaternion(q) => {
            lemma_flip_sign_involutive(q.x);
            lemma_flip_sign_involutive(q.z);
        },
        RotationTransform::Euler(_) => {},
    }
}

} // verus!
