use vstd::prelude::*;

use crate::utils::{DecomposedTransform, Quaternion, RotationTransform, Vector3};

verus! {

/// Interpolation policy declared by an animation channel.
#[derive(Clone, Copy, Debug, Default, PartialEq, Eq, Structural)]
pub enum InterpolationTypes {
    /// No interpolation was declared
    #[default]
    Unspecified,
    /// Hold the previous keyframe's value until the next keyframe's own time
    Step,
    /// Blend linearly between keyframes (spherically for rotations)
    Linear,
    /// Cubic splines; explicitly unsupported, requesting it is an error
    Cubic,
}

/// The animated property a channel drives.
#[derive(Clone, Copy, Debug, PartialEq, Eq, Structural)]
pub enum PropertyKind {
    /// `[x, y, z]` translation
    Translation,
    /// Rotation
    Rotation,
    /// `[x, y, z]` scale
    Scaling,
    /// Morph target weights
    MorphWeights,
}

/// How interpolation is applied for each animated property of one node.
#[derive(Clone, Copy, Debug, Default, PartialEq, Eq, Structural)]
pub struct InterpolationTargets {
    /// Translation interpolation
    pub translation: InterpolationTypes,
    /// Rotation interpolation
    pub rotation: InterpolationTypes,
    /// Scale interpolation
    pub scale: InterpolationTypes,
    /// Weights interpolation
    pub weights: InterpolationTypes,
}

/// A failure the animation engine reports to its caller.
#[derive(Clone, Copy, Debug, PartialEq, Eq, Structural)]
pub enum AnimationError {
    /// A channel asked for cubic interpolation, which is not supported;
    /// silently substituting another mode would corrupt animation timing.
    UnsupportedInterpolation,
}

/// Collected decoded values of one channel: keyframe times paired with the
/// parallel value stream, shaped by the property the channel drives.
#[derive(Clone, Debug)]
pub enum GLTFAnimationRawValue {
    /// XYZ translation
    Translation(Vec<u32>, Vec<Vector3>),
    /// Rotation quaternions
    Rotation(Vec<u32>, Vec<Quaternion>),
    /// XYZ scaling
    Scaling(Vec<u32>, Vec<Vector3>),
    /// One morph-target weight vector per frame, always of width four
    MorphWeights(Vec<u32>, Vec<Vec<u32>>),
}

/// The fixed width of a morph-target weight vector.
pub const MORPH_WEIGHT_WIDTH: usize = 4;

/// The value stored in one animation frame: a full transform plus the
/// morph-target weights, every property always present.
#[derive(Clone, Debug, PartialEq)]
pub struct GLTFAnimationValue {
    /// The transformation values for the frame
    pub transformation: DecomposedTransform,
    /// Value of all morph-target weights
    pub weights: Vec<u32>,
}

/// One output animation frame: a time and a fully composed value.
#[derive(Clone, Debug, PartialEq)]
pub struct GLTFAnimationFrame {
    /// Time, as the encoding of a non-negative number of seconds
    pub time: u32,
    /// Fully composed value at that time
    pub value: GLTFAnimationValue,
}

/// A merged per-node animation track: the output of one merge pass.
#[derive(Clone, Debug)]
pub struct GLTFAnimation {
    /// Name of the animation clip
    pub name: String,
    /// The node this track targets
    pub target: usize,
    /// Animation keyframes, fully composed, at strictly increasing times
    pub frames: Vec<GLTFAnimationFrame>,
    /// Interpolation style recorded per animated property
    pub interpolation: InterpolationTargets,
    /// How long the animation lasts: the last frame's time, or zero
    pub duration: u32,
}

/// Does property `kind` hold the same value in `a` and `b`?
pub open spec fn prop_eq(kind: PropertyKind, a: GLTFAnimationValue, b: GLTFAnimationValue) -> bool {
    match kind {
        PropertyKind::Translation => a.transformation.translation == b.transformation.translation,
        PropertyKind::Rotation => a.transformation.rotation == b.transformation.rotation,
        PropertyKind::Scaling => a.transformation.scale == b.transformation.scale,
        PropertyKind::MorphWeights => a.weights@ == b.weights@,
    }
}

/// Do all properties other than `kind` hold the same value in `a` and `b`?
pub open spec fn others_eq(
    kind: PropertyKind,
    a: GLTFAnimationValue,
    b: GLTFAnimationValue,
) -> bool {
    forall|k: PropertyKind| k != kind ==> prop_eq(k, a, b)
}

/// Do all properties hold the same value in `a` and `b`?
pub open spec fn value_eq(a: GLTFAnimationValue, b: GLTFAnimationValue) -> bool {
    a.transformation == b.transformation && a.weights@ == b.weights@
}

impl GLTFAnimationRawValue {
    /// The channel's keyframe times.
    pub open spec fn times(self) -> Seq<u32> {
        match self {
            GLTFAnimationRawValue::Translation(times, _) => times@,
            GLTFAnimationRawValue::Rotation(times, _) => times@,
            GLTFAnimationRawValue::Scaling(times, _) => times@,
            GLTFAnimationRawValue::MorphWeights(times, _) => times@,
        }
    }

    /// How many values the channel's value stream holds.
    pub open spec fn val_count(self) -> nat {
        match self {
            GLTFAnimationRawValue::Translation(_, vals) => vals@.len(),
            GLTFAnimationRawValue::Rotation(_, vals) => vals@.len(),
            GLTFAnimationRawValue::Scaling(_, vals) => vals@.len(),
            GLTFAnimationRawValue::MorphWeights(_, vals) => vals@.len(),
        }
    }

    /// The property this channel drives.
    pub open spec fn kind(self) -> PropertyKind {
        match self {
            GLTFAnimationRawValue::Translation(..) => PropertyKind::Translation,
            GLTFAnimationRawValue::Rotation(..) => PropertyKind::Rotation,
            GLTFAnimationRawValue::Scaling(..) => PropertyKind::Scaling,
            GLTFAnimationRawValue::MorphWeights(..) => PropertyKind::MorphWeights,
        }
    }

    /// Does `v` hold this channel's value at index `i` in the slot the
    /// channel drives? A rotation value enters as a quaternion.
    pub open spec fn value_set_at(self, v: GLTFAnimationValue, i: int) -> bool {
        match self {
            GLTFAnimationRawValue::Translation(_, vals) => v.transformation.translation == vals@[i],
            GLTFAnimationRawValue::Rotation(_, vals) => v.transformation.rotation
                == RotationTransform::Quaternion(vals@[i]),
            GLTFAnimationRawValue::Scaling(_, vals) => v.transformation.scale == vals@[i],
            GLTFAnimationRawValue::MorphWeights(_, vals) => v.weights@ == vals@[i]@,
        }
    }

    /// The property this channel drives.
    pub fn property_kind(&self) -> (r: PropertyKind)
        ensures
            r == self.kind(),
    {
        match self {
            GLTFAnimationRawValue::Translation(..) => PropertyKind::Translation,
            GLTFAnimationRawValue::Rotation(..) => PropertyKind::Rotation,
            GLTFAnimationRawValue::Scaling(..) => PropertyKind::Scaling,
            GLTFAnimationRawValue::MorphWeights(..) => PropertyKind::MorphWeights,
        }
    }

    /// A channel is well formed when it carries exactly one value per
    /// keyframe time. A channel that is not well formed is not an error:
    /// its cursor simply finishes as soon as the values run out, so it
    /// contributes nothing beyond what it carries.
    pub open spec fn spec_well_formed(self) -> bool {
        self.times().len() == self.val_count()
    }

    /// Whether this channel carries exactly one value per keyframe time.
    pub fn is_well_formed(&self) -> (r: bool)
        ensures
            r == self.spec_well_formed(),
    {
        match self {
            GLTFAnimationRawValue::Translation(times, vals) => times.len() == vals.len(),
            GLTFAnimationRawValue::Rotation(times, vals) => times.len() == vals.len(),
            GLTFAnimationRawValue::Scaling(times, vals) => times.len() == vals.len(),
            GLTFAnimationRawValue::MorphWeights(times, vals) => times.len() == vals.len(),
        }
    }
}

/// Ceiling division, total: zero when the divisor is zero.
pub open spec fn spec_div_ceil(a: nat, b: nat) -> nat {
    if b == 0 {
        0
    } else if a % b == 0 {
        a / b
    } else {
        a / b + 1
    }
}

/// The morph weight at position `j` of reshaped row `i`: the flat stream
/// holds the rows one after the other, `n` entries each, and a row is
/// padded with zero encodings (or truncated) to the fixed width.
pub open spec fn morph_weight_at(flat: Seq<u32>, n: nat, i: int, j: int) -> u32 {
    if j < n && i * n + j < flat.len() {
        flat[i * n + j]
    } else {
        0
    }
}

impl GLTFAnimationRawValue {
    /// Reshape a flat stream of morph-target weights (one run of weights
    /// per keyframe) into one width-four vector per keyframe, padding or
    /// truncating each run. When the stream does not divide evenly the
    /// trailing rows may be fewer than the keyframes, in which case the
    /// channel simply runs out of values early. Empty times or an empty
    /// stream yield a channel with no values.
    pub fn new_morph_weights(frame_times: Vec<u32>, flat_weights: Vec<u32>) -> (r: Self)
        ensures
            r.kind() == PropertyKind::MorphWeights,
            r.times() == frame_times@,
            flat_weights@.len() == 0 || frame_times@.len() == 0 ==> r.val_count() == 0,
            flat_weights@.len() > 0 && frame_times@.len() > 0 ==> {
                let n = spec_div_ceil(flat_weights@.len(), frame_times@.len());
                &&& r.val_count() == spec_div_ceil(flat_weights@.len(), n)
                &&& forall|i: int, j: int|
                    0 <= i < r.val_count() && 0 <= j < MORPH_WEIGHT_WIDTH
                        ==> #[trigger] r.morph_row(i)[j] == morph_weight_at(flat_weights@, n, i, j)
                &&& forall|i: int|
                    0 <= i < r.val_count() ==> #[trigger] r.morph_row(i).len()
                        == MORPH_WEIGHT_WIDTH
            },
    {
        let f = frame_times.len();
        let len = flat_weights.len();
        if len == 0 || f == 0 {
            return GLTFAnimationRawValue::MorphWeights(frame_times, Vec::new());
        }
        proof {
            if len % f != 0 {
                assert(f > 1);
                vstd::arithmetic::div_mod::lemma_div_is_strictly_smaller(len as int, f as int);
            } else {
                vstd::arithmetic::div_mod::lemma_fundamental_div_mod(len as int, f as int);
                if len / f == 0 {
                    assert(f as int * (len as int / f as int) == 0) by (nonlinear_arith)
                        requires
                            len as int / f as int == 0,
                    ;
                    assert(len == 0);
                }
            }
        }
        let n: usize = if len % f == 0 {
            len / f
        } else {
            len / f + 1
        };
        proof {
            if len % n != 0 {
                assert(n > 1);
                vstd::arithmetic::div_mod::lemma_div_is_strictly_smaller(len as int, n as int);
            }
        }
        let rows: usize = if len % n == 0 {
            len / n
        } else {
            len / n + 1
        };
        let mut values: Vec<Vec<u32>> = Vec::new();
        let mut i: usize = 0;
        while i < rows
            invariant
                0 < n,
                0 < f,
                len == flat_weights@.len(),
                n == spec_div_ceil(len as nat, f as nat),
                rows == spec_div_ceil(len as nat, n as nat),
                i <= rows,
                values@.len() == i,
                i < rows ==> i * n < len,
                forall|p: int, j: int|
                    0 <= p < i && 0 <= j < MORPH_WEIGHT_WIDTH ==> #[trigger] values@[p]@[j]
                        == morph_weight_at(flat_weights@, n as nat, p, j),
                forall|p: int| 0 <= p < i ==> #[trigger] values@[p]@.len() == MORPH_WEIGHT_WIDTH,
            decreases rows - i,
        {
            let mut row: Vec<u32> = Vec::new();
            let base = i * n;
            let mut j: usize = 0;
            while j < MORPH_WEIGHT_WIDTH
                invariant
                    j <= MORPH_WEIGHT_WIDTH,
                    row@.len() == j,
                    base == i * n,
                    base < len,
                    len == flat_weights@.len(),
                    forall|q: int|
                        0 <= q < j ==> #[trigger] row@[q]
                            == morph_weight_at(flat_weights@, n as nat, i as int, q),
                decreases MORPH_WEIGHT_WIDTH - j,
            {
                if j < n && base <= usize::MAX - j && base + j < len {
                    row.push(flat_weights[base + j]);
                } else {
                    row.push(0);
                }
                j += 1;
            }
            values.push(row);
            i += 1;
            proof {
                if i < rows {
                    lemma_chunk_start_in_range(len as nat, n as nat, rows as nat, i as nat);
                }
            }
        }
        GLTFAnimationRawValue::MorphWeights(frame_times, values)
    }

    /// Reshaped morph-weight row `i`, for contracts.
    pub open spec fn morph_row(self, i: int) -> Seq<u32> {
        match self {
            GLTFAnimationRawValue::MorphWeights(_, vals) => vals@[i]@,
            _ => Seq::empty(),
        }
    }
}

/// Every chunk before the last starts inside the flat stream.
proof fn lemma_chunk_start_in_range(len: nat, n: nat, rows: nat, i: nat)
    requires
        0 < n,
        0 < len,
        rows == spec_div_ceil(len, n),
        i < rows,
    ensures
        i * n < len,
{
    let q = len as int / n as int;
    let r = len as int % n as int;
    vstd::arithmetic::div_mod::lemma_fundamental_div_mod(len as int, n as int);
    assert(len == n * q + r);
    if r == 0 {
        assert(rows == q);
        assert(q >= 1);
        assert((q - 1) * n < len) by (nonlinear_arith)
            requires
                0 < n,
                len == n * q,
                q >= 1,
        ;
    } else {
        assert(rows == q + 1);
        assert(q * n < len) by (nonlinear_arith)
            requires
                len == n * q + r,
                r > 0,
        ;
    }
    assert(i * n <= (rows - 1) * n) by (nonlinear_arith)
        requires
            0 < n,
            i <= rows - 1,
    ;
}

/// Copy a vector of encodings element by element.
pub fn clone_u32_vec(v: &Vec<u32>) -> (r: Vec<u32>)
    ensures
        r@ == v@,
{
    let mut r: Vec<u32> = Vec::new();
    let mut i: usize = 0;
    while i < v.len()
        invariant
            i <= v@.len(),
            r@ == v@.subrange(0, i as int),
        decreases v@.len() - i,
    {
        r.push(v[i]);
        i += 1;
    }
    proof {
        assert(r@ =~= v@);
    }
    r
}

/// Copy a frame value property by property.
pub fn clone_value(v: &GLTFAnimationValue) -> (r: GLTFAnimationValue)
    ensures
        value_eq(r, *v),
{
    GLTFAnimationValue { transformation: v.transformation, weights: clone_u32_vec(&v.weights) }
}

/// Pad or truncate a weight run to the fixed morph-weight width, filling
/// with zero encodings.
pub fn pad_weights(v: Vec<u32>) -> (r: Vec<u32>)
    ensures
        r@.len() == MORPH_WEIGHT_WIDTH,
        forall|j: int|
            0 <= j < MORPH_WEIGHT_WIDTH ==> #[trigger] r@[j] == (if j < v@.len() {
                v@[j]
            } else {
                0
            }),
{
    let mut r: Vec<u32> = Vec::new();
    let mut j: usize = 0;
    while j < MORPH_WEIGHT_WIDTH
        invariant
            j <= MORPH_WEIGHT_WIDTH,
            r@.len() == j,
            forall|q: int|
                0 <= q < j ==> #[trigger] r@[q] == (if q < v@.len() {
                    v@[q]
                } else {
                    0
                }),
        decreases MORPH_WEIGHT_WIDTH - j,
    {
        if j < v.len() {
            r.push(v[j]);
        } else {
            r.push(0);
        }
        j += 1;
    }
    r
}

impl GLTFAnimationValue {
    /// Compose a frame value from a node's rest-pose transform and its
    /// default morph-target weights; this seeds the timeline before any
    /// keyframe fires. The rest-pose weight default is always carried at
    /// the fixed width of four, zero-padded (or truncated), matching the
    /// width of every reshaped channel row.
    pub fn from_node_defaults(transformation: DecomposedTransform, weights: Vec<u32>) -> (r: Self)
        ensures
            r.transformation == transformation,
            r.weights@.len() == MORPH_WEIGHT_WIDTH,
            forall|j: int|
                0 <= j < MORPH_WEIGHT_WIDTH ==> #[trigger] r.weights@[j] == (if j
                    < weights@.len() {
                    weights@[j]
                } else {
                    0
                }),
    {
        GLTFAnimationValue { transformation, weights: pad_weights(weights) }
    }

    /// Create a new frame value carrying every property forward from a
    /// previous frame unchanged.
    pub fn from_previous_frame(last_frame: &GLTFAnimationFrame) -> (r: Self)
        ensures
            value_eq(r, last_frame.value),
    {
        clone_value(&last_frame.value)
    }
}

/// The approximate blend operations the merger delegates: linear blending
/// of vectors and weight runs, and spherical blending of rotations. The
/// engine itself never computes on encoded scalars, so an implementation
/// of this trait (typically in the embedding layer, on decoded numbers)
/// supplies them; each operation derives its blend fraction from the two
/// times it is handed, as the ratio of the first to the second.
pub trait Interpolator {
    /// Blend two vectors.
    fn lerp_vector3(
        &self,
        previous: Vector3,
        next: Vector3,
        current_keyframe_time: u32,
        new_frame_time: u32,
    ) -> Vector3;

    /// Blend a carried rotation toward the next keyframe's quaternion
    /// along the shortest arc; the result is again a quaternion.
    fn slerp(
        &self,
        previous: RotationTransform,
        next: Quaternion,
        current_keyframe_time: u32,
        new_frame_time: u32,
    ) -> Quaternion;

    /// Blend two weight runs pairwise.
    fn lerp_weights(
        &self,
        previous: &Vec<u32>,
        next: &Vec<u32>,
        current_keyframe_time: u32,
        new_frame_time: u32,
    ) -> Vec<u32>;
}

/// The smaller of two naturals.
pub open spec fn nat_min(a: nat, b: nat) -> nat {
    if a <= b {
        a
    } else {
        b
    }
}

/// Mutable iteration state over one decoded channel during a merge: the
/// per-channel cursor of the timeline merger. One merge pass owns its
/// cursors exclusively.
#[derive(Debug)]
#[verifier::ext_equal]
pub struct AnimationDataIterator {
    /// Next keyframe index to consume
    pub index: usize,
    /// Whether the cursor has no more keyframes to hand out
    pub is_finished: bool,
    /// Declared interpolation mode of the channel
    pub interpolation_type: InterpolationTypes,
    /// The decoded channel itself
    pub data: GLTFAnimationRawValue,
    /// The owning node's rest-pose value, used to seed the first frame
    pub default_data: GLTFAnimationValue,
}

impl AnimationDataIterator {
    /// The channel's keyframe times.
    pub open spec fn times(self) -> Seq<u32> {
        self.data.times()
    }

    /// How many values the channel's value stream holds.
    pub open spec fn val_count(self) -> nat {
        self.data.val_count()
    }

    /// The property this channel drives.
    pub open spec fn kind(self) -> PropertyKind {
        self.data.kind()
    }

    /// For how many frames the cursor contributes a value: one per
    /// keyframe that has both a time and a value.
    pub open spec fn contrib_len(self) -> nat {
        nat_min(self.times().len(), self.val_count())
    }

    /// For how many frames the cursor counts as not finished. A cursor
    /// whose values run out one keyframe before its times still offers
    /// that last time to the frame selection before it finishes; a cursor
    /// with no times or no values at all is finished from the start.
    pub open spec fn eff_len(self) -> nat {
        if self.times().len() == 0 || self.val_count() == 0 {
            0
        } else {
            nat_min(self.times().len(), self.val_count() + 1)
        }
    }

    /// A cursor as `new` built it, before any merge step.
    pub open spec fn is_fresh(self) -> bool {
        self.index == 0 && self.is_finished == (self.times().len() == 0 || self.val_count() == 0)
    }

    /// The state a fresh cursor reaches after `k` merge steps: every
    /// unfinished cursor advances once per output frame, so the cursors
    /// of one merge stay in lockstep.
    pub open spec fn cursor_at(self, k: nat) -> AnimationDataIterator {
        AnimationDataIterator {
            index: nat_min(k, self.contrib_len()) as usize,
            is_finished: k >= self.eff_len(),
            ..self
        }
    }

    /// Build a fresh cursor over one decoded channel. A channel with no
    /// times or no values is finished from the start and contributes
    /// nothing: this is how a malformed channel (one whose value stream
    /// could not be read) takes part in a merge without aborting it.
    pub fn new(
        data: GLTFAnimationRawValue,
        interpolation_type: InterpolationTypes,
        default_data: GLTFAnimationValue,
    ) -> (r: Self)
        ensures
            r.index == 0,
            r.data == data,
            r.interpolation_type == interpolation_type,
            r.default_data == default_data,
            r.is_fresh(),
    {
        let finished = match &data {
            GLTFAnimationRawValue::Translation(times, vals) => times.len() == 0 || vals.len() == 0,
            GLTFAnimationRawValue::Rotation(times, vals) => times.len() == 0 || vals.len() == 0,
            GLTFAnimationRawValue::Scaling(times, vals) => times.len() == 0 || vals.len() == 0,
            GLTFAnimationRawValue::MorphWeights(times, vals) => times.len() == 0 || vals.len()
                == 0,
        };
        AnimationDataIterator {
            index: 0,
            is_finished: finished,
            interpolation_type,
            data,
            default_data,
        }
    }

    /// How many keyframe times the channel holds.
    pub fn times_len(&self) -> (n: usize)
        ensures
            n == self.times().len(),
    {
        match &self.data {
            GLTFAnimationRawValue::Translation(times, _) => times.len(),
            GLTFAnimationRawValue::Rotation(times, _) => times.len(),
            GLTFAnimationRawValue::Scaling(times, _) => times.len(),
            GLTFAnimationRawValue::MorphWeights(times, _) => times.len(),
        }
    }

    /// The current keyframe time, if any keyframe is left.
    pub fn peek_time(&self) -> (r: Option<u32>)
        ensures
            r == (if self.index < self.times().len() {
                Some(self.times()[self.index as int])
            } else {
                None::<u32>
            }),
    {
        match &self.data {
            GLTFAnimationRawValue::Translation(times, _) => {
                if self.index < times.len() {
                    Some(times[self.index])
                } else {
                    None
                }
            },
            GLTFAnimationRawValue::Rotation(times, _) => {
                if self.index < times.len() {
                    Some(times[self.index])
                } else {
                    None
                }
            },
            GLTFAnimationRawValue::Scaling(times, _) => {
                if self.index < times.len() {
                    Some(times[self.index])
                } else {
                    None
                }
            },
            GLTFAnimationRawValue::MorphWeights(times, _) => {
                if self.index < times.len() {
                    Some(times[self.index])
                } else {
                    None
                }
            },
        }
    }
}

/// A cursor with its finished flag raised and nothing else changed.
pub open spec fn cursor_finished(c: AnimationDataIterator) -> AnimationDataIterator {
    AnimationDataIterator { is_finished: true, ..c }
}

/// A cursor moved one keyframe onward; it finishes when it steps past its
/// last keyframe time.
pub open spec fn cursor_advanced(c: AnimationDataIterator) -> AnimationDataIterator {
    AnimationDataIterator {
        index: (c.index + 1) as usize,
        is_finished: c.index + 1 >= c.times().len(),
        ..c
    }
}

/// The exact transition one call of [`AnimationDataIterator::next`] makes,
/// relating the cursor and the frame value under construction before and
/// after the call. At the current keyframe's own time the keyframe is
/// authoritative and its value is set outright; otherwise the declared
/// interpolation decides: an undeclared mode also sets the value outright,
/// step keeps the carried value, linear blends toward the keyframe (the
/// blend result itself comes from the caller's [`Interpolator`] and is not
/// pinned here, though a blended weight vector is restored to the fixed
/// width), and cubic is refused. Whatever happens, only the property the
/// channel drives may change.
pub open spec fn cursor_step(
    pre: AnimationDataIterator,
    post: AnimationDataIterator,
    vp: GLTFAnimationValue,
    vq: GLTFAnimationValue,
    new_frame_time: u32,
    r: Result<(), AnimationError>,
) -> bool {
    if pre.is_finished {
        post == pre && value_eq(vq, vp) && r is Ok
    } else if pre.index >= pre.val_count() {
        post == cursor_finished(pre) && value_eq(vq, vp) && r is Ok
    } else if pre.index >= pre.times().len() || pre.times()[pre.index as int] == new_frame_time {
        post == cursor_advanced(pre) && pre.data.value_set_at(vq, pre.index as int) && others_eq(
            pre.kind(),
            vq,
            vp,
        ) && r is Ok
    } else {
        match pre.interpolation_type {
            InterpolationTypes::Unspecified => post == cursor_advanced(pre)
                && pre.data.value_set_at(vq, pre.index as int) && others_eq(pre.kind(), vq, vp)
                && r is Ok,
            InterpolationTypes::Step => post == cursor_advanced(pre) && value_eq(vq, vp)
                && r is Ok,
            InterpolationTypes::Linear => post == cursor_advanced(pre) && others_eq(
                pre.kind(),
                vq,
                vp,
            ) && (pre.kind() == PropertyKind::Rotation
                ==> vq.transformation.rotation is Quaternion) && (pre.kind()
                == PropertyKind::MorphWeights ==> vq.weights@.len() == MORPH_WEIGHT_WIDTH)
                && r is Ok,
            InterpolationTypes::Cubic => post == pre && value_eq(vq, vp) && r == Err::<
                (),
                AnimationError,
            >(AnimationError::UnsupportedInterpolation),
        }
    }
}

impl AnimationDataIterator {
    /// Advance this cursor toward the new frame's time, contributing to
    /// the frame value under construction as [`cursor_step`] describes.
    pub fn next<I: Interpolator>(
        &mut self,
        anim_val: &mut GLTFAnimationValue,
        new_frame_time: u32,
        interp: &I,
    ) -> (r: Result<(), AnimationError>)
        ensures
            cursor_step(
                *old(self),
                *final(self),
                *old(anim_val),
                *final(anim_val),
                new_frame_time,
                r,
            ),
    {
        if self.is_finished {
            return Ok(());
        }
        let idx = self.index;
        let mut exhausted = false;
        let mut cubic = false;
        let times_len: usize;
        match &self.data {
            GLTFAnimationRawValue::Translation(times, item) => {
                times_len = times.len();
                if idx >= item.len() {
                    exhausted = true;
                } else {
                    let new_val = item[idx];
                    if idx < times.len() && times[idx] != new_frame_time {
                        match self.interpolation_type {
                            InterpolationTypes::Unspecified => {
                                anim_val.transformation.translation = new_val;
                            },
                            InterpolationTypes::Step => {},
                            InterpolationTypes::Linear => {
                                anim_val.transformation.translation = interp.lerp_vector3(
                                    anim_val.transformation.translation,
                                    new_val,
                                    times[idx],
                                    new_frame_time,
                                );
                            },
                            InterpolationTypes::Cubic => {
                                cubic = true;
                            },
                        }
                    } else {
                        anim_val.transformation.translation = new_val;
                    }
                }
            },
            GLTFAnimationRawValue::Rotation(times, item) => {
                times_len = times.len();
                if idx >= item.len() {
                    exhausted = true;
                } else {
                    let new_val = item[idx];
                    if idx < times.len() && times[idx] != new_frame_time {
                        match self.interpolation_type {
                            InterpolationTypes::Unspecified => {
                                anim_val.transformation.rotation = RotationTransform::Quaternion(
                                    new_val,
                                );
                            },
                            InterpolationTypes::Step => {},
                            InterpolationTypes::Linear => {
                                let previous = anim_val.transformation.rotation;
                                anim_val.transformation.rotation = RotationTransform::Quaternion(
                                    interp.slerp(previous, new_val, times[idx], new_frame_time),
                                );
                            },
                            InterpolationTypes::Cubic => {
                                cubic = true;
                            },
                        }
                    } else {
                        anim_val.transformation.rotation = RotationTransform::Quaternion(new_val);
                    }
                }
            },
            GLTFAnimationRawValue::Scaling(times, item) => {
                times_len = times.len();
                if idx >= item.len() {
                    exhausted = true;
                } else {
                    let new_val = item[idx];
                    if idx < times.len() && times[idx] != new_frame_time {
                        match self.interpolation_type {
                            InterpolationTypes::Unspecified => {
                                anim_val.transformation.scale = new_val;
                            },
                            InterpolationTypes::Step => {},
                            InterpolationTypes::Linear => {
                                anim_val.transformation.scale = interp.lerp_vector3(
                                    anim_val.transformation.scale,
                                    new_val,
                                    times[idx],
                                    new_frame_time,
                                );
                            },
                            InterpolationTypes::Cubic => {
                                cubic = true;
                            },
                        }
                    } else {
                        anim_val.transformation.scale = new_val;
                    }
                }
            },
            GLTFAnimationRawValue::MorphWeights(times, item) => {
                times_len = times.len();
                if idx >= item.len() {
                    exhausted = true;
                } else {
                    if idx < times.len() && times[idx] != new_frame_time {
                        match self.interpolation_type {
                            InterpolationTypes::Unspecified => {
                                anim_val.weights = clone_u32_vec(&item[idx]);
                            },
                            InterpolationTypes::Step => {},
                            InterpolationTypes::Linear => {
                                let blended = interp.lerp_weights(
                                    &anim_val.weights,
                                    &item[idx],
                                    times[idx],
                                    new_frame_time,
                                );
                                // The blend is the caller's; restore the
                                // fixed width so every frame's weight
                                // vector keeps it.
                                anim_val.weights = pad_weights(blended);
                            },
                            InterpolationTypes::Cubic => {
                                cubic = true;
                            },
                        }
                    } else {
                        anim_val.weights = clone_u32_vec(&item[idx]);
                    }
                }
            },
        }
        if cubic {
            return Err(AnimationError::UnsupportedInterpolation);
        }
        if exhausted {
            self.is_finished = true;
            return Ok(());
        }
        self.index = idx + 1;
        if self.index >= times_len {
            self.is_finished = true;
        }
        Ok(())
    }
}

/// A sequence of times that never repeats or goes back.
pub open spec fn strictly_increasing(s: Seq<u32>) -> bool {
    forall|a: int, b: int| 0 <= a < b < s.len() ==> s[a] < s[b]
}

/// Whether a run of keyframe times is strictly increasing, as the source
/// asset format requires of its samplers; the ordering guarantees of the
/// merged timeline rest on it.
pub fn times_strictly_increasing(times: &Vec<u32>) -> (r: bool)
    ensures
        r == strictly_increasing(times@),
{
    let mut i: usize = 1;
    while i < times.len()
        invariant
            1 <= i,
            i <= times@.len() || times@.len() == 0,
            forall|a: int, b: int| 0 <= a < b < i && b < times@.len() ==> times@[a] < times@[b],
        decreases times@.len() - i,
    {
        if times[i - 1] >= times[i] {
            return false;
        }
        proof {
            assert forall|a: int, b: int|
                0 <= a < b < i + 1 && b < times@.len() implies times@[a] < times@[b] by {
                if b == i {
                    if a < i - 1 {
                        assert(times@[a] < times@[i - 1]);
                    }
                }
            }
        }
        i += 1;
    }
    true
}

/// How many frames a merge over these (fresh) cursors emits: the longest
/// cursor drives the loop, since every unfinished cursor advances once per
/// frame.
pub open spec fn frame_count(chs: Seq<AnimationDataIterator>) -> nat
    decreases chs.len(),
{
    if chs.len() == 0 {
        0
    } else {
        let rest = frame_count(chs.drop_last());
        if chs.last().eff_len() >= rest {
            chs.last().eff_len()
        } else {
            rest
        }
    }
}

/// The index, among the first `n` cursors, of the one whose keyframe time
/// at step `k` is smallest, counting only cursors still unfinished at step
/// `k`; the earliest such cursor wins a tie. Negative one when none is
/// unfinished.
pub open spec fn argmin_upto(chs: Seq<AnimationDataIterator>, k: nat, n: int) -> int
    decreases n,
{
    if n <= 0 {
        -1
    } else {
        let prev = argmin_upto(chs, k, n - 1);
        if chs[n - 1].eff_len() <= k {
            prev
        } else if prev == -1 {
            n - 1
        } else if chs[prev].times()[k as int] <= chs[n - 1].times()[k as int] {
            prev
        } else {
            n - 1
        }
    }
}

/// The time of frame `k`: the smallest keyframe time at step `k` over the
/// cursors still unfinished there, if any. Smallest in unsigned encoding
/// order, which coincides with numeric order exactly for the
/// non-negative, non-NaN times the asset model supplies; a negative time
/// would order differently than it would numerically.
pub open spec fn min_peek_at(chs: Seq<AnimationDataIterator>, k: nat) -> Option<u32> {
    let a = argmin_upto(chs, k, chs.len() as int);
    if a == -1 {
        None
    } else {
        Some(chs[a].times()[k as int])
    }
}

/// The value that seeds frame zero: the rest-pose default carried by the
/// cursor that wins the first frame selection.
pub open spec fn seed_default(chs: Seq<AnimationDataIterator>) -> GLTFAnimationValue {
    chs[argmin_upto(chs, 0, chs.len() as int)].default_data
}

/// What `argmin_upto` returns: nothing when no cursor is unfinished,
/// otherwise the first index attaining the smallest keyframe time among
/// the unfinished cursors.
pub proof fn lemma_argmin_props(chs: Seq<AnimationDataIterator>, k: nat, n: int)
    requires
        0 <= n <= chs.len(),
    ensures
        argmin_upto(chs, k, n) == -1 ==> forall|j: int|
            0 <= j < n ==> #[trigger] chs[j].eff_len() <= k,
        argmin_upto(chs, k, n) != -1 ==> {
            let a = argmin_upto(chs, k, n);
            &&& 0 <= a < n
            &&& chs[a].eff_len() > k
            &&& forall|j: int|
                0 <= j < n && #[trigger] chs[j].eff_len() > k ==> chs[a].times()[k as int]
                    <= chs[j].times()[k as int]
            &&& forall|j: int|
                0 <= j < a && #[trigger] chs[j].eff_len() > k ==> chs[a].times()[k as int]
                    < chs[j].times()[k as int]
        },
    decreases n,
{
    if n > 0 {
        lemma_argmin_props(chs, k, n - 1);
    }
}

/// A merge emits frame `k` exactly when some cursor is still unfinished
/// at step `k`.
pub proof fn lemma_frame_count_exists(chs: Seq<AnimationDataIterator>, k: nat)
    ensures
        (k < frame_count(chs)) <==> exists|i: int|
            0 <= i < chs.len() && #[trigger] chs[i].eff_len() > k,
    decreases chs.len(),
{
    if chs.len() > 0 {
        lemma_frame_count_exists(chs.drop_last(), k);
        if k < frame_count(chs) {
            if chs.last().eff_len() > k {
                assert(chs[chs.len() - 1].eff_len() > k);
            } else {
                let i = choose|i: int|
                    0 <= i < chs.drop_last().len() && #[trigger] chs.drop_last()[i].eff_len() > k;
                assert(chs[i].eff_len() > k);
            }
        }
        if exists|i: int| 0 <= i < chs.len() && #[trigger] chs[i].eff_len() > k {
            let i = choose|i: int| 0 <= i < chs.len() && #[trigger] chs[i].eff_len() > k;
            if i < chs.len() - 1 {
                assert(chs.drop_last()[i].eff_len() > k);
            }
        }
    }
}

/// A mutable reference to one element of a vector.
pub(crate) fn vec_index_mut<T>(v: &mut Vec<T>, i: usize) -> (element: &mut T)
    requires
        i < old(v)@.len(),
    ensures
        *element == old(v)@[i as int],
        final(v)@ == old(v)@.update(i as int, *final(element)),
{
    &mut v[i]
}

/// The index, among the first `n` cursors in their current state, of the
/// unfinished cursor whose current keyframe time is smallest; the earliest
/// wins a tie. Negative one when none is unfinished.
pub open spec fn cur_argmin_upto(chs: Seq<AnimationDataIterator>, n: int) -> int
    decreases n,
{
    if n <= 0 {
        -1
    } else {
        let prev = cur_argmin_upto(chs, n - 1);
        if chs[n - 1].is_finished {
            prev
        } else if prev == -1 {
            n - 1
        } else if chs[prev].times()[chs[prev].index as int] <= chs[n - 1].times()[chs[n
            - 1].index as int] {
            prev
        } else {
            n - 1
        }
    }
}

/// On cursors that all stand at lockstep step `k`, the current-state
/// selection agrees with the model selection at step `k`.
pub proof fn lemma_argmin_bridge(
    c0s: Seq<AnimationDataIterator>,
    cur: Seq<AnimationDataIterator>,
    k: nat,
    n: int,
)
    requires
        cur.len() == c0s.len(),
        0 <= n <= cur.len(),
        k <= usize::MAX,
        forall|i: int| 0 <= i < c0s.len() ==> cur[i] == #[trigger] c0s[i].cursor_at(k),
    ensures
        cur_argmin_upto(cur, n) == argmin_upto(c0s, k, n),
    decreases n,
{
    if n > 0 {
        lemma_argmin_bridge(c0s, cur, k, n - 1);
        lemma_argmin_props(c0s, k, n - 1);
        assert(cur[n - 1] == c0s[n - 1].cursor_at(k));
        assert(cur[n - 1].is_finished == (k >= c0s[n - 1].eff_len()));
        if k < c0s[n - 1].eff_len() {
            assert(k <= c0s[n - 1].contrib_len());
            assert(nat_min(k, c0s[n - 1].contrib_len()) == k);
            assert(cur[n - 1].index == k);
            assert(cur[n - 1].times() == c0s[n - 1].times());
        }
        let prev = argmin_upto(c0s, k, n - 1);
        if prev != -1 {
            assert(cur[prev] == c0s[prev].cursor_at(k));
            assert(k < c0s[prev].eff_len());
            assert(k <= c0s[prev].contrib_len());
            assert(nat_min(k, c0s[prev].contrib_len()) == k);
            assert(cur[prev].index == k);
        }
    }
}

/// What one merge step at frame `k` (with frame time `t`) does to the
/// frame value under construction, seen from a fresh cursor's channel:
/// nothing once the cursor no longer contributes; the keyframe's own value,
/// set outright, at its own time exactly (and likewise under an undeclared
/// mode); the carried value under step; and under linear, a blend whose
/// result is not pinned here, though it only touches the channel's own
/// property and keeps a rotation in quaternion form.
pub open spec fn frame_effect(
    c0: AnimationDataIterator,
    k: nat,
    t: u32,
    vp: GLTFAnimationValue,
    vq: GLTFAnimationValue,
) -> bool {
    if k >= c0.contrib_len() {
        value_eq(vq, vp)
    } else if c0.times()[k as int] == t {
        c0.data.value_set_at(vq, k as int) && others_eq(c0.kind(), vq, vp)
    } else {
        match c0.interpolation_type {
            InterpolationTypes::Unspecified => c0.data.value_set_at(vq, k as int) && others_eq(
                c0.kind(),
                vq,
                vp,
            ),
            InterpolationTypes::Step => value_eq(vq, vp),
            InterpolationTypes::Linear => others_eq(c0.kind(), vq, vp) && (c0.kind()
                == PropertyKind::Rotation ==> vq.transformation.rotation is Quaternion) && (
            c0.kind() == PropertyKind::MorphWeights ==> vq.weights@.len() == MORPH_WEIGHT_WIDTH),
            InterpolationTypes::Cubic => true,
        }
    }
}

/// In a merge the cursors stay in lockstep: a step taken from the lockstep
/// state at frame `k` lands in the lockstep state at frame `k + 1`, and
/// its contribution to the frame value is what [`frame_effect`] says.
pub proof fn lemma_cursor_step_lockstep(
    c0: AnimationDataIterator,
    k: nat,
    post: AnimationDataIterator,
    vp: GLTFAnimationValue,
    vq: GLTFAnimationValue,
    t: u32,
    r: Result<(), AnimationError>,
)
    requires
        c0.is_fresh(),
        k < usize::MAX,
        cursor_step(c0.cursor_at(k), post, vp, vq, t, r),
        r is Ok,
    ensures
        post == c0.cursor_at(k + 1),
        frame_effect(c0, k, t, vp, vq),
{
    let pre = c0.cursor_at(k);
    let eff = c0.eff_len();
    let clen = c0.contrib_len();
    assert(clen <= eff);
    if k >= eff {
        assert(pre.is_finished);
        assert(post == pre);
        assert(nat_min(k, clen) == clen);
        assert(nat_min(k + 1, clen) == clen);
        assert(post =~= c0.cursor_at(k + 1));
        assert(k >= clen);
    } else {
        assert(k <= clen);
        assert(nat_min(k, clen) == k);
        assert(pre.index == k);
        assert(!pre.is_finished);
        if k >= c0.val_count() {
            assert(k == clen);
            assert(eff <= c0.val_count() + 1);
            assert(post == cursor_finished(pre));
            assert(nat_min(k + 1, clen) == clen);
            assert(k + 1 >= eff);
            assert(post =~= c0.cursor_at(k + 1));
        } else {
            assert(k < c0.times().len());
            assert(k + 1 <= clen);
            assert(nat_min(k + 1, clen) == k + 1);
            assert(post == cursor_advanced(pre));
            assert(post.index == k + 1);
            assert(post.is_finished == (k + 1 >= c0.times().len()));
            assert((k + 1 >= c0.times().len()) == (k + 1 >= eff));
            assert(post =~= c0.cursor_at(k + 1));
        }
    }
}

/// A blend step never moves a rotation out of quaternion form.
pub proof fn lemma_frame_effect_keeps_quat(
    c0: AnimationDataIterator,
    k: nat,
    t: u32,
    vp: GLTFAnimationValue,
    vq: GLTFAnimationValue,
)
    requires
        frame_effect(c0, k, t, vp, vq),
        vp.transformation.rotation is Quaternion,
        !(c0.interpolation_type is Cubic),
    ensures
        vq.transformation.rotation is Quaternion,
{
    if k >= c0.contrib_len() {
    } else if c0.kind() == PropertyKind::Rotation {
    } else {
        assert(prop_eq(PropertyKind::Rotation, vq, vp));
    }
}

/// The per-property interpolation modes with every property undeclared.
pub open spec fn default_targets() -> InterpolationTargets {
    InterpolationTargets {
        translation: InterpolationTypes::Unspecified,
        rotation: InterpolationTypes::Unspecified,
        scale: InterpolationTypes::Unspecified,
        weights: InterpolationTypes::Unspecified,
    }
}

/// Record `mode` in the slot of property `kind`.
pub open spec fn set_target(
    t: InterpolationTargets,
    kind: PropertyKind,
    mode: InterpolationTypes,
) -> InterpolationTargets {
    match kind {
        PropertyKind::Translation => InterpolationTargets { translation: mode, ..t },
        PropertyKind::Rotation => InterpolationTargets { rotation: mode, ..t },
        PropertyKind::Scaling => InterpolationTargets { scale: mode, ..t },
        PropertyKind::MorphWeights => InterpolationTargets { weights: mode, ..t },
    }
}

/// The per-property modes a merged track records: each channel writes its
/// mode into its property's slot in turn, so of several channels driving
/// one property the last one processed wins.
pub open spec fn merged_targets(chs: Seq<AnimationDataIterator>) -> InterpolationTargets
    decreases chs.len(),
{
    if chs.len() == 0 {
        default_targets()
    } else {
        set_target(
            merged_targets(chs.drop_last()),
            chs.last().kind(),
            chs.last().interpolation_type,
        )
    }
}

/// An intermediate-value chain witnessing how one frame's value arose:
/// starting from `prev` (the previous frame's value, or the seed), each
/// cursor in turn contributed as [`frame_effect`] says, ending at `v`.
pub open spec fn chain_ok(
    chs: Seq<AnimationDataIterator>,
    prev: GLTFAnimationValue,
    t: u32,
    v: GLTFAnimationValue,
    k: nat,
    chain: Seq<GLTFAnimationValue>,
) -> bool {
    &&& chain.len() == chs.len() + 1
    &&& value_eq(chain[0], prev)
    &&& forall|i: int|
        0 <= i < chs.len() ==> frame_effect(chs[i], k, t, #[trigger] chain[i], chain[i + 1])
    &&& value_eq(v, chain[chs.len() as int])
}

/// The value a frame's composition starts from: the previous frame's
/// value, or the winning cursor's rest-pose default for frame zero.
pub open spec fn prev_frame_value(
    chs: Seq<AnimationDataIterator>,
    frames: Seq<GLTFAnimationFrame>,
    k: int,
) -> GLTFAnimationValue {
    if k == 0 {
        seed_default(chs)
    } else {
        frames[k - 1].value
    }
}

/// Frame `k` of a merge result carries a value that some intermediate
/// chain explains, seeded from the previous frame or, for frame zero,
/// from the winning cursor's rest-pose default.
pub open spec fn frame_values_ok(
    chs: Seq<AnimationDataIterator>,
    frames: Seq<GLTFAnimationFrame>,
    k: int,
) -> bool {
    exists|chain: Seq<GLTFAnimationValue>|
        #[trigger] chain_ok(
            chs,
            prev_frame_value(chs, frames, k),
            frames[k].time,
            frames[k].value,
            k as nat,
            chain,
        )
}

/// A concrete chain witnesses `frame_values_ok`.
pub proof fn lemma_intro_frame_values_ok(
    chs: Seq<AnimationDataIterator>,
    frames: Seq<GLTFAnimationFrame>,
    k: int,
    chain: Seq<GLTFAnimationValue>,
)
    requires
        chain_ok(
            chs,
            prev_frame_value(chs, frames, k),
            frames[k].time,
            frames[k].value,
            k as nat,
            chain,
        ),
    ensures
        frame_values_ok(chs, frames, k),
{
}

/// Everything the merger promises of an output track built over fresh,
/// cubic-free cursors `chs`: the frame count and each frame's time follow
/// the lockstep selection; the duration is the last frame's time, or zero
/// when there are no frames; the recorded modes fold the channels' modes;
/// each frame's value is explained by a per-cursor contribution chain; and
/// rotations stay in quaternion form when the seed's rotation is one.
pub open spec fn merged_track_ok(
    chs: Seq<AnimationDataIterator>,
    name: Seq<char>,
    target: usize,
    t: GLTFAnimation,
) -> bool {
    &&& t.name@ == name
    &&& t.target == target
    &&& t.frames@.len() == frame_count(chs)
    &&& forall|k: int|
        #![trigger t.frames@[k]]
        0 <= k < t.frames@.len() ==> Some(t.frames@[k].time) == min_peek_at(chs, k as nat)
    &&& forall|k: int|
        #![trigger t.frames@[k]]
        0 <= k < t.frames@.len() ==> frame_values_ok(chs, t.frames@, k)
    &&& t.duration == (if t.frames@.len() == 0 {
        0u32
    } else {
        t.frames@[t.frames@.len() - 1].time
    })
    &&& t.interpolation == (if t.frames@.len() == 0 {
        default_targets()
    } else {
        merged_targets(chs)
    })
    &&& ((t.frames@.len() > 0 && seed_default(chs).transformation.rotation is Quaternion)
        ==> (forall|k: int|
        #![trigger t.frames@[k]]
        0 <= k < t.frames@.len() ==> t.frames@[k].value.transformation.rotation is Quaternion))
}

/// Find the unfinished cursor whose next unread time is smallest; the
/// first one encountered wins when times are exactly equal. A finished
/// cursor is excluded from consideration.
fn min_value(channels: &Vec<AnimationDataIterator>) -> (r: Option<(usize, u32)>)
    requires
        forall|i: int|
            0 <= i < channels@.len() && !(#[trigger] channels@[i]).is_finished ==> channels@[i].index
                < channels@[i].times().len(),
    ensures
        ({
            let a = cur_argmin_upto(channels@, channels@.len() as int);
            match r {
                None => a == -1,
                Some((j, t)) => {
                    &&& a == j
                    &&& j < channels@.len()
                    &&& !channels@[j as int].is_finished
                    &&& t == channels@[j as int].times()[channels@[j as int].index as int]
                },
            }
        }),
{
    let mut best: Option<(usize, u32)> = None;
    let mut c: usize = 0;
    while c < channels.len()
        invariant
            c <= channels@.len(),
            forall|i: int|
                0 <= i < channels@.len() && !(#[trigger] channels@[i]).is_finished
                    ==> channels@[i].index < channels@[i].times().len(),
            ({
                let a = cur_argmin_upto(channels@, c as int);
                match best {
                    None => a == -1,
                    Some((j, t)) => {
                        &&& a == j
                        &&& j < channels@.len()
                        &&& !channels@[j as int].is_finished
                        &&& t == channels@[j as int].times()[channels@[j as int].index as int]
                    },
                }
            }),
        decreases channels@.len() - c,
    {
        let ch = &channels[c];
        if !ch.is_finished {
            let t = match ch.peek_time() {
                Some(t) => t,
                None => {
                    proof {
                        assert(false);
                    }
                    0
                },
            };
            match best {
                None => {
                    best = Some((c, t));
                },
                Some((_, bt)) => {
                    if t < bt {
                        best = Some((c, t));
                    }
                },
            }
        }
        c += 1;
    }
    best
}

/// Compose one output frame: every cursor, in order, contributes to the
/// value under construction (seeded from `seed`) and advances one step.
/// The returned ghost chain records the intermediate values, one per
/// cursor, for the merger's frame-value contract.
fn compose_frame<I: Interpolator>(
    channels: &mut Vec<AnimationDataIterator>,
    seed: GLTFAnimationValue,
    min_time: u32,
    interp: &I,
    Ghost(c0s): Ghost<Seq<AnimationDataIterator>>,
    Ghost(k): Ghost<nat>,
) -> (res: (GLTFAnimationValue, Ghost<Seq<GLTFAnimationValue>>))
    requires
        old(channels)@.len() == c0s.len(),
        k < usize::MAX,
        forall|i: int| 0 <= i < c0s.len() ==> (#[trigger] c0s[i]).is_fresh(),
        forall|i: int| 0 <= i < c0s.len() ==> !((#[trigger] c0s[i]).interpolation_type is Cubic),
        forall|i: int|
            0 <= i < c0s.len() ==> old(channels)@[i] == (#[trigger] c0s[i]).cursor_at(k),
    ensures
        final(channels)@.len() == c0s.len(),
        forall|i: int|
            0 <= i < c0s.len() ==> final(channels)@[i] == (#[trigger] c0s[i]).cursor_at(k + 1),
        ({
            let chain = res.1@;
            &&& chain.len() == c0s.len() + 1
            &&& chain[0] == seed
            &&& (forall|i: int|
                0 <= i < c0s.len() ==> frame_effect(
                    c0s[i],
                    k,
                    min_time,
                    #[trigger] chain[i],
                    chain[i + 1],
                ))
            &&& chain[c0s.len() as int] == res.0
        }),
        seed.transformation.rotation is Quaternion
            ==> res.0.transformation.rotation is Quaternion,
{
    let mut next_value = seed;
    let ghost mut chain: Seq<GLTFAnimationValue> = seq![next_value];
    let mut c: usize = 0;
    while c < channels.len()
        invariant
            c <= c0s.len(),
            channels@.len() == c0s.len(),
            k < usize::MAX,
            forall|i: int| 0 <= i < c0s.len() ==> (#[trigger] c0s[i]).is_fresh(),
            forall|i: int|
                0 <= i < c0s.len() ==> !((#[trigger] c0s[i]).interpolation_type is Cubic),
            forall|i: int|
                0 <= i < c0s.len() ==> channels@[i] == (#[trigger] c0s[i]).cursor_at(
                    if i < c {
                        k + 1
                    } else {
                        k
                    },
                ),
            chain.len() == c + 1,
            chain[0] == seed,
            forall|i: int|
                0 <= i < c ==> frame_effect(c0s[i], k, min_time, #[trigger] chain[i], chain[i + 1]),
            chain[c as int] == next_value,
            seed.transformation.rotation is Quaternion
                ==> next_value.transformation.rotation is Quaternion,
        decreases c0s.len() - c,
    {
        let cursor = vec_index_mut(channels, c);
        let res = cursor.next(&mut next_value, min_time, interp);
        match res {
            Ok(()) => {},
            Err(_) => {
                proof {
                    assert(c0s[c as int].interpolation_type is Cubic);
                    assert(false);
                }
            },
        }
        proof {
            lemma_cursor_step_lockstep(
                c0s[c as int],
                k,
                channels@[c as int],
                chain[c as int],
                next_value,
                min_time,
                res,
            );
            if seed.transformation.rotation is Quaternion {
                lemma_frame_effect_keeps_quat(
                    c0s[c as int],
                    k,
                    min_time,
                    chain[c as int],
                    next_value,
                );
            }
            chain = chain.push(next_value);
        }
        c += 1;
    }
    (next_value, Ghost(chain))
}

/// For any node with at least one channel, the merged track's frame
/// times are strictly increasing, provided each channel's own keyframe
/// times are strictly increasing (as the source asset guarantees).
pub proof fn lemma_track_times_strictly_increasing(
    chs: Seq<AnimationDataIterator>,
    name: Seq<char>,
    target: usize,
    t: GLTFAnimation,
    k1: int,
    k2: int,
)
    requires
        merged_track_ok(chs, name, target, t),
        forall|i: int| 0 <= i < chs.len() ==> strictly_increasing((#[trigger] chs[i]).times()),
        0 <= k1 < k2 < t.frames@.len(),
    ensures
        t.frames@[k1].time < t.frames@[k2].time,
    decreases k2 - k1,
{
    let n = chs.len() as int;
    if k2 == k1 + 1 {
        lemma_argmin_props(chs, k1 as nat, n);
        lemma_argmin_props(chs, k2 as nat, n);
        let a1 = argmin_upto(chs, k1 as nat, n);
        let a2 = argmin_upto(chs, k2 as nat, n);
        assert(Some(t.frames@[k1].time) == min_peek_at(chs, k1 as nat));
        assert(Some(t.frames@[k2].time) == min_peek_at(chs, k2 as nat));
        assert(a1 != -1);
        assert(a2 != -1);
        assert(chs[a2].eff_len() > k2);
        assert(chs[a2].eff_len() > k1);
        assert(t.frames@[k1].time <= chs[a2].times()[k1]);
        assert(chs[a2].eff_len() <= chs[a2].times().len());
        assert(strictly_increasing(chs[a2].times()));
        assert(chs[a2].times()[k1] < chs[a2].times()[k2]);
    } else {
        lemma_track_times_strictly_increasing(chs, name, target, t, k1, k2 - 1);
        lemma_track_times_strictly_increasing(chs, name, target, t, k2 - 1, k2);
    }
}

/// Every frame time of a merged track is one of its channels' keyframe
/// times, at the lockstep position: the merge invents no times of its
/// own.
pub proof fn lemma_track_time_is_a_keyframe(
    chs: Seq<AnimationDataIterator>,
    name: Seq<char>,
    target: usize,
    t: GLTFAnimation,
    k: int,
)
    requires
        merged_track_ok(chs, name, target, t),
        0 <= k < t.frames@.len(),
    ensures
        exists|i: int|
            0 <= i < chs.len() && (#[trigger] chs[i]).eff_len() > k && chs[i].times()[k]
                == t.frames@[k].time,
{
    lemma_argmin_props(chs, k as nat, chs.len() as int);
    let a = argmin_upto(chs, k as nat, chs.len() as int);
    assert(Some(t.frames@[k].time) == min_peek_at(chs, k as nat));
    assert(a != -1);
    assert(0 <= a < chs.len() && chs[a].eff_len() > k && chs[a].times()[k] == t.frames@[k].time);
}

/// When every channel of a node carries the same (strictly increasing)
/// time grid and at least one value per keyframe, the merged track's
/// frame times are exactly that grid: the sorted union of all the
/// channels' keyframe times.
pub proof fn lemma_common_grid_times(
    chs: Seq<AnimationDataIterator>,
    name: Seq<char>,
    target: usize,
    t: GLTFAnimation,
    grid: Seq<u32>,
)
    requires
        merged_track_ok(chs, name, target, t),
        chs.len() > 0,
        forall|i: int| 0 <= i < chs.len() ==> (#[trigger] chs[i]).times() == grid,
        forall|i: int| 0 <= i < chs.len() ==> (#[trigger] chs[i]).val_count() >= grid.len(),
    ensures
        t.frames@.len() == grid.len(),
        forall|k: int| 0 <= k < grid.len() ==> (#[trigger] t.frames@[k]).time == grid[k],
{
    assert forall|i: int| 0 <= i < chs.len() implies (#[trigger] chs[i]).eff_len()
        == grid.len() by {
        assert(chs[i].times() == grid);
        if grid.len() > 0 {
            assert(chs[i].val_count() + 1 > grid.len());
        }
    }
    if grid.len() > 0 {
        lemma_frame_count_exists(chs, (grid.len() - 1) as nat);
        assert(chs[0].eff_len() > grid.len() - 1);
        lemma_frame_count_exists(chs, grid.len());
        assert(t.frames@.len() == grid.len());
        assert forall|k: int| 0 <= k < grid.len() implies (#[trigger] t.frames@[k]).time
            == grid[k] by {
            lemma_argmin_props(chs, k as nat, chs.len() as int);
            let a = argmin_upto(chs, k as nat, chs.len() as int);
            assert(Some(t.frames@[k].time) == min_peek_at(chs, k as nat));
            assert(a != -1);
            assert(chs[a].times() == grid);
        }
    } else {
        lemma_frame_count_exists(chs, 0);
        assert(t.frames@.len() == 0);
    }
}

/// A node with no channels at all gets an empty frame list and a zero
/// duration.
pub proof fn lemma_no_channels_empty_track(
    chs: Seq<AnimationDataIterator>,
    name: Seq<char>,
    target: usize,
    t: GLTFAnimation,
)
    requires
        merged_track_ok(chs, name, target, t),
        chs.len() == 0,
    ensures
        t.frames@.len() == 0,
        t.duration == 0,
{
    assert(frame_count(chs) == 0);
}

/// The most recently passed keyframe of channel `c0` at or before frame
/// `k`: the largest frame index up to `k` at which the channel still
/// contributed and the frame time hit the channel's keyframe time
/// exactly. Negative one when no keyframe has been passed yet.
pub open spec fn last_hit(
    c0: AnimationDataIterator,
    frames: Seq<GLTFAnimationFrame>,
    k: int,
) -> int
    decreases k + 1,
{
    if k < 0 {
        -1
    } else if k < c0.contrib_len() && k < frames.len() && c0.times()[k] == frames[k].time {
        k
    } else {
        last_hit(c0, frames, k - 1)
    }
}

/// Two values that agree everywhere agree on any one property.
pub proof fn lemma_value_eq_prop(kind: PropertyKind, a: GLTFAnimationValue, b: GLTFAnimationValue)
    requires
        value_eq(a, b),
    ensures
        prop_eq(kind, a, b),
{
}

/// A channel's value carries over a property-preserving step.
pub proof fn lemma_prop_set_carries(
    data: GLTFAnimationRawValue,
    i: int,
    a: GLTFAnimationValue,
    b: GLTFAnimationValue,
)
    requires
        data.value_set_at(b, i),
        prop_eq(data.kind(), a, b),
    ensures
        data.value_set_at(a, i),
{
}

/// A run of cursors none of which drives property `kind` (and none of
/// which is cubic) leaves that property untouched along a contribution
/// chain.
pub proof fn lemma_chain_preserves_prop(
    chs: Seq<AnimationDataIterator>,
    kind: PropertyKind,
    t: u32,
    k: nat,
    chain: Seq<GLTFAnimationValue>,
    lo: int,
    hi: int,
)
    requires
        chain.len() == chs.len() + 1,
        0 <= lo <= hi <= chs.len(),
        forall|i: int|
            0 <= i < chs.len() ==> frame_effect(chs[i], k, t, #[trigger] chain[i], chain[i + 1]),
        forall|i: int| lo <= i < hi ==> (#[trigger] chs[i]).kind() != kind,
        forall|i: int| 0 <= i < chs.len() ==> !((#[trigger] chs[i]).interpolation_type is Cubic),
    ensures
        prop_eq(kind, chain[hi], chain[lo]),
    decreases hi - lo,
{
    if lo < hi {
        lemma_chain_preserves_prop(chs, kind, t, k, chain, lo, hi - 1);
        let c0 = chs[hi - 1];
        assert(frame_effect(c0, k, t, chain[hi - 1], chain[hi]));
        if k >= c0.contrib_len() {
            lemma_value_eq_prop(kind, chain[hi], chain[hi - 1]);
        } else if c0.times()[k as int] == t {
            assert(prop_eq(kind, chain[hi], chain[hi - 1]));
        } else if c0.interpolation_type is Step {
            lemma_value_eq_prop(kind, chain[hi], chain[hi - 1]);
        } else {
            assert(prop_eq(kind, chain[hi], chain[hi - 1]));
        }
    }
}

/// Step interpolation holds the most recently passed keyframe's value,
/// exactly: in a merged track, the property driven by a step-mode channel
/// (the only channel of its property for that node) equals, at every
/// frame, the channel's value at its most recently passed keyframe, or
/// the seed value while no keyframe has been passed. Values are carried
/// bit for bit; no arithmetic touches them.
pub proof fn lemma_step_holds_last_keyframe(
    chs: Seq<AnimationDataIterator>,
    name: Seq<char>,
    target: usize,
    t: GLTFAnimation,
    ci: int,
    k: int,
)
    requires
        merged_track_ok(chs, name, target, t),
        0 <= ci < chs.len(),
        chs[ci].interpolation_type is Step,
        forall|j: int|
            0 <= j < chs.len() && j != ci ==> (#[trigger] chs[j]).kind() != chs[ci].kind(),
        forall|j: int| 0 <= j < chs.len() ==> !((#[trigger] chs[j]).interpolation_type is Cubic),
        0 <= k < t.frames@.len(),
    ensures
        last_hit(chs[ci], t.frames@, k) == -1 ==> prop_eq(
            chs[ci].kind(),
            t.frames@[k].value,
            seed_default(chs),
        ),
        last_hit(chs[ci], t.frames@, k) >= 0 ==> chs[ci].data.value_set_at(
            t.frames@[k].value,
            last_hit(chs[ci], t.frames@, k),
        ),
    decreases k,
{
    let frames = t.frames@;
    let c0 = chs[ci];
    let kind = c0.kind();
    assert(frame_values_ok(chs, frames, k));
    let chain = choose|chain: Seq<GLTFAnimationValue>|
        #[trigger] chain_ok(
            chs,
            prev_frame_value(chs, frames, k),
            frames[k].time,
            frames[k].value,
            k as nat,
            chain,
        );
    let prev = prev_frame_value(chs, frames, k);
    lemma_chain_preserves_prop(chs, kind, frames[k].time, k as nat, chain, 0, ci);
    lemma_chain_preserves_prop(chs, kind, frames[k].time, k as nat, chain, ci + 1, chs.len() as int);
    assert(frame_effect(c0, k as nat, frames[k].time, chain[ci], chain[ci + 1]));
    lemma_value_eq_prop(kind, chain[0], prev);
    lemma_value_eq_prop(kind, frames[k].value, chain[chs.len() as int]);
    if k < c0.contrib_len() && c0.times()[k] == frames[k].time {
        assert(last_hit(c0, frames, k) == k);
        assert(c0.data.value_set_at(chain[ci + 1], k));
        assert(prop_eq(kind, chain[chs.len() as int], chain[ci + 1]));
        assert(prop_eq(kind, frames[k].value, chain[ci + 1]));
        lemma_prop_set_carries(c0.data, k, frames[k].value, chain[ci + 1]);
    } else {
        assert(value_eq(chain[ci + 1], chain[ci]));
        lemma_value_eq_prop(kind, chain[ci + 1], chain[ci]);
        assert(prop_eq(kind, frames[k].value, prev));
        assert(last_hit(c0, frames, k) == last_hit(c0, frames, k - 1));
        if k == 0 {
            assert(prev == seed_default(chs));
            assert(last_hit(c0, frames, -1) == -1);
        } else {
            lemma_step_holds_last_keyframe(chs, name, target, t, ci, k - 1);
            assert(prev == frames[k - 1].value);
            let h = last_hit(c0, frames, k - 1);
            if h >= 0 {
                lemma_prop_set_carries(c0.data, h, frames[k].value, frames[k - 1].value);
            }
        }
    }
}

/// At its own keyframe time the keyframe is authoritative: when a frame's
/// time hits the current keyframe time of the channel driving a property
/// (the only channel of its property for that node), the frame carries
/// that keyframe's value outright, whatever interpolation the channel
/// declared.
pub proof fn lemma_keyframe_authoritative(
    chs: Seq<AnimationDataIterator>,
    name: Seq<char>,
    target: usize,
    t: GLTFAnimation,
    ci: int,
    k: int,
)
    requires
        merged_track_ok(chs, name, target, t),
        0 <= ci < chs.len(),
        forall|j: int|
            0 <= j < chs.len() && j != ci ==> (#[trigger] chs[j]).kind() != chs[ci].kind(),
        forall|j: int| 0 <= j < chs.len() ==> !((#[trigger] chs[j]).interpolation_type is Cubic),
        0 <= k < t.frames@.len(),
        k < chs[ci].contrib_len(),
        chs[ci].times()[k] == t.frames@[k].time,
    ensures
        chs[ci].data.value_set_at(t.frames@[k].value, k),
{
    let frames = t.frames@;
    let c0 = chs[ci];
    let kind = c0.kind();
    assert(frame_values_ok(chs, frames, k));
    let chain = choose|chain: Seq<GLTFAnimationValue>|
        #[trigger] chain_ok(
            chs,
            prev_frame_value(chs, frames, k),
            frames[k].time,
            frames[k].value,
            k as nat,
            chain,
        );
    lemma_chain_preserves_prop(chs, kind, frames[k].time, k as nat, chain, ci + 1, chs.len() as int);
    assert(frame_effect(c0, k as nat, frames[k].time, chain[ci], chain[ci + 1]));
    assert(c0.data.value_set_at(chain[ci + 1], k));
    lemma_value_eq_prop(kind, frames[k].value, chain[chs.len() as int]);
    assert(prop_eq(kind, frames[k].value, chain[ci + 1]));
    lemma_prop_set_carries(c0.data, k, frames[k].value, chain[ci + 1]);
}

/// Once a channel has no keyframes left, the property it drove is carried
/// forward unchanged, frame after frame, from the previous frame's value
/// (or from the seed before any frame existed).
pub proof fn lemma_finished_channel_carries(
    chs: Seq<AnimationDataIterator>,
    name: Seq<char>,
    target: usize,
    t: GLTFAnimation,
    ci: int,
    k: int,
)
    requires
        merged_track_ok(chs, name, target, t),
        0 <= ci < chs.len(),
        forall|j: int|
            0 <= j < chs.len() && j != ci ==> (#[trigger] chs[j]).kind() != chs[ci].kind(),
        forall|j: int| 0 <= j < chs.len() ==> !((#[trigger] chs[j]).interpolation_type is Cubic),
        0 <= k < t.frames@.len(),
        k >= chs[ci].contrib_len(),
    ensures
        prop_eq(chs[ci].kind(), t.frames@[k].value, prev_frame_value(chs, t.frames@, k)),
{
    let frames = t.frames@;
    let c0 = chs[ci];
    let kind = c0.kind();
    assert(frame_values_ok(chs, frames, k));
    let chain = choose|chain: Seq<GLTFAnimationValue>|
        #[trigger] chain_ok(
            chs,
            prev_frame_value(chs, frames, k),
            frames[k].time,
            frames[k].value,
            k as nat,
            chain,
        );
    lemma_chain_preserves_prop(chs, kind, frames[k].time, k as nat, chain, 0, ci);
    lemma_chain_preserves_prop(chs, kind, frames[k].time, k as nat, chain, ci + 1, chs.len() as int);
    assert(frame_effect(c0, k as nat, frames[k].time, chain[ci], chain[ci + 1]));
    assert(value_eq(chain[ci + 1], chain[ci]));
    lemma_value_eq_prop(kind, chain[ci + 1], chain[ci]);
    lemma_value_eq_prop(kind, chain[0], prev_frame_value(chs, frames, k));
    lemma_value_eq_prop(kind, frames[k].value, chain[chs.len() as int]);
}

/// The cursors, among the node-tagged pairs `s`, that belong to `node`,
/// in their original order.
pub open spec fn channels_for(
    s: Seq<(usize, AnimationDataIterator)>,
    node: usize,
) -> Seq<AnimationDataIterator>
    decreases s.len(),
{
    if s.len() == 0 {
        Seq::empty()
    } else {
        let rest = channels_for(s.drop_last(), node);
        if s.last().0 == node {
            rest.push(s.last().1)
        } else {
            rest
        }
    }
}

/// Every cursor grouped under a node came from an input pair naming that
/// node.
pub proof fn lemma_channels_for_members(
    s: Seq<(usize, AnimationDataIterator)>,
    node: usize,
    j: int,
)
    requires
        0 <= j < channels_for(s, node).len(),
    ensures
        exists|i: int|
            0 <= i < s.len() && (#[trigger] s[i]).0 == node && s[i].1 == channels_for(s, node)[j],
    decreases s.len(),
{
    if s.len() > 0 {
        if s.last().0 == node && j == channels_for(s, node).len() - 1 {
            assert(s[s.len() - 1].0 == node && s[s.len() - 1].1 == channels_for(s, node)[j]);
        } else {
            lemma_channels_for_members(s.drop_last(), node, j);
            let i = choose|i: int|
                0 <= i < s.drop_last().len() && (#[trigger] s.drop_last()[i]).0 == node
                    && s.drop_last()[i].1 == channels_for(s.drop_last(), node)[j];
            assert(s[i].0 == node && s[i].1 == channels_for(s, node)[j]);
        }
    }
}

/// What grouping and merging one clip's channels promises: the output
/// names each node at most once and only nodes some channel targets,
/// every input channel's node appears, and each node's track is the merge
/// of exactly that node's channels, in their input order.
pub open spec fn grouped_tracks_ok(
    pairs: Seq<(usize, AnimationDataIterator)>,
    name: Seq<char>,
    out: Seq<(usize, GLTFAnimation)>,
) -> bool {
    &&& forall|j1: int, j2: int|
        0 <= j1 < j2 < out.len() ==> (#[trigger] out[j1]).0 != (#[trigger] out[j2]).0
    &&& forall|j: int|
        0 <= j < out.len() ==> merged_track_ok(
            channels_for(pairs, (#[trigger] out[j]).0),
            name,
            out[j].0,
            out[j].1,
        )
    &&& forall|i: int|
        0 <= i < pairs.len() ==> exists|j: int|
            0 <= j < out.len() && (#[trigger] out[j]).0 == (#[trigger] pairs[i]).0
    &&& forall|j: int|
        #![trigger out[j]]
        0 <= j < out.len() ==> exists|i: int|
            0 <= i < pairs.len() && (#[trigger] pairs[i]).0 == out[j].0
}

/// What the grouping loop leaves behind adds up to `grouped_tracks_ok`:
/// the grouped list pairs each targeted node with exactly its channels,
/// every group is nonempty, and the output lists the groups once each in
/// reverse, so the output names each targeted node exactly once.
proof fn lemma_grouped_tracks_from_parts(
    pairs: Seq<(usize, AnimationDataIterator)>,
    name: Seq<char>,
    gseq: Seq<(usize, Vec<AnimationDataIterator>)>,
    result: Seq<(usize, GLTFAnimation)>,
)
    requires
        result.len() == gseq.len(),
        forall|g1: int, g2: int|
            0 <= g1 < g2 < gseq.len() ==> (#[trigger] gseq[g1]).0 != (#[trigger] gseq[g2]).0,
        forall|g: int|
            0 <= g < gseq.len() ==> (#[trigger] gseq[g]).1@ == channels_for(pairs, gseq[g].0),
        forall|g: int| 0 <= g < gseq.len() ==> (#[trigger] gseq[g]).1@.len() >= 1,
        forall|j: int|
            0 <= j < result.len() ==> (#[trigger] result[j]).0 == gseq[gseq.len() - 1 - j].0,
        forall|j: int|
            0 <= j < result.len() ==> merged_track_ok(
                channels_for(pairs, (#[trigger] result[j]).0),
                name,
                result[j].0,
                result[j].1,
            ),
        forall|i: int|
            0 <= i < pairs.len() ==> exists|g: int|
                0 <= g < gseq.len() && (#[trigger] gseq[g]).0 == (#[trigger] pairs[i]).0,
    ensures
        grouped_tracks_ok(pairs, name, result),
{
    assert forall|j1: int, j2: int| 0 <= j1 < j2 < result.len() implies (
    #[trigger] result[j1]).0 != (#[trigger] result[j2]).0 by {
        assert(result[j1].0 == gseq[gseq.len() - 1 - j1].0);
        assert(result[j2].0 == gseq[gseq.len() - 1 - j2].0);
    }
    assert forall|i: int| 0 <= i < pairs.len() implies exists|j: int|
        0 <= j < result.len() && (#[trigger] result[j]).0 == (#[trigger] pairs[i]).0 by {
        let g = choose|g: int| 0 <= g < gseq.len() && (#[trigger] gseq[g]).0 == pairs[i].0;
        assert(result[gseq.len() - 1 - g].0 == gseq[g].0);
    }
    assert forall|j: int| #![trigger result[j]] 0 <= j < result.len() implies exists|i: int|
        0 <= i < pairs.len() && (#[trigger] pairs[i]).0 == result[j].0 by {
        let g = gseq.len() - 1 - j;
        assert(result[j].0 == gseq[g].0);
        assert(gseq[g].1@ == channels_for(pairs, gseq[g].0));
        assert(channels_for(pairs, gseq[g].0).len() >= 1);
        lemma_channels_for_members(pairs, gseq[g].0, 0);
        let i = choose|i: int|
            0 <= i < pairs.len() && (#[trigger] pairs[i]).0 == gseq[g].0 && pairs[i].1
                == channels_for(pairs, gseq[g].0)[0];
        assert(pairs[i].0 == result[j].0);
    }
}

impl GLTFAnimation {
    /// Merge the cursors of one node's channels into a single ordered
    /// animation track, the streaming merge driven by "next due time":
    /// while any cursor is unfinished, the smallest next unread time
    /// becomes the next frame's time, every unfinished cursor contributes
    /// to that frame and advances, and the composed frame is appended.
    /// Frame zero is seeded from the winning cursor's rest-pose default;
    /// later frames carry the previous frame's values forward. A channel
    /// that asks for cubic interpolation makes the whole merge fail, up
    /// front, with [`AnimationError::UnsupportedInterpolation`].
    #[verifier::rlimit(100)]
    pub fn merge_channels<I: Interpolator>(
        name: String,
        target: usize,
        channels: Vec<AnimationDataIterator>,
        interp: &I,
    ) -> (r: Result<GLTFAnimation, AnimationError>)
        requires
            forall|i: int| 0 <= i < channels@.len() ==> (#[trigger] channels@[i]).is_fresh(),
        ensures
            (r is Err) <==> exists|i: int|
                0 <= i < channels@.len() && (#[trigger] channels@[i]).interpolation_type is Cubic,
            r is Err ==> r == Err::<GLTFAnimation, AnimationError>(
                AnimationError::UnsupportedInterpolation,
            ),
            r is Ok ==> merged_track_ok(channels@, name@, target, r->Ok_0),
    {
        let ghost c0s = channels@;
        let mut channels = channels;

        let mut has_cubic = false;
        let mut c: usize = 0;
        while c < channels.len()
            invariant
                channels@ == c0s,
                c <= c0s.len(),
                has_cubic == (exists|i: int|
                    0 <= i < c && (#[trigger] c0s[i]).interpolation_type is Cubic),
            decreases c0s.len() - c,
        {
            if matches!(channels[c].interpolation_type, InterpolationTypes::Cubic) {
                has_cubic = true;
            }
            c += 1;
        }
        if has_cubic {
            return Err(AnimationError::UnsupportedInterpolation);
        }

        let mut targets = InterpolationTargets {
            translation: InterpolationTypes::Unspecified,
            rotation: InterpolationTypes::Unspecified,
            scale: InterpolationTypes::Unspecified,
            weights: InterpolationTypes::Unspecified,
        };
        let mut c: usize = 0;
        while c < channels.len()
            invariant
                channels@ == c0s,
                c <= c0s.len(),
                targets == merged_targets(c0s.subrange(0, c as int)),
            decreases c0s.len() - c,
        {
            proof {
                assert(c0s.subrange(0, c + 1 as int).drop_last() =~= c0s.subrange(0, c as int));
                assert(c0s.subrange(0, c + 1 as int).last() == c0s[c as int]);
            }
            let kind = channels[c].data.property_kind();
            let mode = channels[c].interpolation_type;
            match kind {
                PropertyKind::Translation => {
                    targets.translation = mode;
                },
                PropertyKind::Rotation => {
                    targets.rotation = mode;
                },
                PropertyKind::Scaling => {
                    targets.scale = mode;
                },
                PropertyKind::MorphWeights => {
                    targets.weights = mode;
                },
            }
            c += 1;
        }
        proof {
            assert(c0s.subrange(0, c0s.len() as int) =~= c0s);
        }

        let mut frames: Vec<GLTFAnimationFrame> = Vec::new();
        let mut done = false;

        while !done
            invariant
                channels@.len() == c0s.len(),
                forall|i: int| 0 <= i < c0s.len() ==> (#[trigger] c0s[i]).is_fresh(),
                forall|i: int|
                    0 <= i < c0s.len() ==> !((#[trigger] c0s[i]).interpolation_type is Cubic),
                forall|i: int|
                    0 <= i < c0s.len() ==> channels@[i] == (#[trigger] c0s[i]).cursor_at(
                        frames@.len() as nat,
                    ),
                frames@.len() <= frame_count(c0s),
                forall|k2: int|
                    #![trigger frames@[k2]]
                    0 <= k2 < frames@.len() ==> Some(frames@[k2].time) == min_peek_at(
                        c0s,
                        k2 as nat,
                    ),
                forall|k2: int|
                    #![trigger frames@[k2]]
                    0 <= k2 < frames@.len() ==> frame_values_ok(c0s, frames@, k2),
                (frame_count(c0s) > 0 && seed_default(c0s).transformation.rotation is Quaternion)
                    ==> (forall|k2: int|
                    #![trigger frames@[k2]]
                    0 <= k2 < frames@.len()
                        ==> frames@[k2].value.transformation.rotation is Quaternion),
                done ==> frames@.len() == frame_count(c0s),
            decreases frame_count(c0s) - frames@.len(), (if done {
                0int
            } else {
                1int
            }),
        {
            let flen = frames.len();
            let ghost k = flen as nat;
            proof {
                assert forall|i: int|
                    0 <= i < channels@.len() && !(#[trigger] channels@[i]).is_finished implies channels@[i].index
                    < channels@[i].times().len() by {
                    assert(channels@[i] == c0s[i].cursor_at(k));
                    assert(k < c0s[i].eff_len());
                    assert(k <= c0s[i].contrib_len());
                    assert(nat_min(k, c0s[i].contrib_len()) == k);
                    assert(channels@[i].index == k);
                    assert(k < c0s[i].times().len());
                }
            }
            let m = min_value(&channels);
            match m {
                None => {
                    proof {
                        lemma_argmin_bridge(c0s, channels@, k, c0s.len() as int);
                        lemma_argmin_props(c0s, k, c0s.len() as int);
                        lemma_frame_count_exists(c0s, k);
                        assert(!(k < frame_count(c0s)));
                    }
                    done = true;
                },
                Some(p) => {
                    let min_idx = p.0;
                    let min_time = p.1;
                    let tl = channels[min_idx].times_len();
                    proof {
                        lemma_argmin_bridge(c0s, channels@, k, c0s.len() as int);
                        lemma_argmin_props(c0s, k, c0s.len() as int);
                        lemma_frame_count_exists(c0s, k);
                        assert(min_idx == argmin_upto(c0s, k, c0s.len() as int));
                        assert(c0s[min_idx as int].eff_len() > k);
                        assert(k < frame_count(c0s));
                        assert(channels@[min_idx as int].index == k);
                        assert(channels@[min_idx as int].index < tl);
                        assert(k < usize::MAX);
                        assert(channels@[min_idx as int].times() == c0s[min_idx as int].times());
                        assert(Some(min_time) == min_peek_at(c0s, k));
                    }
                    let seed_val = if flen == 0 {
                        clone_value(&channels[min_idx].default_data)
                    } else {
                        GLTFAnimationValue::from_previous_frame(&frames[flen - 1])
                    };
                    proof {
                        if k == 0 {
                            assert(channels@[min_idx as int].default_data == c0s[min_idx as int].default_data);
                            assert(value_eq(seed_val, seed_default(c0s)));
                        } else {
                            assert(value_eq(seed_val, frames@[k as int - 1].value));
                        }
                        if frame_count(c0s) > 0
                            && seed_default(c0s).transformation.rotation is Quaternion {
                            assert(seed_val.transformation.rotation is Quaternion);
                        }
                    }
                    let ghost seed_snapshot = seed_val;
                    let composed = compose_frame(
                        &mut channels,
                        seed_val,
                        min_time,
                        interp,
                        Ghost(c0s),
                        Ghost(k),
                    );
                    let next_value = composed.0;
                    let ghost chain = composed.1@;
                    let ghost pre_frames = frames@;
                    let ghost nv = next_value;
                    frames.push(GLTFAnimationFrame { time: min_time, value: next_value });
                    proof {
                        assert(frames@ == pre_frames.push(
                            GLTFAnimationFrame { time: min_time, value: nv },
                        ));
                        assert(frames@.len() == k + 1);
                        assert(chain[0] == seed_snapshot);
                        assert(value_eq(chain[0], prev_frame_value(c0s, frames@, k as int)));
                        assert(value_eq(frames@[k as int].value, chain[c0s.len() as int]));
                        assert(chain_ok(
                            c0s,
                            prev_frame_value(c0s, frames@, k as int),
                            frames@[k as int].time,
                            frames@[k as int].value,
                            (k as int) as nat,
                            chain,
                        ));
                        lemma_intro_frame_values_ok(c0s, frames@, k as int, chain);
                        assert(frame_values_ok(c0s, frames@, k as int));
                        assert forall|k2: int| 0 <= k2 < frames@.len() implies frame_values_ok(
                            c0s,
                            frames@,
                            k2,
                        ) by {
                            if k2 < k as int {
                                assert(frame_values_ok(c0s, pre_frames, k2));
                                let ch = choose|ch: Seq<GLTFAnimationValue>|
                                    #[trigger] chain_ok(
                                        c0s,
                                        prev_frame_value(c0s, pre_frames, k2),
                                        pre_frames[k2].time,
                                        pre_frames[k2].value,
                                        k2 as nat,
                                        ch,
                                    );
                                assert(prev_frame_value(c0s, frames@, k2) == prev_frame_value(
                                    c0s,
                                    pre_frames,
                                    k2,
                                ));
                                assert(chain_ok(
                                    c0s,
                                    prev_frame_value(c0s, frames@, k2),
                                    frames@[k2].time,
                                    frames@[k2].value,
                                    k2 as nat,
                                    ch,
                                ));
                            }
                        }
                    }
                },
            }
        }

        let frames_len = frames.len();
        let duration = if frames_len == 0 {
            0
        } else {
            frames[frames_len - 1].time
        };
        let interpolation = if frames_len == 0 {
            InterpolationTargets {
                translation: InterpolationTypes::Unspecified,
                rotation: InterpolationTypes::Unspecified,
                scale: InterpolationTypes::Unspecified,
                weights: InterpolationTypes::Unspecified,
            }
        } else {
            targets
        };
        Ok(GLTFAnimation { name, target, frames, interpolation, duration })
    }

    /// Load one animation clip: group the decoded, node-tagged channel
    /// cursors by the node they target, then merge each node's channels
    /// into that node's track. No channel is dropped: every channel is
    /// attributed to exactly the node named by its tag. A cubic channel
    /// anywhere in the clip makes the whole load fail.
    #[verifier::rlimit(100)]
    pub fn load<I: Interpolator>(
        name: String,
        channels: Vec<(usize, AnimationDataIterator)>,
        interp: &I,
    ) -> (r: Result<Vec<(usize, GLTFAnimation)>, AnimationError>)
        requires
            forall|i: int| 0 <= i < channels@.len() ==> (#[trigger] channels@[i]).1.is_fresh(),
        ensures
            (r is Err) <==> exists|i: int|
                0 <= i < channels@.len() && (#[trigger] channels@[i]).1.interpolation_type
                    is Cubic,
            r is Err ==> r == Err::<Vec<(usize, GLTFAnimation)>, AnimationError>(
                AnimationError::UnsupportedInterpolation,
            ),
            r is Ok ==> grouped_tracks_ok(channels@, name@, r->Ok_0@),
    {
        let ghost pairs = channels@;
        let mut channels = channels;

        let mut has_cubic = false;
        let mut i: usize = 0;
        while i < channels.len()
            invariant
                channels@ == pairs,
                i <= pairs.len(),
                has_cubic == (exists|q: int|
                    0 <= q < i && (#[trigger] pairs[q]).1.interpolation_type is Cubic),
            decreases pairs.len() - i,
        {
            if matches!(channels[i].1.interpolation_type, InterpolationTypes::Cubic) {
                has_cubic = true;
            }
            i += 1;
        }
        if has_cubic {
            return Err(AnimationError::UnsupportedInterpolation);
        }

        let mut groups: Vec<(usize, Vec<AnimationDataIterator>)> = Vec::new();
        while channels.len() > 0
            invariant
                channels@ == pairs.subrange(
                    pairs.len() - channels@.len(),
                    pairs.len() as int,
                ),
                channels@.len() <= pairs.len(),
                forall|g1: int, g2: int|
                    0 <= g1 < g2 < groups@.len() ==> (#[trigger] groups@[g1]).0 != (
                    #[trigger] groups@[g2]).0,
                forall|g: int|
                    0 <= g < groups@.len() ==> (#[trigger] groups@[g]).1@ == channels_for(
                        pairs.subrange(0, pairs.len() - channels@.len()),
                        groups@[g].0,
                    ),
                forall|g: int| 0 <= g < groups@.len() ==> (#[trigger] groups@[g]).1@.len() >= 1,
                forall|q: int|
                    0 <= q < pairs.len() - channels@.len() ==> exists|g: int|
                        0 <= g < groups@.len() && (#[trigger] groups@[g]).0 == (
                        #[trigger] pairs[q]).0,
                forall|n: usize|
                    #![trigger channels_for(pairs.subrange(0, pairs.len() - channels@.len()), n)]
                    (forall|g: int| 0 <= g < groups@.len() ==> (#[trigger] groups@[g]).0 != n)
                        ==> channels_for(
                        pairs.subrange(0, pairs.len() - channels@.len()),
                        n,
                    ).len() == 0,
            decreases channels@.len(),
        {
            let ghost done = pairs.len() - channels@.len();
            let pair = channels.remove(0);
            let node = pair.0;
            let cursor = pair.1;
            proof {
                assert(pairs.subrange(done, pairs.len() as int)[0] == pairs[done]);
                assert(pair == pairs[done]);
                assert(channels@ =~= pairs.subrange(done + 1, pairs.len() as int));
                assert(pairs.subrange(0, done + 1).drop_last() =~= pairs.subrange(0, done));
                assert(pairs.subrange(0, done + 1).last() == pairs[done]);
            }
            let mut found = false;
            let mut at: usize = 0;
            let mut gi: usize = 0;
            while gi < groups.len()
                invariant
                    gi <= groups@.len(),
                    found ==> at < groups@.len() && groups@[at as int].0 == node,
                    !found ==> forall|g: int| 0 <= g < gi ==> (#[trigger] groups@[g]).0 != node,
                decreases groups@.len() - gi,
            {
                if groups[gi].0 == node {
                    found = true;
                    at = gi;
                }
                gi += 1;
            }
            let ghost old_groups = groups@;
            let ghost prefix0 = pairs.subrange(0, done);
            let ghost prefix1 = pairs.subrange(0, done + 1);
            proof {
                assert(channels_for(prefix1, node) == channels_for(prefix0, node).push(
                    pairs[done].1,
                ));
                assert forall|n: usize| n != node implies channels_for(prefix1, n)
                    == channels_for(prefix0, n) by {
                    assert(prefix1.drop_last() =~= prefix0);
                    assert(prefix1.last().0 == node);
                }
            }
            if found {
                let g = vec_index_mut(&mut groups, at);
                g.1.push(cursor);
                proof {
                    assert(groups@.len() == old_groups.len());
                    assert(groups@[at as int].0 == node);
                    assert(groups@[at as int].1@ == old_groups[at as int].1@.push(pairs[done].1));
                    assert(forall|g2: int|
                        0 <= g2 < groups@.len() && g2 != at ==> groups@[g2] == old_groups[g2]);
                    assert forall|g2: int| 0 <= g2 < groups@.len() implies (
                    #[trigger] groups@[g2]).1@ == channels_for(prefix1, groups@[g2].0) by {
                        if g2 == at {
                            assert(channels_for(prefix1, node) == old_groups[at as int].1@.push(
                                pairs[done].1,
                            ));
                        } else {
                            assert(groups@[g2].0 != node);
                            assert(channels_for(prefix1, groups@[g2].0) == channels_for(
                                prefix0,
                                groups@[g2].0,
                            ));
                        }
                    }
                }
            } else {
                let mut fresh_group: Vec<AnimationDataIterator> = Vec::new();
                fresh_group.push(cursor);
                groups.push((node, fresh_group));
                proof {
                    assert(forall|g2: int|
                        0 <= g2 < old_groups.len() ==> (#[trigger] old_groups[g2]).0 != node);
                    assert(channels_for(prefix0, node).len() == 0);
                    assert(groups@ == old_groups.push(groups@[old_groups.len() as int]));
                    assert(groups@[old_groups.len() as int].0 == node);
                    assert(groups@[old_groups.len() as int].1@ =~= channels_for(prefix1, node));
                    assert forall|g2: int| 0 <= g2 < groups@.len() implies (
                    #[trigger] groups@[g2]).1@ == channels_for(prefix1, groups@[g2].0) by {
                        if g2 < old_groups.len() {
                            assert(groups@[g2] == old_groups[g2]);
                            assert(groups@[g2].0 != node);
                            assert(channels_for(prefix1, groups@[g2].0) == channels_for(
                                prefix0,
                                groups@[g2].0,
                            ));
                        }
                    }
                }
            }
            proof {
                assert(pairs.len() - channels@.len() == done + 1);
                assert forall|q: int| 0 <= q < done + 1 implies exists|g: int|
                    0 <= g < groups@.len() && (#[trigger] groups@[g]).0 == (
                    #[trigger] pairs[q]).0 by {
                    if q < done {
                        let g = choose|g: int|
                            0 <= g < old_groups.len() && (#[trigger] old_groups[g]).0
                                == pairs[q].0;
                        assert(groups@[g].0 == pairs[q].0);
                    } else {
                        if found {
                            assert(groups@[at as int].0 == pairs[q].0);
                        } else {
                            assert(groups@[groups@.len() - 1].0 == pairs[q].0);
                        }
                    }
                }
                assert forall|n: usize|
                    #![trigger channels_for(pairs.subrange(0, pairs.len() - channels@.len()), n)]
                    (forall|g: int| 0 <= g < groups@.len() ==> (#[trigger] groups@[g]).0
                        != n) implies channels_for(
                    pairs.subrange(0, pairs.len() - channels@.len()),
                    n,
                ).len() == 0 by {
                    assert(pairs.subrange(0, pairs.len() - channels@.len()) =~= prefix1);
                    if n == node {
                        if found {
                            assert(groups@[at as int].0 == n);
                        } else {
                            assert(groups@[groups@.len() - 1].0 == n);
                        }
                    } else {
                        assert forall|g: int| 0 <= g < old_groups.len() implies (
                        #[trigger] old_groups[g]).0 != n by {
                            if found && g == at {
                                assert(old_groups[g].0 == node);
                            } else {
                                assert(old_groups[g] == groups@[g]);
                                assert(groups@[g].0 != n);
                            }
                        }
                        assert(channels_for(prefix0, n).len() == 0);
                        assert(channels_for(prefix1, n) == channels_for(prefix0, n));
                    }
                }
            }
        }
        proof {
            assert(pairs.subrange(0, pairs.len() as int) =~= pairs);
        }

        let ghost gseq = groups@;
        let mut result: Vec<(usize, GLTFAnimation)> = Vec::new();
        while groups.len() > 0
            invariant
                groups@ == gseq.subrange(0, groups@.len() as int),
                groups@.len() <= gseq.len(),
                result@.len() == gseq.len() - groups@.len(),
                forall|g1: int, g2: int|
                    0 <= g1 < g2 < gseq.len() ==> (#[trigger] gseq[g1]).0 != (
                    #[trigger] gseq[g2]).0,
                forall|g: int|
                    0 <= g < gseq.len() ==> (#[trigger] gseq[g]).1@ == channels_for(
                        pairs,
                        gseq[g].0,
                    ),
                forall|g: int| 0 <= g < gseq.len() ==> (#[trigger] gseq[g]).1@.len() >= 1,
                forall|j: int|
                    0 <= j < result@.len() ==> (#[trigger] result@[j]).0 == gseq[gseq.len() - 1
                        - j].0,
                forall|j: int|
                    0 <= j < result@.len() ==> merged_track_ok(
                        channels_for(pairs, (#[trigger] result@[j]).0),
                        name@,
                        result@[j].0,
                        result@[j].1,
                    ),
                forall|i2: int|
                    0 <= i2 < pairs.len() ==> exists|g: int|
                        0 <= g < gseq.len() && (#[trigger] gseq[g]).0 == (#[trigger] pairs[i2]).0,
                forall|q: int|
                    0 <= q < pairs.len() ==> !((#[trigger] pairs[q]).1.interpolation_type
                        is Cubic),
                forall|q: int| 0 <= q < pairs.len() ==> (#[trigger] pairs[q]).1.is_fresh(),
            decreases groups@.len(),
        {
            let popped = groups.pop();
            let (node, cursors) = match popped {
                Some(p) => p,
                None => {
                    proof {
                        assert(false);
                    }
                    (0, Vec::new())
                },
            };
            proof {
                assert(cursors@ == channels_for(pairs, node));
                assert forall|c2: int| 0 <= c2 < cursors@.len() implies (
                #[trigger] cursors@[c2]).is_fresh() && !(cursors@[c2].interpolation_type
                    is Cubic) by {
                    lemma_channels_for_members(pairs, node, c2);
                }
            }
            let track = Self::merge_channels(name.clone(), node, cursors, interp);
            match track {
                Ok(t) => {
                    result.push((node, t));
                },
                Err(e) => {
                    proof {
                        assert(false);
                    }
                    return Err(e);
                },
            }
        }
        proof {
            lemma_grouped_tracks_from_parts(pairs, name@, gseq, result@);
        }
        Ok(result)
    }
}

} // verus!
