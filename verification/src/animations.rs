use vstd::prelude::*;

use crate::animation::{
    clone_u32_vec, value_eq, GLTFAnimation, GLTFAnimationFrame, GLTFAnimationValue,
    InterpolationTargets,
};
use crate::utils::renpy_transform;

verus! {

/// A per-node animation prepared for the target engine's coordinate
/// convention.
#[derive(Clone, Debug)]
pub struct Animation {
    /// ID of the target node
    pub target: usize,
    /// Interpolation style recorded per animated property
    pub interpolation: InterpolationTargets,
    /// The remapped keyframes
    pub frames: Vec<GLTFAnimationFrame>,
    /// Duration of the entire animation in seconds, as an encoding
    pub duration: u32,
}

/// An animation associated with a clip name.
#[derive(Clone, Debug)]
pub struct AnimationSet {
    /// Name of the animation clip
    pub name: String,
    /// The remapped per-node animation
    pub animation: Animation,
}

/// A frame value moved into the target engine's convention: the transform
/// is remapped (vertical translation negated, quaternion handedness
/// flipped) and the morph weights are carried unchanged.
pub open spec fn renpy_value(v: GLTFAnimationValue) -> GLTFAnimationValue {
    GLTFAnimationValue { transformation: renpy_transform(v.transformation), weights: v.weights }
}

impl AnimationSet {
    /// Prepare one node's merged animation tracks for the target engine:
    /// each track becomes a named set whose every frame value is remapped
    /// into the engine's convention, exactly once, keeping the rotation in
    /// quaternion form so that playback can still blend spherically.
    /// Times, durations, targets, names and recorded interpolation modes
    /// are preserved.
    pub fn from_node(node: &Vec<GLTFAnimation>) -> (r: Vec<AnimationSet>)
        requires
            forall|j: int, k: int|
                0 <= j < node@.len() && 0 <= k < node@[j].frames@.len() ==> (#[trigger] node@[j].frames@[k]).value.transformation.rotation
                    is Quaternion,
        ensures
            r@.len() == node@.len(),
            forall|j: int|
                0 <= j < node@.len() ==> {
                    let s = #[trigger] r@[j];
                    &&& s.name@ == node@[j].name@
                    &&& s.animation.target == node@[j].target
                    &&& s.animation.interpolation == node@[j].interpolation
                    &&& s.animation.duration == node@[j].duration
                    &&& s.animation.frames@.len() == node@[j].frames@.len()
                    &&& forall|k: int|
                        0 <= k < node@[j].frames@.len() ==> (#[trigger] s.animation.frames@[k]).time
                            == node@[j].frames@[k].time && value_eq(
                            s.animation.frames@[k].value,
                            renpy_value(node@[j].frames@[k].value),
                        )
                },
    {
        let mut animations: Vec<AnimationSet> = Vec::new();
        let mut j: usize = 0;
        while j < node.len()
            invariant
                j <= node@.len(),
                animations@.len() == j,
                forall|j2: int, k: int|
                    0 <= j2 < node@.len() && 0 <= k < node@[j2].frames@.len() ==> (
                    #[trigger] node@[j2].frames@[k]).value.transformation.rotation is Quaternion,
                forall|j2: int|
                    0 <= j2 < j ==> {
                        let s = #[trigger] animations@[j2];
                        &&& s.name@ == node@[j2].name@
                        &&& s.animation.target == node@[j2].target
                        &&& s.animation.interpolation == node@[j2].interpolation
                        &&& s.animation.duration == node@[j2].duration
                        &&& s.animation.frames@.len() == node@[j2].frames@.len()
                        &&& forall|k: int|
                            0 <= k < node@[j2].frames@.len() ==> (
                            #[trigger] s.animation.frames@[k]).time == node@[j2].frames@[k].time
                                && value_eq(
                                s.animation.frames@[k].value,
                                renpy_value(node@[j2].frames@[k].value),
                            )
                    },
            decreases node@.len() - j,
        {
            let source = &node[j];
            let name = source.name.clone();
            let mut frames: Vec<GLTFAnimationFrame> = Vec::new();
            let mut k: usize = 0;
            while k < source.frames.len()
                invariant
                    k <= source.frames@.len(),
                    frames@.len() == k,
                    *source == node@[j as int],
                    j < node@.len(),
                    forall|j2: int, k2: int|
                        0 <= j2 < node@.len() && 0 <= k2 < node@[j2].frames@.len() ==> (
                        #[trigger] node@[j2].frames@[k2]).value.transformation.rotation
                            is Quaternion,
                    forall|k2: int|
                        0 <= k2 < k ==> (#[trigger] frames@[k2]).time == source.frames@[k2].time
                            && value_eq(
                            frames@[k2].value,
                            renpy_value(source.frames@[k2].value),
                        ),
                decreases source.frames@.len() - k,
            {
                let frame = &source.frames[k];
                let mut transformation = frame.value.transformation;
                transformation.as_renpy_coords();
                let weights = clone_u32_vec(&frame.value.weights);
                frames.push(
                    GLTFAnimationFrame {
                        time: frame.time,
                        value: GLTFAnimationValue { transformation, weights },
                    },
                );
                k += 1;
            }
            animations.push(
                AnimationSet {
                    name,
                    animation: Animation {
                        target: source.target,
                        interpolation: source.interpolation,
                        frames,
                        duration: source.duration,
                    },
                },
            );
            j += 1;
        }
        animations
    }
}

} // verus!
