use gltf_for_renpy::animation::{GLTFAnimation, GLTFAnimationFrame, GLTFAnimationValue, InterpolationTargets};
use gltf_for_renpy::animations::AnimationSet;
use gltf_for_renpy::utils::{
    flip_sign, DecomposedTransform, Euler, Quaternion, RotationTransform, Vector3, ONE_BITS,
};

fn b(x: f32) -> u32 {
    x.to_bits()
}

#[test]
fn sign_flip_negates_the_encoding() {
    assert_eq!(flip_sign(b(2.5)), b(-2.5));
    assert_eq!(flip_sign(b(-0.125)), b(0.125));
    assert_eq!(flip_sign(b(0.0)), b(-0.0));
    assert_eq!(flip_sign(flip_sign(b(17.0))), b(17.0));
}

#[test]
fn one_bits_encodes_one() {
    assert_eq!(ONE_BITS, 1.0f32.to_bits());
}

#[test]
fn default_transform_is_the_identity() {
    let t = DecomposedTransform::default();
    assert!(t.is_default());
    assert_eq!(t.translation, Vector3 { x: b(0.0), y: b(0.0), z: b(0.0) });
    assert_eq!(
        t.rotation,
        RotationTransform::Quaternion(Quaternion { s: b(1.0), x: 0, y: 0, z: 0 })
    );
    assert_eq!(t.scale, Vector3 { x: b(1.0), y: b(1.0), z: b(1.0) });

    let moved = DecomposedTransform {
        translation: Vector3 { x: b(1.0), y: b(0.0), z: b(0.0) },
        ..DecomposedTransform::default()
    };
    assert!(!moved.is_default());

    let euler_zero = DecomposedTransform {
        rotation: RotationTransform::Euler(Euler { x: b(0.0), y: b(0.0), z: b(0.0) }),
        ..DecomposedTransform::default()
    };
    assert!(euler_zero.is_default());
}

#[test]
fn negative_zero_still_counts_as_identity() {
    // Negative zero encodes differently but names the same number, so a
    // numeric identity check must accept it.
    let neg_zero_translation = DecomposedTransform {
        translation: Vector3 { x: b(0.0), y: b(-0.0), z: b(0.0) },
        ..DecomposedTransform::default()
    };
    assert!(neg_zero_translation.is_default());

    let neg_zero_rotation = DecomposedTransform {
        rotation: RotationTransform::Quaternion(Quaternion {
            s: b(1.0),
            x: b(-0.0),
            y: b(0.0),
            z: b(-0.0),
        }),
        ..DecomposedTransform::default()
    };
    assert!(neg_zero_rotation.is_default());

    let neg_zero_euler = DecomposedTransform {
        rotation: RotationTransform::Euler(Euler { x: b(-0.0), y: b(-0.0), z: b(-0.0) }),
        ..DecomposedTransform::default()
    };
    assert!(neg_zero_euler.is_default());
}

#[test]
fn renpy_remap_flips_vertical_and_handedness() {
    let t = DecomposedTransform {
        translation: Vector3 { x: b(1.0), y: b(2.0), z: b(3.0) },
        rotation: RotationTransform::Quaternion(Quaternion {
            s: b(0.5),
            x: b(0.5),
            y: b(0.5),
            z: b(0.5),
        }),
        scale: Vector3 { x: b(1.0), y: b(1.0), z: b(1.0) },
    };
    let r = t.to_renpy_coords();
    assert_eq!(r.translation, Vector3 { x: b(1.0), y: b(-2.0), z: b(3.0) });
    assert_eq!(
        r.rotation,
        RotationTransform::Quaternion(Quaternion {
            s: b(0.5),
            x: b(-0.5),
            y: b(0.5),
            z: b(-0.5),
        })
    );
    assert_eq!(r.scale, t.scale);

    // The remap is self-inverse, which is why it must run exactly once.
    assert_eq!(r.to_renpy_coords(), t);
}

#[test]
fn rotation_unwraps() {
    let q = Quaternion { s: b(1.0), x: 0, y: 0, z: 0 };
    assert_eq!(RotationTransform::Quaternion(q).unwrap_quaternion(), q);
    let e = Euler { x: b(10.0), y: b(20.0), z: b(30.0) };
    assert_eq!(RotationTransform::Euler(e).unwrap_euler(), e);
}

#[test]
fn from_node_remaps_every_frame_once() {
    let frame = |time: f32, y: f32| GLTFAnimationFrame {
        time: b(time),
        value: GLTFAnimationValue {
            transformation: DecomposedTransform {
                translation: Vector3 { x: b(1.0), y: b(y), z: b(0.0) },
                rotation: RotationTransform::Quaternion(Quaternion {
                    s: b(1.0),
                    x: b(0.25),
                    y: b(0.0),
                    z: b(0.75),
                }),
                scale: Vector3 { x: ONE_BITS, y: ONE_BITS, z: ONE_BITS },
            },
            weights: vec![b(0.5), b(0.25)],
        },
    };
    let track = GLTFAnimation {
        name: "spin".to_string(),
        target: 11,
        frames: vec![frame(0.0, 4.0), frame(1.5, 8.0)],
        interpolation: InterpolationTargets::default(),
        duration: b(1.5),
    };
    let sets = AnimationSet::from_node(&vec![track]);
    assert_eq!(sets.len(), 1);
    let set = &sets[0];
    assert_eq!(set.name, "spin");
    assert_eq!(set.animation.target, 11);
    assert_eq!(f32::from_bits(set.animation.duration), 1.5);
    assert_eq!(set.animation.frames.len(), 2);

    let v0 = &set.animation.frames[0].value;
    assert_eq!(v0.transformation.translation.y, b(-4.0));
    let v1 = &set.animation.frames[1].value;
    assert_eq!(v1.transformation.translation.y, b(-8.0));
    match v1.transformation.rotation {
        RotationTransform::Quaternion(q) => {
            assert_eq!(q.s, b(1.0));
            assert_eq!(q.x, b(-0.25));
            assert_eq!(q.y, b(0.0));
            assert_eq!(q.z, b(-0.75));
        }
        RotationTransform::Euler(_) => panic!("rotation should stay a quaternion"),
    }
    assert_eq!(v1.weights, vec![b(0.5), b(0.25)]);
    assert_eq!(f32::from_bits(set.animation.frames[1].time), 1.5);
}
