use gltf_for_renpy::animation::{
    times_strictly_increasing, AnimationDataIterator, AnimationError, GLTFAnimation,
    GLTFAnimationRawValue, GLTFAnimationValue, InterpolationTypes, Interpolator,
};
use gltf_for_renpy::utils::{DecomposedTransform, Quaternion, RotationTransform, Vector3};

struct F32Interpolator;

fn fraction(current_keyframe_time: u32, new_frame_time: u32) -> f32 {
    f32::from_bits(current_keyframe_time) / f32::from_bits(new_frame_time)
}

fn lerp1(a: u32, b: u32, t: f32) -> u32 {
    let a = f32::from_bits(a);
    let b = f32::from_bits(b);
    (a * (1.0 - t) + b * t).to_bits()
}

impl Interpolator for F32Interpolator {
    fn lerp_vector3(
        &self,
        previous: Vector3,
        next: Vector3,
        current_keyframe_time: u32,
        new_frame_time: u32,
    ) -> Vector3 {
        let t = fraction(current_keyframe_time, new_frame_time);
        Vector3 {
            x: lerp1(previous.x, next.x, t),
            y: lerp1(previous.y, next.y, t),
            z: lerp1(previous.z, next.z, t),
        }
    }

    fn slerp(
        &self,
        previous: RotationTransform,
        next: Quaternion,
        current_keyframe_time: u32,
        new_frame_time: u32,
    ) -> Quaternion {
        // Normalized linear blend: enough for the structural tests here,
        // which never assert on a blended rotation's numeric value.
        let t = fraction(current_keyframe_time, new_frame_time);
        let p = match previous {
            RotationTransform::Quaternion(q) => q,
            RotationTransform::Euler(_) => Quaternion { s: 1f32.to_bits(), x: 0, y: 0, z: 0 },
        };
        let (ps, px, py, pz) = (
            f32::from_bits(p.s),
            f32::from_bits(p.x),
            f32::from_bits(p.y),
            f32::from_bits(p.z),
        );
        let (ns, nx, ny, nz) = (
            f32::from_bits(next.s),
            f32::from_bits(next.x),
            f32::from_bits(next.y),
            f32::from_bits(next.z),
        );
        let (mut s, mut x, mut y, mut z) = (
            ps * (1.0 - t) + ns * t,
            px * (1.0 - t) + nx * t,
            py * (1.0 - t) + ny * t,
            pz * (1.0 - t) + nz * t,
        );
        let norm = (s * s + x * x + y * y + z * z).sqrt();
        if norm > 0.0 {
            s /= norm;
            x /= norm;
            y /= norm;
            z /= norm;
        }
        Quaternion { s: s.to_bits(), x: x.to_bits(), y: y.to_bits(), z: z.to_bits() }
    }

    fn lerp_weights(
        &self,
        previous: &Vec<u32>,
        next: &Vec<u32>,
        current_keyframe_time: u32,
        new_frame_time: u32,
    ) -> Vec<u32> {
        let t = fraction(current_keyframe_time, new_frame_time);
        previous
            .iter()
            .zip(next.iter())
            .map(|(a, b)| lerp1(*a, *b, t))
            .collect()
    }
}

fn b(x: f32) -> u32 {
    x.to_bits()
}

fn vec3(x: f32, y: f32, z: f32) -> Vector3 {
    Vector3 { x: b(x), y: b(y), z: b(z) }
}

fn quat(w: f32, x: f32, y: f32, z: f32) -> Quaternion {
    Quaternion { s: b(w), x: b(x), y: b(y), z: b(z) }
}

fn default_value() -> GLTFAnimationValue {
    GLTFAnimationValue::from_node_defaults(DecomposedTransform::default(), Vec::new())
}

fn translation_cursor(
    times: &[f32],
    values: &[(f32, f32, f32)],
    mode: InterpolationTypes,
) -> AnimationDataIterator {
    let times: Vec<u32> = times.iter().map(|t| t.to_bits()).collect();
    let values: Vec<Vector3> = values.iter().map(|(x, y, z)| vec3(*x, *y, *z)).collect();
    AnimationDataIterator::new(
        GLTFAnimationRawValue::Translation(times, values),
        mode,
        default_value(),
    )
}

fn rotation_cursor(
    times: &[f32],
    values: &[(f32, f32, f32, f32)],
    mode: InterpolationTypes,
) -> AnimationDataIterator {
    let times: Vec<u32> = times.iter().map(|t| t.to_bits()).collect();
    let values: Vec<Quaternion> = values.iter().map(|(w, x, y, z)| quat(*w, *x, *y, *z)).collect();
    AnimationDataIterator::new(
        GLTFAnimationRawValue::Rotation(times, values),
        mode,
        default_value(),
    )
}

fn merge(channels: Vec<AnimationDataIterator>) -> Result<GLTFAnimation, AnimationError> {
    GLTFAnimation::merge_channels("clip".to_string(), 0, channels, &F32Interpolator)
}

#[test]
fn zero_channels_give_empty_track_and_zero_duration() {
    let track = merge(Vec::new()).unwrap();
    assert_eq!(track.frames.len(), 0);
    assert_eq!(f32::from_bits(track.duration), 0.0);
}

#[test]
fn single_channel_times_are_kept() {
    let track = merge(vec![translation_cursor(
        &[0.0, 0.25, 0.75],
        &[(1.0, 0.0, 0.0), (2.0, 0.0, 0.0), (3.0, 0.0, 0.0)],
        InterpolationTypes::Linear,
    )])
    .unwrap();
    let times: Vec<f32> = track.frames.iter().map(|f| f32::from_bits(f.time)).collect();
    assert_eq!(times, vec![0.0, 0.25, 0.75]);
    assert_eq!(f32::from_bits(track.duration), 0.75);
}

#[test]
fn common_grid_times_are_the_sorted_union() {
    let grid = [0.0f32, 0.5, 1.0];
    let track = merge(vec![
        translation_cursor(
            &grid,
            &[(0.0, 0.0, 0.0), (1.0, 1.0, 1.0), (2.0, 2.0, 2.0)],
            InterpolationTypes::Linear,
        ),
        rotation_cursor(
            &grid,
            &[(1.0, 0.0, 0.0, 0.0), (1.0, 0.0, 0.0, 0.0), (1.0, 0.0, 0.0, 0.0)],
            InterpolationTypes::Linear,
        ),
    ])
    .unwrap();
    let times: Vec<f32> = track.frames.iter().map(|f| f32::from_bits(f.time)).collect();
    assert_eq!(times, vec![0.0, 0.5, 1.0]);
    let mut sorted = times.clone();
    sorted.sort_by(|a, b| a.partial_cmp(b).unwrap());
    sorted.dedup();
    assert_eq!(times, sorted);
}

#[test]
fn two_channels_merge_into_three_full_frames() {
    // Translation at [0, 1], rotation at [0, 0.5, 1]: exactly three
    // merged frames, each carrying both properties; the translation at
    // time 0.5 is blended from the translation channel's two keyframes
    // with the merger's fraction (its keyframe time over the frame time).
    let track = merge(vec![
        translation_cursor(
            &[0.0, 1.0],
            &[(0.0, 0.0, 0.0), (1.0, 2.0, 3.0)],
            InterpolationTypes::Linear,
        ),
        rotation_cursor(
            &[0.0, 0.5, 1.0],
            &[
                (1.0, 0.0, 0.0, 0.0),
                (0.8660254, 0.0, 0.5, 0.0),
                (0.5, 0.0, 0.8660254, 0.0),
            ],
            InterpolationTypes::Linear,
        ),
    ])
    .unwrap();

    assert_eq!(track.frames.len(), 3);
    let times: Vec<f32> = track.frames.iter().map(|f| f32::from_bits(f.time)).collect();
    assert_eq!(times, vec![0.0, 0.5, 1.0]);
    assert_eq!(f32::from_bits(track.duration), 1.0);

    // Frame 0: both keyframes hit exactly.
    assert_eq!(track.frames[0].value.transformation.translation, vec3(0.0, 0.0, 0.0));
    assert_eq!(
        track.frames[0].value.transformation.rotation,
        RotationTransform::Quaternion(quat(1.0, 0.0, 0.0, 0.0))
    );

    // Frame 1 at 0.5: rotation hits its keyframe; translation blends with
    // fraction 1.0 / 0.5 = 2, giving prev + 2 * (next - prev).
    assert_eq!(
        track.frames[1].value.transformation.rotation,
        RotationTransform::Quaternion(quat(0.8660254, 0.0, 0.5, 0.0))
    );
    let expect = Vector3 {
        x: lerp1(b(0.0), b(1.0), 2.0),
        y: lerp1(b(0.0), b(2.0), 2.0),
        z: lerp1(b(0.0), b(3.0), 2.0),
    };
    assert_eq!(track.frames[1].value.transformation.translation, expect);

    // Frame 2 at 1.0: rotation hits its last keyframe; the translation
    // channel is exhausted, so its value is carried forward unchanged.
    assert_eq!(
        track.frames[2].value.transformation.rotation,
        RotationTransform::Quaternion(quat(0.5, 0.0, 0.8660254, 0.0))
    );
    assert_eq!(track.frames[2].value.transformation.translation, expect);
}

#[test]
fn step_holds_the_previous_value_bit_for_bit() {
    let track = merge(vec![
        translation_cursor(
            &[0.0, 1.0],
            &[(0.125, 0.25, 0.5), (9.0, 9.0, 9.0)],
            InterpolationTypes::Step,
        ),
        rotation_cursor(
            &[0.0, 0.5, 1.0],
            &[
                (1.0, 0.0, 0.0, 0.0),
                (1.0, 0.0, 0.0, 0.0),
                (1.0, 0.0, 0.0, 0.0),
            ],
            InterpolationTypes::Step,
        ),
    ])
    .unwrap();
    // At 0.5 (not a translation keyframe) the translation holds the value
    // of the most recently passed keyframe, exactly.
    assert_eq!(
        track.frames[1].value.transformation.translation,
        vec3(0.125, 0.25, 0.5)
    );
    // The step channel consumed its later keyframe while holding, so the
    // last frame still carries the same value.
    assert_eq!(
        track.frames[2].value.transformation.translation,
        vec3(0.125, 0.25, 0.5)
    );
}

#[test]
fn unspecified_mode_takes_the_next_value() {
    let track = merge(vec![
        translation_cursor(
            &[0.0, 1.0],
            &[(1.0, 1.0, 1.0), (5.0, 6.0, 7.0)],
            InterpolationTypes::Unspecified,
        ),
        rotation_cursor(
            &[0.0, 0.5, 1.0],
            &[
                (1.0, 0.0, 0.0, 0.0),
                (1.0, 0.0, 0.0, 0.0),
                (1.0, 0.0, 0.0, 0.0),
            ],
            InterpolationTypes::Step,
        ),
    ])
    .unwrap();
    // At 0.5 the undeclared mode takes the channel's next value outright.
    assert_eq!(
        track.frames[1].value.transformation.translation,
        vec3(5.0, 6.0, 7.0)
    );
}

#[test]
fn cubic_interpolation_is_an_explicit_error() {
    let r = merge(vec![translation_cursor(
        &[0.0, 1.0],
        &[(0.0, 0.0, 0.0), (1.0, 1.0, 1.0)],
        InterpolationTypes::Cubic,
    )]);
    assert_eq!(r.unwrap_err(), AnimationError::UnsupportedInterpolation);
}

#[test]
fn cubic_anywhere_fails_the_whole_load() {
    let channels = vec![
        (
            4usize,
            translation_cursor(
                &[0.0, 1.0],
                &[(0.0, 0.0, 0.0), (1.0, 1.0, 1.0)],
                InterpolationTypes::Linear,
            ),
        ),
        (
            9usize,
            translation_cursor(
                &[0.0, 1.0],
                &[(0.0, 0.0, 0.0), (1.0, 1.0, 1.0)],
                InterpolationTypes::Cubic,
            ),
        ),
    ];
    let r = GLTFAnimation::load("clip".to_string(), channels, &F32Interpolator);
    assert_eq!(r.unwrap_err(), AnimationError::UnsupportedInterpolation);
}

#[test]
fn malformed_channel_finishes_early_without_aborting() {
    // Three keyframe times but a single value: the channel contributes
    // its value at time 0, offers time 0.25 to the selection, and then
    // finishes; nothing panics and nothing beyond that is emitted.
    let track = merge(vec![translation_cursor(
        &[0.0, 0.25, 0.5],
        &[(3.0, 3.0, 3.0)],
        InterpolationTypes::Linear,
    )])
    .unwrap();
    let times: Vec<f32> = track.frames.iter().map(|f| f32::from_bits(f.time)).collect();
    assert_eq!(times, vec![0.0, 0.25]);
    assert_eq!(track.frames[1].value.transformation.translation, vec3(3.0, 3.0, 3.0));
    assert_eq!(f32::from_bits(track.duration), 0.25);
}

#[test]
fn channel_with_no_values_contributes_nothing() {
    let empty = AnimationDataIterator::new(
        GLTFAnimationRawValue::Translation(vec![b(0.0), b(7.0)], Vec::new()),
        InterpolationTypes::Linear,
        default_value(),
    );
    let good = rotation_cursor(
        &[0.0, 0.5],
        &[(1.0, 0.0, 0.0, 0.0), (0.8660254, 0.0, 0.5, 0.0)],
        InterpolationTypes::Linear,
    );
    let track = merge(vec![empty, good]).unwrap();
    let times: Vec<f32> = track.frames.iter().map(|f| f32::from_bits(f.time)).collect();
    assert_eq!(times, vec![0.0, 0.5]);
}

#[test]
fn recorded_interpolation_modes_follow_the_channels() {
    let track = merge(vec![
        translation_cursor(
            &[0.0, 1.0],
            &[(0.0, 0.0, 0.0), (1.0, 1.0, 1.0)],
            InterpolationTypes::Linear,
        ),
        rotation_cursor(
            &[0.0, 1.0],
            &[(1.0, 0.0, 0.0, 0.0), (1.0, 0.0, 0.0, 0.0)],
            InterpolationTypes::Step,
        ),
    ])
    .unwrap();
    assert!(matches!(track.interpolation.translation, InterpolationTypes::Linear));
    assert!(matches!(track.interpolation.rotation, InterpolationTypes::Step));
    assert!(matches!(track.interpolation.scale, InterpolationTypes::Unspecified));
    assert!(matches!(track.interpolation.weights, InterpolationTypes::Unspecified));
}

#[test]
fn load_groups_channels_by_node() {
    let channels = vec![
        (
            7usize,
            translation_cursor(
                &[0.0, 1.0],
                &[(0.0, 0.0, 0.0), (1.0, 1.0, 1.0)],
                InterpolationTypes::Linear,
            ),
        ),
        (
            3usize,
            translation_cursor(&[0.0], &[(5.0, 5.0, 5.0)], InterpolationTypes::Step),
        ),
        (
            7usize,
            rotation_cursor(
                &[0.0, 1.0],
                &[(1.0, 0.0, 0.0, 0.0), (1.0, 0.0, 0.0, 0.0)],
                InterpolationTypes::Step,
            ),
        ),
    ];
    let mut tracks = GLTFAnimation::load("walk".to_string(), channels, &F32Interpolator).unwrap();
    tracks.sort_by_key(|(node, _)| *node);
    assert_eq!(tracks.len(), 2);
    assert_eq!(tracks[0].0, 3);
    assert_eq!(tracks[1].0, 7);
    assert_eq!(tracks[0].1.frames.len(), 1);
    assert_eq!(tracks[1].1.frames.len(), 2);
    assert_eq!(tracks[0].1.name, "walk");
    assert_eq!(tracks[0].1.target, 3);
    assert_eq!(tracks[1].1.target, 7);
}

#[test]
fn morph_weights_reshape_pads_to_width_four() {
    let raw = GLTFAnimationRawValue::new_morph_weights(
        vec![b(0.0), b(1.0)],
        vec![b(0.1), b(0.2), b(0.3), b(0.4), b(0.5), b(0.6)],
    );
    match raw {
        GLTFAnimationRawValue::MorphWeights(times, rows) => {
            assert_eq!(times.len(), 2);
            assert_eq!(rows.len(), 2);
            assert_eq!(rows[0], vec![b(0.1), b(0.2), b(0.3), 0]);
            assert_eq!(rows[1], vec![b(0.4), b(0.5), b(0.6), 0]);
        }
        _ => panic!("expected morph weights"),
    }
}

#[test]
fn morph_weights_reshape_truncates_wide_rows() {
    let raw = GLTFAnimationRawValue::new_morph_weights(
        vec![b(0.0)],
        vec![b(1.0), b(2.0), b(3.0), b(4.0), b(5.0), b(6.0)],
    );
    match raw {
        GLTFAnimationRawValue::MorphWeights(_, rows) => {
            assert_eq!(rows.len(), 1);
            assert_eq!(rows[0], vec![b(1.0), b(2.0), b(3.0), b(4.0)]);
        }
        _ => panic!("expected morph weights"),
    }
}

#[test]
fn every_cursor_advances_each_frame() {
    // The lockstep merge advances every unfinished cursor once per frame,
    // so a channel whose later keyframes lie beyond the others' grid has
    // them consumed early: the output times are a subset of the union of
    // keyframe times, not always the whole union.
    let track = merge(vec![
        translation_cursor(
            &[0.0, 10.0],
            &[(0.0, 0.0, 0.0), (1.0, 1.0, 1.0)],
            InterpolationTypes::Step,
        ),
        rotation_cursor(
            &[0.0, 1.0, 2.0, 3.0],
            &[
                (1.0, 0.0, 0.0, 0.0),
                (1.0, 0.0, 0.0, 0.0),
                (1.0, 0.0, 0.0, 0.0),
                (1.0, 0.0, 0.0, 0.0),
            ],
            InterpolationTypes::Step,
        ),
    ])
    .unwrap();
    let times: Vec<f32> = track.frames.iter().map(|f| f32::from_bits(f.time)).collect();
    assert_eq!(times, vec![0.0, 1.0, 2.0, 3.0]);
}

#[test]
fn empty_track_records_unspecified_modes() {
    let track = merge(Vec::new()).unwrap();
    assert_eq!(track.interpolation, gltf_for_renpy::animation::InterpolationTargets::default());
}

#[test]
fn time_order_check_matches_the_encoding_order() {
    assert!(times_strictly_increasing(&vec![]));
    assert!(times_strictly_increasing(&vec![b(0.5)]));
    assert!(times_strictly_increasing(&vec![b(0.0), b(0.25), b(1.5)]));
    assert!(!times_strictly_increasing(&vec![b(0.0), b(1.0), b(1.0)]));
    assert!(!times_strictly_increasing(&vec![b(2.0), b(1.0)]));
}

#[test]
fn rest_pose_weights_are_padded_to_width_four() {
    let v = GLTFAnimationValue::from_node_defaults(
        DecomposedTransform::default(),
        vec![b(0.3)],
    );
    assert_eq!(v.weights, vec![b(0.3), 0, 0, 0]);

    let wide = GLTFAnimationValue::from_node_defaults(
        DecomposedTransform::default(),
        vec![b(0.1), b(0.2), b(0.3), b(0.4), b(0.5), b(0.6)],
    );
    assert_eq!(wide.weights, vec![b(0.1), b(0.2), b(0.3), b(0.4)]);
}

struct ShortWeightsInterpolator;

impl Interpolator for ShortWeightsInterpolator {
    fn lerp_vector3(&self, previous: Vector3, _: Vector3, _: u32, _: u32) -> Vector3 {
        previous
    }

    fn slerp(&self, _: RotationTransform, next: Quaternion, _: u32, _: u32) -> Quaternion {
        next
    }

    fn lerp_weights(&self, _: &Vec<u32>, _: &Vec<u32>, _: u32, _: u32) -> Vec<u32> {
        // Deliberately the wrong width: the cursor must restore it.
        vec![b(0.5), b(0.5)]
    }
}

#[test]
fn blended_weights_are_restored_to_width_four() {
    let times = vec![b(0.0), b(1.0)];
    let rows = vec![
        vec![b(0.1), b(0.2), b(0.3), b(0.4)],
        vec![b(0.5), b(0.6), b(0.7), b(0.8)],
    ];
    let mut cursor = AnimationDataIterator::new(
        GLTFAnimationRawValue::MorphWeights(times, rows),
        InterpolationTypes::Linear,
        default_value(),
    );
    let mut value = default_value();
    // Move past the first keyframe, then blend at a non-keyframe time.
    cursor.next(&mut value, b(0.0), &ShortWeightsInterpolator).unwrap();
    cursor.next(&mut value, b(0.5), &ShortWeightsInterpolator).unwrap();
    assert_eq!(value.weights, vec![b(0.5), b(0.5), 0, 0]);
}

#[test]
fn well_formedness_checks_value_per_time() {
    let good = GLTFAnimationRawValue::Translation(vec![b(0.0)], vec![vec3(1.0, 1.0, 1.0)]);
    let bad = GLTFAnimationRawValue::Translation(vec![b(0.0), b(1.0)], vec![vec3(1.0, 1.0, 1.0)]);
    assert!(good.is_well_formed());
    assert!(!bad.is_well_formed());
}
