use kinewright_media::effect::{collect_parameters, Effect};
use kinewright_media::grade_buffer::{
    grade_header_word, grade_word, node_regions, GRADE_BUFFER_WORST_CASE_BYTES,
    GRADE_HEADER_BYTES, MATTE_BLOCK_WORDS,
};
use kinewright_media::matte::{
    MatteSpec, QualifierSpec, WindowSpec, COLOR_NODE_LIMIT_PER_LAYER, COMBINE_INTERSECTION,
    COMBINE_UNION, MATTE_PARAMETER_COUNT, SHAPE_ELLIPSE,
};
use kinewright_media::stacks::{
    curves_effect, gain_wheels, matte_free_stack, overflow_wheels, parity_cases, performance_stack,
    CurveNames,
};
use kinewright_media::sweep::{control_sweep_spec, matte_level_base, swept_window_control};

fn value(effect: &Effect, name: &str) -> Option<i64> {
    effect.parameters.get(name)
}

fn curve_names() -> CurveNames {
    CurveNames {
        point_count: "master_point_count".to_owned(),
        x: (0..4).map(|i| format!("master_x{i}")).collect(),
        y: (0..4).map(|i| format!("master_y{i}")).collect(),
    }
}

#[test]
fn parameters_stand_in_the_order_of_their_names() {
    let map = collect_parameters(vec![
        ("b".to_owned(), 1),
        ("a".to_owned(), 2),
        ("b".to_owned(), 3),
    ]);
    assert_eq!(map.get("b"), Some(3));
    assert_eq!(map.get("c"), None);
    assert_eq!(map.entries(), &vec![("a".to_owned(), 2), ("b".to_owned(), 3)]);
}

#[test]
fn a_window_changes_one_control_at_a_time() {
    let window = WindowSpec::centred();
    assert_eq!((window.hw, window.hh, window.cx, window.cy), (2_500, 2_500, 5_000, 5_000));
    assert_eq!(window.with_centre(1, 2), WindowSpec { cx: 1, cy: 2, ..window });
    assert_eq!(window.with_feather(3).feather, 3);
    assert_eq!(window.with_rotation(4).rotation, 4);
    assert_eq!(window.with_shape(SHAPE_ELLIPSE).shape, 2);
    assert_eq!(window.inverted().invert, 1);
    assert_eq!((WindowSpec::pixel_square().hw, WindowSpec::pixel_square().hh), (1_125, 2_000));
    let parameters = window.parameters(2);
    assert_eq!(parameters.len(), 8);
    assert_eq!(parameters[3], ("matte_window2_half_width_basis_points".to_owned(), 2_500));
}

#[test]
fn a_full_matte_stores_every_parameter_once() {
    let matte = MatteSpec::window(WindowSpec::centred())
        .with_windows(vec![WindowSpec::centred(); 4], COMBINE_INTERSECTION)
        .with_qualifier(QualifierSpec::neutral());
    let parameters = matte.parameters();
    assert_eq!(parameters.len(), MATTE_PARAMETER_COUNT);
    let map = collect_parameters(parameters);
    assert_eq!(map.entries().len(), MATTE_PARAMETER_COUNT);
    assert_eq!(map.get("matte_enabled"), Some(1));
    assert_eq!(map.get("matte_window_count"), Some(4));
    assert_eq!(map.get("matte_combine_token"), Some(1));
    assert_eq!(map.get("matte_qualifier_enabled"), Some(1));
}

#[test]
fn softness_or_a_partial_mix_takes_the_hard_edge() {
    let hard = MatteSpec::window(WindowSpec::centred());
    assert!(hard.is_hard_edged());
    assert!(hard.copied().inverted().is_hard_edged());
    assert!(!hard.copied().with_mix(5_000).is_hard_edged());
    assert!(!MatteSpec::window(WindowSpec::centred().with_feather(1)).is_hard_edged());
    let soft = QualifierSpec { hue_softness: 1, ..QualifierSpec::neutral() };
    assert!(!MatteSpec::qualifier(soft).is_hard_edged());
    assert!(MatteSpec::qualifier(QualifierSpec::neutral()).is_hard_edged());
}

#[test]
fn wheels_carry_their_gain_and_their_matte() {
    let plain = gain_wheels(7, 1_500, None);
    assert_eq!((plain.id, plain.name.as_str()), (7, "color_wheels"));
    assert_eq!(plain.parameters.entries().len(), 1);
    assert_eq!(value(&plain, "gain_master_thousandths"), Some(1_500));
    let matte = MatteSpec::window(WindowSpec::centred());
    let masked = gain_wheels(7, 1_500, Some(&matte));
    assert_eq!(masked.parameters.entries().len(), 1 + 5 + 8);
    let overflow = overflow_wheels(1, None);
    assert_eq!(overflow.parameters.entries().len(), 8);
    assert_eq!(value(&overflow, "gamma_blue_thousandths"), Some(4_000));
}

#[test]
fn a_stack_has_a_node_for_every_slot() {
    let names = curve_names();
    let stack = performance_stack(&names);
    assert_eq!(stack.len(), COLOR_NODE_LIMIT_PER_LAYER);
    assert_eq!(stack[15].id, 16);
    assert_eq!(stack[3].name, "color_curves");
    assert_eq!(value(&stack[3], "matte_window_count"), Some(4));
    assert_eq!(value(&stack[3], "matte_hue_center_centidegrees"), Some(1_920));
    let bare = matte_free_stack(&names);
    assert_eq!(bare.len(), COLOR_NODE_LIMIT_PER_LAYER);
    assert_eq!(value(&bare[3], "matte_enabled"), None);
    assert_eq!(value(&bare[3], "master_y2"), Some(8_200));
    let curve = curves_effect(9, &names, &[(0, 1), (2, 3)], None);
    assert_eq!(value(&curve, "master_point_count"), Some(2));
    assert_eq!(value(&curve, "master_x1"), Some(2));
    assert_eq!(value(&curve, "master_y1"), Some(3));
}

#[test]
fn parity_cases_end_with_the_full_stack() {
    let cases = parity_cases(&curve_names());
    let labels: Vec<&str> = cases.iter().map(|case| case.label).collect();
    assert_eq!(
        labels,
        vec!["windowed", "qualifier", "windowed_qualifier_feathered", "full_stack"]
    );
    let full = &cases[3];
    let names: Vec<&str> = full.effects.iter().map(|effect| effect.name.as_str()).collect();
    assert_eq!(
        names,
        vec![
            "technical_lut",
            "primary_correction",
            "color_wheels",
            "color_curves",
            "creative_look"
        ]
    );
    assert_eq!(full.baseline.len(), 1);
    assert!(full.library);
    assert!(!cases[0].library);
    assert_eq!(cases[0].effects.len(), 1);
    assert_eq!(cases[0].baseline.len(), 0);
}

#[test]
fn a_sweep_isolates_the_control_that_it_names() {
    assert_eq!(
        swept_window_control("matte_window2_center_x_basis_points"),
        Some((2, "center_x_basis_points"))
    );
    assert_eq!(swept_window_control("matte_window_count"), None);
    assert_eq!(swept_window_control("matte_windowx_invert"), None);
    let swept = control_sweep_spec("matte_window2_center_x_basis_points", 1_234).expect("a matte");
    assert_eq!(swept.windows.len(), 3);
    assert_eq!(swept.windows[2].cx, 1_234);
    assert_eq!(swept.windows[0].hw, 10_000);
    assert_eq!(swept.combine, COMBINE_INTERSECTION);
    assert!(control_sweep_spec("matte_enabled", 0).is_none());
    let base = matte_level_base();
    let one = control_sweep_spec("matte_window_count", 1).expect("a matte");
    assert_eq!(one.windows, base.windows[..1].to_vec());
    let off = control_sweep_spec("matte_qualifier_enabled", 0).expect("a matte");
    assert_eq!(off.qualifier, None);
    assert_eq!(off.combine, COMBINE_UNION);
    let luma = control_sweep_spec("matte_luma_low_basis_points", 77).expect("a matte");
    assert_eq!(luma.qualifier.expect("a qualifier").luma_low, 77);
}

#[test]
fn buffer_words_are_little_endian() {
    let mut bytes = vec![0_u8; 24];
    bytes[4..8].copy_from_slice(&0x0403_0201_u32.to_le_bytes());
    bytes[20..24].copy_from_slice(&1.5_f32.to_bits().to_le_bytes());
    assert_eq!(grade_header_word(&bytes, 1), 0x0403_0201);
    assert_eq!(f32::from_bits(grade_word(&bytes, 1)), 1.5);
    let (payload, matte) = node_regions(15);
    assert!(payload < matte);
    assert_eq!(
        GRADE_HEADER_BYTES + (matte + MATTE_BLOCK_WORDS) * 4,
        GRADE_BUFFER_WORST_CASE_BYTES
    );
}
