//! The node stacks that the matte gates render.

use vstd::prelude::*;

use crate::effect::{
    are_effects, color_node_effect, extend_parameters, node, push_parameter, stored, Effect,
    EffectModel,
};
use crate::matte::{
    centred_window, neutral_qualifier, optional_matte_parameters, matte_parameters, MatteModel,
    MatteSpec, QualifierSpec, WindowSpec, COLOR_NODE_LIMIT_PER_LAYER, COMBINE_UNION,
    MATTE_WINDOW_LIMIT, MIX_FULL, SHAPE_ELLIPSE,
};

verus! {

/// The parameter names of one colour curve, as the descriptor table has them:
/// the point count, then the coordinates of each point.
#[derive(Debug)]
pub struct CurveNames {
    pub point_count: String,
    pub x: Vec<String>,
    pub y: Vec<String>,
}

/// The parameters of a curve with the first `count` of these points.
pub open spec fn point_parameters(names: CurveNames, points: Seq<(i64, i64)>, count: nat) -> Seq<
    (Seq<char>, i64),
>
    decreases count,
{
    if count == 0 {
        Seq::empty()
    } else {
        let last = (count - 1) as nat;
        point_parameters(names, points, last).push((names.x@[last as int]@, points[last as int].0)).push(
            (names.y@[last as int]@, points[last as int].1),
        )
    }
}

/// The parameters of a curve node: the point count, the points, the matte.
pub open spec fn curve_parameters(
    names: CurveNames,
    points: Seq<(i64, i64)>,
    matte: Option<MatteModel>,
) -> Seq<(Seq<char>, i64)> {
    seq![(names.point_count@, points.len() as i64)] + point_parameters(names, points, points.len())
        + optional_matte_parameters(matte)
}

/// The matte that an optional reference refers to.
pub open spec fn matte_behind(matte: Option<&MatteSpec>) -> Option<MatteModel> {
    match matte {
        Some(matte) => Some(matte@),
        None => None,
    }
}

/// Whether an optional matte stays inside the window limit.
pub open spec fn within_limit(matte: Option<&MatteSpec>) -> bool {
    match matte {
        Some(matte) => matte@.windows.len() <= MATTE_WINDOW_LIMIT,
        None => true,
    }
}

/// Adds the parameters of an optional matte to a list.
fn extend_with_matte(parameters: &mut Vec<(String, i64)>, matte: Option<&MatteSpec>)
    requires
        within_limit(matte),
    ensures
        stored(final(parameters)@) == stored(old(parameters)@) + optional_matte_parameters(
            matte_behind(matte),
        ),
{
    match matte {
        Some(matte) => {
            extend_parameters(parameters, matte.parameters());
        },
        None => {
            assert(stored(parameters@) =~= stored(parameters@) + Seq::<(Seq<char>, i64)>::empty());
        },
    }
}

/// A colour wheels node with a master gain, which moves every channel of every
/// pixel that is not black.
pub fn gain_wheels(id: u64, gain_thousandths: i64, matte: Option<&MatteSpec>) -> (effect: Effect)
    requires
        within_limit(matte),
    ensures
        effect.well_formed(),
        effect@ == node(
            id,
            "color_wheels"@,
            seq![("gain_master_thousandths"@, gain_thousandths)] + optional_matte_parameters(
                matte_behind(matte),
            ),
        ),
{
    let mut parameters: Vec<(String, i64)> = Vec::new();
    push_parameter(&mut parameters, "gain_master_thousandths", gain_thousandths);
    assert(stored(parameters@) =~= seq![("gain_master_thousandths"@, gain_thousandths)]);
    extend_with_matte(&mut parameters, matte);
    color_node_effect(id, "color_wheels", parameters)
}

/// The gain and gamma of every channel at four times unity.
pub open spec fn overflow_parameters() -> Seq<(Seq<char>, i64)> {
    seq![
        ("gain_master_thousandths"@, 4_000),
        ("gamma_master_thousandths"@, 4_000),
        ("gain_red_thousandths"@, 4_000),
        ("gamma_red_thousandths"@, 4_000),
        ("gain_green_thousandths"@, 4_000),
        ("gamma_green_thousandths"@, 4_000),
        ("gain_blue_thousandths"@, 4_000),
        ("gamma_blue_thousandths"@, 4_000),
    ]
}

/// A colour wheels node that drives an over-range input past every finite
/// value.
pub fn overflow_wheels(id: u64, matte: Option<&MatteSpec>) -> (effect: Effect)
    requires
        within_limit(matte),
    ensures
        effect.well_formed(),
        effect@ == node(
            id,
            "color_wheels"@,
            overflow_parameters() + optional_matte_parameters(matte_behind(matte)),
        ),
{
    let mut parameters: Vec<(String, i64)> = Vec::new();
    push_parameter(&mut parameters, "gain_master_thousandths", 4_000);
    push_parameter(&mut parameters, "gamma_master_thousandths", 4_000);
    push_parameter(&mut parameters, "gain_red_thousandths", 4_000);
    push_parameter(&mut parameters, "gamma_red_thousandths", 4_000);
    push_parameter(&mut parameters, "gain_green_thousandths", 4_000);
    push_parameter(&mut parameters, "gamma_green_thousandths", 4_000);
    push_parameter(&mut parameters, "gain_blue_thousandths", 4_000);
    push_parameter(&mut parameters, "gamma_blue_thousandths", 4_000);
    assert(stored(parameters@) =~= overflow_parameters());
    extend_with_matte(&mut parameters, matte);
    color_node_effect(id, "color_wheels", parameters)
}

/// A colour curves node whose master curve carries these points.
pub fn curves_effect(
    id: u64,
    names: &CurveNames,
    points: &[(i64, i64)],
    matte: Option<&MatteSpec>,
) -> (effect: Effect)
    requires
        points.len() <= names.x.len(),
        points.len() <= names.y.len(),
        within_limit(matte),
    ensures
        effect.well_formed(),
        effect@ == node(
            id,
            "color_curves"@,
            curve_parameters(*names, points@, matte_behind(matte)),
        ),
{
    let mut parameters: Vec<(String, i64)> = Vec::new();
    push_parameter(&mut parameters, names.point_count.as_str(), points.len() as i64);
    let ghost head = seq![(names.point_count@, points@.len() as i64)];
    assert(stored(parameters@) =~= head + point_parameters(*names, points@, 0));
    let mut index: usize = 0;
    while index < points.len()
        invariant
            index <= points.len(),
            points.len() <= names.x.len(),
            points.len() <= names.y.len(),
            stored(parameters@) == head + point_parameters(*names, points@, index as nat),
        decreases points.len() - index,
    {
        let ghost before = point_parameters(*names, points@, index as nat);
        push_parameter(&mut parameters, names.x[index].as_str(), points[index].0);
        push_parameter(&mut parameters, names.y[index].as_str(), points[index].1);
        index += 1;
        assert(stored(parameters@) =~= head + point_parameters(*names, points@, index as nat));
    }
    extend_with_matte(&mut parameters, matte);
    color_node_effect(id, "color_curves", parameters)
}

/// The four points of a mild contrast curve.
pub open spec fn contrast_points() -> Seq<(i64, i64)> {
    seq![(0i64, 0i64), (2_500i64, 1_800i64), (7_500i64, 8_200i64), (10_000i64, 10_000i64)]
}

fn contrast_curve() -> (points: [(i64, i64); 4])
    ensures
        points@ == contrast_points(),
{
    let points: [(i64, i64); 4] = [(0, 0), (2_500, 1_800), (7_500, 8_200), (10_000, 10_000)];
    assert(points@ =~= contrast_points());
    points
}

/// Whether a curve of four points has names for all of them.
pub open spec fn names_four_points(names: CurveNames) -> bool {
    names.x@.len() >= 4 && names.y@.len() >= 4
}

/// A layer's limit of contrast curve nodes, all with the same matte.
pub open spec fn curve_stack(names: CurveNames, matte: Option<MatteModel>) -> Seq<EffectModel> {
    Seq::new(
        COLOR_NODE_LIMIT_PER_LAYER as nat,
        |i: int|
            node(
                (i + 1) as u64,
                "color_curves"@,
                curve_parameters(names, contrast_points(), matte),
            ),
    )
}

fn stacked_curves(names: &CurveNames, matte: Option<&MatteSpec>) -> (effects: Vec<Effect>)
    requires
        names_four_points(*names),
        within_limit(matte),
    ensures
        are_effects(effects@, curve_stack(*names, matte_behind(matte))),
{
    let points = contrast_curve();
    let mut effects: Vec<Effect> = Vec::new();
    let mut index: usize = 0;
    while index < COLOR_NODE_LIMIT_PER_LAYER
        invariant
            index <= COLOR_NODE_LIMIT_PER_LAYER,
            points@ == contrast_points(),
            names_four_points(*names),
            within_limit(matte),
            effects.len() == index,
            forall|i: int|
                0 <= i < index ==> (#[trigger] effects@[i]).well_formed() && effects@[i]@
                    == curve_stack(*names, matte_behind(matte))[i],
        decreases COLOR_NODE_LIMIT_PER_LAYER - index,
    {
        let effect = curves_effect(index as u64 + 1, names, points.as_slice(), matte);
        effects.push(effect);
        index += 1;
    }
    effects
}

/// The matte of the worst-case stack: four windows of four kinds and a
/// qualifier with every leg engaged.
pub open spec fn performance_matte() -> MatteModel {
    MatteModel {
        windows: seq![
            WindowSpec { cx: 3_000, cy: 3_000, feather: 1_500, ..centred_window() },
            WindowSpec { cx: 7_000, cy: 3_000, rotation: 3_000, ..centred_window() },
            WindowSpec { cx: 3_000, cy: 7_000, shape: SHAPE_ELLIPSE, ..centred_window() },
            WindowSpec { cx: 7_000, cy: 7_000, invert: 1, ..centred_window() },
        ],
        combine: COMBINE_UNION,
        invert: 0,
        mix: MIX_FULL,
        qualifier: Some(
            QualifierSpec {
                hue_center: 1_920,
                hue_width: 6_000,
                hue_softness: 2_000,
                sat_low: 500,
                sat_high: 9_500,
                sat_softness: 1_000,
                luma_low: 500,
                luma_high: 9_500,
                luma_softness: 1_000,
            },
        ),
    }
}

/// The worst-case stack: as many nodes as a layer can carry, each with four
/// windows and a qualifier.
pub fn performance_stack(names: &CurveNames) -> (effects: Vec<Effect>)
    requires
        names_four_points(*names),
    ensures
        are_effects(effects@, curve_stack(*names, Some(performance_matte()))),
{
    let mut windows: Vec<WindowSpec> = Vec::new();
    windows.push(WindowSpec::centred().with_centre(3_000, 3_000).with_feather(1_500));
    windows.push(WindowSpec::centred().with_centre(7_000, 3_000).with_rotation(3_000));
    windows.push(WindowSpec::centred().with_centre(3_000, 7_000).with_shape(SHAPE_ELLIPSE));
    windows.push(WindowSpec::centred().with_centre(7_000, 7_000).inverted());
    let matte = MatteSpec::window(WindowSpec::centred()).with_windows(
        windows,
        COMBINE_UNION,
    ).with_qualifier(
        QualifierSpec {
            hue_center: 1_920,
            hue_width: 6_000,
            hue_softness: 2_000,
            sat_low: 500,
            sat_high: 9_500,
            sat_softness: 1_000,
            luma_low: 500,
            luma_high: 9_500,
            luma_softness: 1_000,
        },
    );
    assert(matte@ =~= performance_matte());
    stacked_curves(names, Some(&matte))
}

/// The worst-case stack without its mattes, which shows the mattes' share of a
/// frame's cost.
pub fn matte_free_stack(names: &CurveNames) -> (effects: Vec<Effect>)
    requires
        names_four_points(*names),
    ensures
        are_effects(effects@, curve_stack(*names, None)),
{
    stacked_curves(names, None)
}

/// One case of the comparison between the two renderers.
#[derive(Debug)]
pub struct ParityCase {
    pub label: &'static str,
    pub effects: Vec<Effect>,
    /// The nodes that stay active outside the matte.
    pub baseline: Vec<Effect>,
    pub matte: MatteSpec,
    pub library: bool,
}

/// What a parity case is.
pub struct ParityModel {
    pub label: Seq<char>,
    pub effects: Seq<EffectModel>,
    pub baseline: Seq<EffectModel>,
    pub matte: MatteModel,
    pub library: bool,
}

impl ParityCase {
    /// Whether this is the case that the model describes.
    pub open spec fn is(&self, model: ParityModel) -> bool {
        &&& self.label@ == model.label
        &&& are_effects(self.effects@, model.effects)
        &&& are_effects(self.baseline@, model.baseline)
        &&& self.matte@ == model.matte
        &&& self.library == model.library
    }
}

/// A matte with one window.
pub open spec fn one_window(window: WindowSpec) -> MatteModel {
    MatteModel {
        windows: seq![window],
        combine: COMBINE_UNION,
        invert: 0,
        mix: MIX_FULL,
        qualifier: None,
    }
}

/// A wide luma band with soft shoulders.
pub open spec fn luma_band() -> MatteModel {
    MatteModel {
        windows: Seq::empty(),
        combine: COMBINE_UNION,
        invert: 0,
        mix: MIX_FULL,
        qualifier: Some(
            QualifierSpec {
                luma_low: 2_000,
                luma_high: 7_000,
                luma_softness: 1_500,
                ..neutral_qualifier()
            },
        ),
    }
}

/// A feathered window and a saturation band at part strength.
pub open spec fn feathered_band() -> MatteModel {
    MatteModel {
        mix: 6_000,
        qualifier: Some(
            QualifierSpec {
                sat_low: 1_000,
                sat_high: 9_000,
                sat_softness: 2_000,
                ..neutral_qualifier()
            },
        ),
        ..one_window(WindowSpec { feather: 2_500, ..centred_window() })
    }
}

/// A gain of one and a half under a matte.
pub open spec fn gained(matte: MatteModel) -> Seq<EffectModel> {
    seq![
        node(
            1,
            "color_wheels"@,
            seq![("gain_master_thousandths"@, 1_500i64)] + matte_parameters(matte),
        ),
    ]
}

/// The technical input transform, which carries no matte.
pub open spec fn technical_node() -> EffectModel {
    node(1, "technical_lut"@, seq![("lut_asset_id"@, 1i64), ("input_encoding_token"@, 1i64)])
}

/// One node of each kind, all but the first under the matte.
pub open spec fn full_stack(names: CurveNames, matte: MatteModel) -> Seq<EffectModel> {
    seq![
        technical_node(),
        node(
            2,
            "primary_correction"@,
            seq![
                ("exposure_milli_stops"@, 750i64),
                ("contrast_percent"@, 20i64),
                ("saturation_percent"@, 15i64),
            ] + matte_parameters(matte),
        ),
        node(
            3,
            "color_wheels"@,
            seq![("gain_master_thousandths"@, 1_200i64)] + matte_parameters(matte),
        ),
        node(4, "color_curves"@, curve_parameters(names, contrast_points(), Some(matte))),
        node(
            5,
            "creative_look"@,
            seq![
                ("lut_asset_id"@, 2i64),
                ("mix_basis_points"@, 8_000i64),
                ("input_encoding_token"@, 1i64),
            ] + matte_parameters(matte),
        ),
    ]
}

/// The four parity cases: windowed, qualified, both with a feather, and one
/// node of each kind.
pub open spec fn parity_models(names: CurveNames) -> Seq<ParityModel> {
    seq![
        ParityModel {
            label: "windowed"@,
            effects: gained(one_window(centred_window())),
            baseline: Seq::empty(),
            matte: one_window(centred_window()),
            library: false,
        },
        ParityModel {
            label: "qualifier"@,
            effects: gained(luma_band()),
            baseline: Seq::empty(),
            matte: luma_band(),
            library: false,
        },
        ParityModel {
            label: "windowed_qualifier_feathered"@,
            effects: gained(feathered_band()),
            baseline: Seq::empty(),
            matte: feathered_band(),
            library: false,
        },
        ParityModel {
            label: "full_stack"@,
            effects: full_stack(names, one_window(centred_window())),
            baseline: seq![technical_node()],
            matte: one_window(centred_window()),
            library: true,
        },
    ]
}

fn technical_effect() -> (effect: Effect)
    ensures
        effect.well_formed(),
        effect@ == technical_node(),
{
    let mut parameters: Vec<(String, i64)> = Vec::new();
    push_parameter(&mut parameters, "lut_asset_id", 1);
    push_parameter(&mut parameters, "input_encoding_token", 1);
    assert(stored(parameters@) =~= seq![("lut_asset_id"@, 1i64), ("input_encoding_token"@, 1i64)]);
    color_node_effect(1, "technical_lut", parameters)
}

fn gained_case(label: &'static str, matte: MatteSpec) -> (case: ParityCase)
    requires
        matte@.windows.len() <= MATTE_WINDOW_LIMIT,
    ensures
        case.is(
            ParityModel {
                label: label@,
                effects: gained(matte@),
                baseline: Seq::empty(),
                matte: matte@,
                library: false,
            },
        ),
{
    let mut effects: Vec<Effect> = Vec::new();
    effects.push(gain_wheels(1, 1_500, Some(&matte)));
    ParityCase { label, effects, baseline: Vec::new(), matte, library: false }
}

fn full_stack_case(names: &CurveNames) -> (case: ParityCase)
    requires
        names_four_points(*names),
    ensures
        case.is(parity_models(*names)[3]),
{
    let matte = MatteSpec::window(WindowSpec::centred());
    let mut effects: Vec<Effect> = Vec::new();
    effects.push(technical_effect());
    let mut primary: Vec<(String, i64)> = Vec::new();
    push_parameter(&mut primary, "exposure_milli_stops", 750);
    push_parameter(&mut primary, "contrast_percent", 20);
    push_parameter(&mut primary, "saturation_percent", 15);
    assert(stored(primary@) =~= seq![
        ("exposure_milli_stops"@, 750i64),
        ("contrast_percent"@, 20i64),
        ("saturation_percent"@, 15i64),
    ]);
    extend_parameters(&mut primary, matte.parameters());
    effects.push(color_node_effect(2, "primary_correction", primary));
    effects.push(gain_wheels(3, 1_200, Some(&matte)));
    let points = contrast_curve();
    effects.push(curves_effect(4, names, points.as_slice(), Some(&matte)));
    let mut look: Vec<(String, i64)> = Vec::new();
    push_parameter(&mut look, "lut_asset_id", 2);
    push_parameter(&mut look, "mix_basis_points", 8_000);
    push_parameter(&mut look, "input_encoding_token", 1);
    assert(stored(look@) =~= seq![
        ("lut_asset_id"@, 2i64),
        ("mix_basis_points"@, 8_000i64),
        ("input_encoding_token"@, 1i64),
    ]);
    extend_parameters(&mut look, matte.parameters());
    effects.push(color_node_effect(5, "creative_look", look));
    let mut baseline: Vec<Effect> = Vec::new();
    baseline.push(technical_effect());
    ParityCase { label: "full_stack", effects, baseline, matte, library: true }
}

/// The four parity cases.
pub fn parity_cases(names: &CurveNames) -> (cases: Vec<ParityCase>)
    requires
        names_four_points(*names),
    ensures
        cases.len() == 4,
        forall|i: int| 0 <= i < 4 ==> (#[trigger] cases@[i]).is(parity_models(*names)[i]),
{
    let window = MatteSpec::window(WindowSpec::centred());
    let qualifier = MatteSpec::qualifier(
        QualifierSpec {
            luma_low: 2_000,
            luma_high: 7_000,
            luma_softness: 1_500,
            ..QualifierSpec::neutral()
        },
    );
    let combined = MatteSpec::window(WindowSpec::centred().with_feather(2_500)).with_qualifier(
        QualifierSpec {
            sat_low: 1_000,
            sat_high: 9_000,
            sat_softness: 2_000,
            ..QualifierSpec::neutral()
        },
    ).with_mix(6_000);
    let mut cases: Vec<ParityCase> = Vec::new();
    cases.push(gained_case("windowed", window));
    cases.push(gained_case("qualifier", qualifier));
    cases.push(gained_case("windowed_qualifier_feathered", combined));
    cases.push(full_stack_case(names));
    cases
}

/// A curve stores how many points it has, then the two coordinates of each point
/// under the point's own names, and then what its matte stores.
pub proof fn lemma_curve_by_place(
    names: CurveNames,
    points: Seq<(i64, i64)>,
    matte: Option<MatteModel>,
    i: int,
)
    requires
        0 <= i < points.len() <= i64::MAX,
    ensures
        ({
            let list = curve_parameters(names, points, matte);
            &&& list.len() == 1 + 2 * points.len() + optional_matte_parameters(matte).len()
            &&& list[0].0 == names.point_count@
            &&& list[0].1 == points.len()
            &&& list[1 + 2 * i] == (names.x@[i]@, points[i].0)
            &&& list[2 + 2 * i] == (names.y@[i]@, points[i].1)
            &&& list.skip((1 + 2 * points.len()) as int) =~= optional_matte_parameters(matte)
        }),
{
    lemma_points_by_place(names, points, points.len(), i);
}

proof fn lemma_points_by_place(names: CurveNames, points: Seq<(i64, i64)>, count: nat, i: int)
    ensures
        point_parameters(names, points, count).len() == 2 * count,
        0 <= i < count ==> point_parameters(names, points, count)[2 * i] == (
            names.x@[i]@,
            points[i].0,
        ),
        0 <= i < count ==> point_parameters(names, points, count)[2 * i + 1] == (
            names.y@[i]@,
            points[i].1,
        ),
    decreases count,
{
    if count > 0 {
        lemma_points_by_place(names, points, (count - 1) as nat, i);
    }
}

/// The contrast curve runs from black to white, lowers the quarter and raises
/// the three quarters by as much, and rises throughout.
pub proof fn lemma_contrast_curve_in_numbers()
    ensures
        contrast_points().len() == 4,
        contrast_points()[0] == (0i64, 0i64),
        contrast_points()[3] == (10_000i64, 10_000i64),
        contrast_points()[1].0 == 2_500 && contrast_points()[1].1 == 1_800,
        contrast_points()[2].0 == 10_000 - contrast_points()[1].0,
        contrast_points()[2].1 == 10_000 - contrast_points()[1].1,
{
}

/// The overflow node sets the gain and the gamma of every channel to four.
pub proof fn lemma_overflow_in_words()
    ensures
        overflow_parameters().len() == 8,
        forall|i: int| 0 <= i < 8 ==> (#[trigger] overflow_parameters()[i]).1 == 4_000,
        overflow_parameters()[0].0 == "gain_master_thousandths"@,
        overflow_parameters()[1].0 == "gamma_master_thousandths"@,
        overflow_parameters()[2].0 == "gain_red_thousandths"@,
        overflow_parameters()[3].0 == "gamma_red_thousandths"@,
        overflow_parameters()[4].0 == "gain_green_thousandths"@,
        overflow_parameters()[5].0 == "gamma_green_thousandths"@,
        overflow_parameters()[6].0 == "gain_blue_thousandths"@,
        overflow_parameters()[7].0 == "gamma_blue_thousandths"@,
{
}

/// A stack of curves fills a layer: sixteen nodes, numbered from one, all with
/// the contrast curve and the same matte.
pub proof fn lemma_curve_stack_in_numbers(
    names: CurveNames,
    matte: Option<MatteModel>,
    i: int,
)
    requires
        0 <= i < 16,
    ensures
        curve_stack(names, matte).len() == 16,
        curve_stack(names, matte)[i].id == i + 1,
        curve_stack(names, matte)[i].name == "color_curves"@,
        curve_stack(names, matte)[i].parameters == crate::effect::collected(
            curve_parameters(names, contrast_points(), matte),
        ),
{
}

/// The matte of the worst-case stack has as many windows as a matte can hold, no
/// two alike in place or kind, and a qualifier with every leg soft.
pub proof fn lemma_performance_matte_in_numbers()
    ensures
        ({
            let matte = performance_matte();
            let w = matte.windows;
            &&& w.len() == 4
            &&& w[0].cx == 3_000 && w[0].cy == 3_000 && w[0].feather == 1_500
            &&& w[1].cx == 7_000 && w[1].cy == 3_000 && w[1].rotation == 3_000
            &&& w[2].cx == 3_000 && w[2].cy == 7_000 && w[2].shape == 2
            &&& w[3].cx == 7_000 && w[3].cy == 7_000 && w[3].invert == 1
            &&& w[0].shape == 1 && w[1].shape == 1 && w[3].shape == 1
            &&& w[0].invert == 0 && w[1].invert == 0 && w[2].invert == 0
            &&& w[1].feather == 0 && w[2].feather == 0 && w[3].feather == 0
            &&& w[0].rotation == 0 && w[2].rotation == 0 && w[3].rotation == 0
            &&& forall|i: int| 0 <= i < 4 ==> (#[trigger] w[i]).hw == 2_500 && w[i].hh == 2_500
            &&& matte.combine == 0 && matte.invert == 0 && matte.mix == 10_000
            &&& matte.qualifier matches Some(q)
            &&& q.hue_center == 1_920 && q.hue_width == 6_000 && q.hue_softness == 2_000
            &&& q.sat_low == 500 && q.sat_high == 9_500 && q.sat_softness == 1_000
            &&& q.luma_low == 500 && q.luma_high == 9_500 && q.luma_softness == 1_000
        }),
{
}

/// What every parity case is: its label, how many nodes it has, that the matte of
/// the case is the one that its nodes carry, and that only the case of one node
/// of each kind has a baseline and needs a library.
pub proof fn lemma_parity_cases_in_words(names: CurveNames, i: int)
    requires
        0 <= i < 4,
    ensures
        ({
            let cases = parity_models(names);
            &&& cases.len() == 4
            &&& cases[0].label == "windowed"@
            &&& cases[1].label == "qualifier"@
            &&& cases[2].label == "windowed_qualifier_feathered"@
            &&& cases[3].label == "full_stack"@
            &&& cases[i].library <==> i == 3
            &&& i < 3 ==> cases[i].effects.len() == 1 && cases[i].baseline.len() == 0
            &&& i < 3 ==> cases[i].effects[0] == node(
                1,
                "color_wheels"@,
                seq![("gain_master_thousandths"@, 1_500i64)] + matte_parameters(cases[i].matte),
            )
            &&& cases[3].effects.len() == 5 && cases[3].baseline.len() == 1
            &&& cases[3].baseline[0] == cases[3].effects[0]
            &&& cases[3].effects[0] == node(
                1,
                "technical_lut"@,
                seq![("lut_asset_id"@, 1i64), ("input_encoding_token"@, 1i64)],
            )
            &&& cases[3].effects[1] == node(
                2,
                "primary_correction"@,
                seq![
                    ("exposure_milli_stops"@, 750i64),
                    ("contrast_percent"@, 20i64),
                    ("saturation_percent"@, 15i64),
                ] + matte_parameters(cases[3].matte),
            )
            &&& cases[3].effects[2] == node(
                3,
                "color_wheels"@,
                seq![("gain_master_thousandths"@, 1_200i64)] + matte_parameters(cases[3].matte),
            )
            &&& cases[3].effects[3] == node(
                4,
                "color_curves"@,
                curve_parameters(names, contrast_points(), Some(cases[3].matte)),
            )
            &&& cases[3].effects[4] == node(
                5,
                "creative_look"@,
                seq![
                    ("lut_asset_id"@, 2i64),
                    ("mix_basis_points"@, 8_000i64),
                    ("input_encoding_token"@, 1i64),
                ] + matte_parameters(cases[3].matte),
            )
        }),
{
}

/// The mattes of the parity cases: the centred window, a soft luma band without
/// a window, and a feathered window with a soft saturation band at six tenths.
pub proof fn lemma_parity_mattes_in_numbers(names: CurveNames)
    ensures
        ({
            let windowed = parity_models(names)[0].matte;
            let banded = parity_models(names)[1].matte;
            let both = parity_models(names)[2].matte;
            &&& windowed.windows =~= seq![centred_window()] && windowed.qualifier is None
            &&& windowed.mix == 10_000 && windowed.invert == 0 && windowed.combine == 0
            &&& parity_models(names)[3].matte =~= windowed
            &&& banded.windows.len() == 0 && banded.mix == 10_000 && banded.invert == 0
            &&& banded.qualifier matches Some(q)
            &&& q.luma_low == 2_000 && q.luma_high == 7_000 && q.luma_softness == 1_500
            &&& q.sat_low == 0 && q.sat_high == 10_000 && q.sat_softness == 0
            &&& q.hue_center == 0 && q.hue_width == 18_000 && q.hue_softness == 0
            &&& both.windows.len() == 1 && both.windows[0].feather == 2_500
            &&& both.windows[0].hw == 2_500 && both.windows[0].hh == 2_500
            &&& both.windows[0].cx == 5_000 && both.windows[0].cy == 5_000
            &&& both.mix == 6_000 && both.invert == 0 && both.combine == 0
            &&& both.qualifier matches Some(r)
            &&& r.sat_low == 1_000 && r.sat_high == 9_000 && r.sat_softness == 2_000
            &&& r.luma_low == 0 && r.luma_high == 10_000 && r.luma_softness == 0
            &&& r.hue_center == 0 && r.hue_width == 18_000 && r.hue_softness == 0
        }),
{
}

} // verus!
