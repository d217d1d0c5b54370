//! The sweep over every matte control.

use vstd::prelude::*;

use crate::matte::{
    centred_window, lemma_qualifier_reads_back, lemma_window_reads_back, stores,
    window_parameter, window_parameters, MatteModel, MatteSpec, QualifierSpec, WindowSpec,
    COMBINE_INTERSECTION, COMBINE_UNION, MIX_FULL, SHAPE_ELLIPSE, SHAPE_RECT,
};
use crate::numbers::{decimal, lemma_decimal_parses, parse_usize, parsed};
use crate::stacks::one_window;
use crate::text::{
    chars_of, copied, find, first, lemma_first_from, occurs_at, split_once, starts_with,
    strings_equal,
};

verus! {

/// A window that covers the whole frame: it leaves an intersection as it is.
pub open spec fn full_frame_window() -> WindowSpec {
    WindowSpec {
        shape: SHAPE_RECT,
        cx: 5_000,
        cy: 5_000,
        hw: 10_000,
        hh: 10_000,
        rotation: 0,
        feather: 0,
        invert: 0,
    }
}

/// The window that the sweep changes: off centre, rotated and feathered, so
/// that each of its controls has something to change.
pub open spec fn swept_window() -> WindowSpec {
    WindowSpec {
        shape: SHAPE_RECT,
        cx: 5_500,
        cy: 4_500,
        hw: 2_500,
        hh: 3_000,
        rotation: 1_200,
        feather: 1_000,
        invert: 0,
    }
}

/// The qualifier that the sweep changes: every leg engaged, none saturated.
pub open spec fn swept_qualifier() -> QualifierSpec {
    QualifierSpec {
        hue_center: 12_000,
        hue_width: 6_000,
        hue_softness: 2_000,
        sat_low: 1_000,
        sat_high: 9_000,
        sat_softness: 500,
        luma_low: 500,
        luma_high: 9_500,
        luma_softness: 800,
    }
}

/// The matte whose own controls the sweep changes: four different windows and
/// a qualifier, so that it stays active without windows.
pub open spec fn level_base() -> MatteModel {
    MatteModel {
        windows: seq![
            centred_window(),
            WindowSpec { cx: 7_000, cy: 5_000, ..centred_window() },
            WindowSpec { cx: 5_000, cy: 3_000, feather: 1_200, ..centred_window() },
            WindowSpec { cx: 3_000, cy: 7_000, shape: SHAPE_ELLIPSE, ..centred_window() },
        ],
        combine: COMBINE_UNION,
        invert: 0,
        mix: MIX_FULL,
        qualifier: Some(swept_qualifier()),
    }
}

/// The index and the suffix of a window control's name.  The name of another
/// control is none, though it may begin like one.
pub open spec fn window_control(name: Seq<char>) -> Option<(usize, Seq<char>)> {
    if occurs_at(name, "matte_window"@, 0) {
        match split_once(name.subrange("matte_window"@.len() as int, name.len() as int), "_"@) {
            Some((index, suffix)) => match parsed(index) {
                Some(index) => Some((index, suffix)),
                None => None,
            },
            None => None,
        }
    } else {
        None
    }
}

/// The swept window with one control at a value; `None` for a suffix that
/// names no control.
pub open spec fn window_at(suffix: Seq<char>, value: i64) -> Option<WindowSpec> {
    if suffix == "shape_token"@ {
        Some(WindowSpec { shape: value, ..swept_window() })
    } else if suffix == "center_x_basis_points"@ {
        Some(WindowSpec { cx: value, ..swept_window() })
    } else if suffix == "center_y_basis_points"@ {
        Some(WindowSpec { cy: value, ..swept_window() })
    } else if suffix == "half_width_basis_points"@ {
        Some(WindowSpec { hw: value, ..swept_window() })
    } else if suffix == "half_height_basis_points"@ {
        Some(WindowSpec { hh: value, ..swept_window() })
    } else if suffix == "rotation_centidegrees"@ {
        Some(WindowSpec { rotation: value, ..swept_window() })
    } else if suffix == "feather_basis_points"@ {
        Some(WindowSpec { feather: value, ..swept_window() })
    } else if suffix == "invert"@ {
        Some(WindowSpec { invert: value, ..swept_window() })
    } else {
        None
    }
}

/// The qualifier of the sweep with one control at a value, where the control
/// is one of a qualifier's; switched off it is absent.
pub open spec fn qualifier_at(name: Seq<char>, value: i64) -> Option<Option<QualifierSpec>> {
    if name == "matte_qualifier_enabled"@ {
        Some(
            if value >= 1 {
                Some(swept_qualifier())
            } else {
                None
            },
        )
    } else if name == "matte_hue_center_centidegrees"@ {
        Some(Some(QualifierSpec { hue_center: value, ..swept_qualifier() }))
    } else if name == "matte_hue_width_centidegrees"@ {
        Some(Some(QualifierSpec { hue_width: value, ..swept_qualifier() }))
    } else if name == "matte_hue_softness_centidegrees"@ {
        Some(Some(QualifierSpec { hue_softness: value, ..swept_qualifier() }))
    } else if name == "matte_saturation_low_basis_points"@ {
        Some(Some(QualifierSpec { sat_low: value, ..swept_qualifier() }))
    } else if name == "matte_saturation_high_basis_points"@ {
        Some(Some(QualifierSpec { sat_high: value, ..swept_qualifier() }))
    } else if name == "matte_saturation_softness_basis_points"@ {
        Some(Some(QualifierSpec { sat_softness: value, ..swept_qualifier() }))
    } else if name == "matte_luma_low_basis_points"@ {
        Some(Some(QualifierSpec { luma_low: value, ..swept_qualifier() }))
    } else if name == "matte_luma_high_basis_points"@ {
        Some(Some(QualifierSpec { luma_high: value, ..swept_qualifier() }))
    } else if name == "matte_luma_softness_basis_points"@ {
        Some(Some(QualifierSpec { luma_softness: value, ..swept_qualifier() }))
    } else {
        None
    }
}

/// The level base with one of its own controls at a value.  The master switch
/// at zero makes the whole matte inactive, which is `Some(None)`; a name that
/// is no control of a matte is `None`.
pub open spec fn level_at(name: Seq<char>, value: i64) -> Option<Option<MatteModel>> {
    if name == "matte_enabled"@ {
        Some(
            if value == 0 {
                None
            } else {
                Some(level_base())
            },
        )
    } else if name == "matte_window_count"@ {
        Some(
            Some(
                MatteModel {
                    windows: if value < 4 {
                        level_base().windows.take(value as int)
                    } else {
                        level_base().windows
                    },
                    ..level_base()
                },
            ),
        )
    } else if name == "matte_combine_token"@ {
        Some(Some(MatteModel { combine: value, ..level_base() }))
    } else if name == "matte_invert"@ {
        Some(Some(MatteModel { invert: value, ..level_base() }))
    } else if name == "matte_mix_basis_points"@ {
        Some(Some(MatteModel { mix: value, ..level_base() }))
    } else {
        None
    }
}

/// The matte that isolates one window: every window before it covers the whole
/// frame, and the windows intersect.
pub open spec fn isolated_window(index: usize, window: WindowSpec) -> MatteModel {
    MatteModel {
        windows: Seq::new(index as nat, |i: int| full_frame_window()).push(window),
        combine: COMBINE_INTERSECTION,
        invert: 0,
        mix: MIX_FULL,
        qualifier: None,
    }
}

/// Whether a name and a value are ones that the sweep handles: a control of
/// some window, of the qualifier or of the matte, and no negative window
/// count.
pub open spec fn swept(name: Seq<char>, value: i64) -> bool {
    match window_control(name) {
        Some((_, suffix)) => window_at(suffix, value) is Some,
        None => qualifier_at(name, value) is Some || (level_at(name, value) is Some && !(name
            == "matte_window_count"@ && value < 0)),
    }
}

/// The matte of one swept control at a value; `None` where that value makes
/// the matte inactive.
pub open spec fn swept_matte(name: Seq<char>, value: i64) -> Option<MatteModel> {
    match window_control(name) {
        Some((index, suffix)) => Some(isolated_window(index, window_at(suffix, value)->0)),
        None => match qualifier_at(name, value) {
            Some(qualifier) => Some(
                MatteModel { qualifier, ..one_window(full_frame_window()) },
            ),
            None => level_at(name, value)->0,
        },
    }
}

/// What stands behind an optional matte.
pub open spec fn modelled(matte: Option<MatteSpec>) -> Option<MatteModel> {
    match matte {
        Some(matte) => Some(matte@),
        None => None,
    }
}

fn the_full_frame_window() -> (window: WindowSpec)
    ensures
        window == full_frame_window(),
{
    WindowSpec {
        shape: SHAPE_RECT,
        cx: 5_000,
        cy: 5_000,
        hw: 10_000,
        hh: 10_000,
        rotation: 0,
        feather: 0,
        invert: 0,
    }
}

fn the_swept_window() -> (window: WindowSpec)
    ensures
        window == swept_window(),
{
    WindowSpec {
        shape: SHAPE_RECT,
        cx: 5_500,
        cy: 4_500,
        hw: 2_500,
        hh: 3_000,
        rotation: 1_200,
        feather: 1_000,
        invert: 0,
    }
}

fn the_swept_qualifier() -> (qualifier: QualifierSpec)
    ensures
        qualifier == swept_qualifier(),
{
    QualifierSpec {
        hue_center: 12_000,
        hue_width: 6_000,
        hue_softness: 2_000,
        sat_low: 1_000,
        sat_high: 9_000,
        sat_softness: 500,
        luma_low: 500,
        luma_high: 9_500,
        luma_softness: 800,
    }
}

/// The matte whose own controls the sweep changes.
pub fn matte_level_base() -> (matte: MatteSpec)
    ensures
        matte@ == level_base(),
{
    let mut windows: Vec<WindowSpec> = Vec::new();
    windows.push(WindowSpec::centred());
    windows.push(WindowSpec::centred().with_centre(7_000, 5_000));
    windows.push(WindowSpec::centred().with_centre(5_000, 3_000).with_feather(1_200));
    windows.push(WindowSpec::centred().with_centre(3_000, 7_000).with_shape(SHAPE_ELLIPSE));
    let matte = MatteSpec::window(WindowSpec::centred()).with_windows(
        windows,
        COMBINE_UNION,
    ).with_qualifier(the_swept_qualifier());
    assert(matte@ =~= level_base());
    matte
}

/// Splits the name of a window control into its index and its suffix.
pub fn swept_window_control(name: &str) -> (control: Option<(usize, &str)>)
    ensures
        match control {
            Some((index, suffix)) => window_control(name@) == Some((index, suffix@)),
            None => window_control(name@) is None,
        },
{
    let text = chars_of(name);
    let length: usize = text.len();
    let prefix = chars_of("matte_window");
    let mark = chars_of("_");
    if !starts_with(text.as_slice(), "matte_window") {
        return None;
    }
    let rest = copied(text.as_slice(), prefix.len(), length);
    proof {
        lemma_first_from(rest@, mark@, 0);
    }
    match find(rest.as_slice(), mark.as_slice()) {
        None => None,
        Some(at) => {
            assert(occurs_at(rest@, mark@, at as int));
            let rest_length: usize = rest.len();
            let index = copied(rest.as_slice(), 0, at);
            match parse_usize(index.as_slice()) {
                None => None,
                Some(index) => {
                    let from: usize = prefix.len() + at + mark.len();
                    let suffix = name.substring_char(from, length);
                    assert(suffix@ =~= rest@.subrange(at + mark@.len(), rest@.len() as int));
                    Some((index, suffix))
                },
            }
        },
    }
}

/// The swept window with one control at a value.
fn window_with(suffix: &str, value: i64) -> (window: Option<WindowSpec>)
    ensures
        window == window_at(suffix@, value),
{
    let base = the_swept_window();
    if strings_equal(suffix, "shape_token") {
        Some(WindowSpec { shape: value, ..base })
    } else if strings_equal(suffix, "center_x_basis_points") {
        Some(WindowSpec { cx: value, ..base })
    } else if strings_equal(suffix, "center_y_basis_points") {
        Some(WindowSpec { cy: value, ..base })
    } else if strings_equal(suffix, "half_width_basis_points") {
        Some(WindowSpec { hw: value, ..base })
    } else if strings_equal(suffix, "half_height_basis_points") {
        Some(WindowSpec { hh: value, ..base })
    } else if strings_equal(suffix, "rotation_centidegrees") {
        Some(WindowSpec { rotation: value, ..base })
    } else if strings_equal(suffix, "feather_basis_points") {
        Some(WindowSpec { feather: value, ..base })
    } else if strings_equal(suffix, "invert") {
        Some(WindowSpec { invert: value, ..base })
    } else {
        None
    }
}

/// The qualifier of the sweep with one control at a value.
fn qualifier_with(name: &str, value: i64) -> (qualifier: Option<Option<QualifierSpec>>)
    ensures
        qualifier == qualifier_at(name@, value),
{
    let base = the_swept_qualifier();
    if strings_equal(name, "matte_qualifier_enabled") {
        if value >= 1 {
            Some(Some(base))
        } else {
            Some(None)
        }
    } else if strings_equal(name, "matte_hue_center_centidegrees") {
        Some(Some(QualifierSpec { hue_center: value, ..base }))
    } else if strings_equal(name, "matte_hue_width_centidegrees") {
        Some(Some(QualifierSpec { hue_width: value, ..base }))
    } else if strings_equal(name, "matte_hue_softness_centidegrees") {
        Some(Some(QualifierSpec { hue_softness: value, ..base }))
    } else if strings_equal(name, "matte_saturation_low_basis_points") {
        Some(Some(QualifierSpec { sat_low: value, ..base }))
    } else if strings_equal(name, "matte_saturation_high_basis_points") {
        Some(Some(QualifierSpec { sat_high: value, ..base }))
    } else if strings_equal(name, "matte_saturation_softness_basis_points") {
        Some(Some(QualifierSpec { sat_softness: value, ..base }))
    } else if strings_equal(name, "matte_luma_low_basis_points") {
        Some(Some(QualifierSpec { luma_low: value, ..base }))
    } else if strings_equal(name, "matte_luma_high_basis_points") {
        Some(Some(QualifierSpec { luma_high: value, ..base }))
    } else if strings_equal(name, "matte_luma_softness_basis_points") {
        Some(Some(QualifierSpec { luma_softness: value, ..base }))
    } else {
        None
    }
}

/// The matte of one swept control at a value, or `None` where that value makes
/// the matte inactive.
pub fn control_sweep_spec(name: &str, value: i64) -> (matte: Option<MatteSpec>)
    requires
        swept(name@, value),
    ensures
        modelled(matte) == swept_matte(name@, value),
{
    if let Some((index, suffix)) = swept_window_control(name) {
        let window = window_with(suffix, value).unwrap();
        let mut windows: Vec<WindowSpec> = Vec::new();
        let mut i: usize = 0;
        while i < index
            invariant
                i <= index,
                windows@ == Seq::new(i as nat, |j: int| full_frame_window()),
            decreases index - i,
        {
            windows.push(the_full_frame_window());
            i += 1;
            assert(windows@ =~= Seq::new(i as nat, |j: int| full_frame_window()));
        }
        windows.push(window);
        let matte = MatteSpec::window(window).with_windows(windows, COMBINE_INTERSECTION);
        assert(matte@ =~= isolated_window(index, window));
        return Some(matte);
    }
    if let Some(qualifier) = qualifier_with(name, value) {
        let mut matte = MatteSpec::window(the_full_frame_window());
        matte.qualifier = qualifier;
        assert(matte@ =~= MatteModel { qualifier, ..one_window(full_frame_window()) });
        return Some(matte);
    }
    let mut matte = matte_level_base();
    if strings_equal(name, "matte_enabled") {
        if value == 0 {
            return None;
        }
    } else if strings_equal(name, "matte_window_count") {
        if value < 4 {
            matte.windows.truncate(value as usize);
        }
    } else if strings_equal(name, "matte_combine_token") {
        matte.combine = value;
    } else if strings_equal(name, "matte_invert") {
        matte.invert = value;
    } else {
        matte.mix = value;
    }
    assert(modelled(Some(matte)) =~= level_at(name@, value)->0);
    Some(matte)
}

/// The name of a window's parameter is the name of that window's control:
/// splitting it gives back the index and the suffix that it was made of.
pub proof fn lemma_window_parameter_splits(index: usize, suffix: Seq<char>)
    ensures
        window_control(window_parameter(index as nat, suffix)) == Some((index, suffix)),
{
    let digits = decimal(index as nat);
    let name = window_parameter(index as nat, suffix);
    let prefix = "matte_window"@;
    let mark = "_"@;
    reveal_strlit("_");
    lemma_decimal_parses(index as nat);
    assert(name.subrange(0, prefix.len() as int) =~= prefix);
    assert(occurs_at(name, prefix, 0));
    let rest = name.subrange(prefix.len() as int, name.len() as int);
    assert(rest =~= digits + mark + suffix);
    assert forall|i: int| 0 <= i < digits.len() implies !occurs_at(rest, mark, i) by {
        if occurs_at(rest, mark, i) {
            assert(rest.subrange(i, i + mark.len())[0] == rest[i]);
            assert(rest[i] == digits[i]);
            assert('0' <= digits[i] <= '9');
        }
    }
    assert(rest.subrange(digits.len() as int, (digits.len() + mark.len()) as int) =~= mark);
    assert(occurs_at(rest, mark, digits.len() as int));
    lemma_first_from(rest, mark, 0);
    assert(first(rest, mark) == Some(digits.len() as int));
    assert(rest.subrange(0, digits.len() as int) =~= digits);
    assert(rest.subrange((digits.len() + mark.len()) as int, rest.len() as int) =~= suffix);
}

/// A name that does not have a digit or a plus sign behind `matte_window` is
/// no window control.
proof fn lemma_no_window_control(name: Seq<char>)
    requires
        occurs_at(name, "matte_window"@, 0) ==> name.len() > 12 && name[12] == '_',
    ensures
        window_control(name) is None,
{
    if occurs_at(name, "matte_window"@, 0) {
        reveal_strlit("matte_window");
        reveal_strlit("_");
        let rest = name.subrange(12, name.len() as int);
        assert(rest[0] == '_');
        assert(rest.subrange(0, 1) =~= "_"@);
        assert(occurs_at(rest, "_"@, 0));
        assert(first(rest, "_"@) == Some(0int));
        assert(rest.subrange(0, 0).len() == 0);
        assert(parsed(rest.subrange(0, 0)) is None);
    }
}

/// The count of windows is no control of a window, though its name begins like
/// one.
pub proof fn lemma_window_count_is_no_window_control()
    ensures
        window_control("matte_window_count"@) is None,
{
    reveal_strlit("matte_window_count");
    lemma_no_window_control("matte_window_count"@);
}

/// The only swept value that makes a matte inactive is the master switch at
/// zero.
pub proof fn lemma_only_master_switch_is_inactive(name: Seq<char>, value: i64)
    requires
        swept(name, value),
    ensures
        swept_matte(name, value) is None <==> name == "matte_enabled"@ && value == 0,
{
    if name == "matte_enabled"@ {
        reveal_strlit("matte_enabled");
        reveal_strlit("matte_window");
        reveal_strlit("matte_qualifier_enabled");
        reveal_strlit("matte_hue_center_centidegrees");
        reveal_strlit("matte_hue_width_centidegrees");
        reveal_strlit("matte_hue_softness_centidegrees");
        reveal_strlit("matte_saturation_low_basis_points");
        reveal_strlit("matte_saturation_high_basis_points");
        reveal_strlit("matte_saturation_softness_basis_points");
        reveal_strlit("matte_luma_low_basis_points");
        reveal_strlit("matte_luma_high_basis_points");
        reveal_strlit("matte_luma_softness_basis_points");
        assert(name.subrange(0, 12)[6] != "matte_window"@[6]);
        lemma_no_window_control(name);
    }
}

/// A swept window control changes the swept window alone: the windows before
/// it cover the whole frame, and nothing but the windows is left to change.
pub proof fn lemma_sweep_isolates_window(index: usize, suffix: Seq<char>, value: i64)
    requires
        window_at(suffix, value) is Some,
    ensures
        swept(window_parameter(index as nat, suffix), value),
        swept_matte(window_parameter(index as nat, suffix), value) == Some(
            isolated_window(index, window_at(suffix, value)->0),
        ),
{
    lemma_window_parameter_splits(index, suffix);
}

/// What the swept window holds, in the order in which a window is stored.
pub open spec fn swept_window_values() -> Seq<int> {
    seq![1, 5_500, 4_500, 2_500, 3_000, 1_200, 1_000, 0]
}

/// What the swept qualifier holds, in the order in which a qualifier is stored,
/// behind its switch.
pub open spec fn swept_qualifier_values() -> Seq<int> {
    seq![12_000, 6_000, 2_000, 1_000, 9_000, 500, 500, 9_500, 800]
}

/// The names of a qualifier's numbers, in the same order.
pub open spec fn qualifier_names() -> Seq<Seq<char>> {
    seq![
        "matte_hue_center_centidegrees"@,
        "matte_hue_width_centidegrees"@,
        "matte_hue_softness_centidegrees"@,
        "matte_saturation_low_basis_points"@,
        "matte_saturation_high_basis_points"@,
        "matte_saturation_softness_basis_points"@,
        "matte_luma_low_basis_points"@,
        "matte_luma_high_basis_points"@,
        "matte_luma_softness_basis_points"@,
    ]
}

/// The names of a window's numbers, in the order in which it stores them.
pub open spec fn window_suffixes() -> Seq<Seq<char>> {
    seq![
        "shape_token"@,
        "center_x_basis_points"@,
        "center_y_basis_points"@,
        "half_width_basis_points"@,
        "half_height_basis_points"@,
        "rotation_centidegrees"@,
        "feather_basis_points"@,
        "invert"@,
    ]
}

proof fn lemma_window_at(k: int, value: i64)
    requires
        0 <= k < 8,
    ensures
        window_at(window_suffixes()[k], value) matches Some(window) && {
            &&& k == 0 ==> window == (WindowSpec { shape: value, ..swept_window() })
            &&& k == 1 ==> window == (WindowSpec { cx: value, ..swept_window() })
            &&& k == 2 ==> window == (WindowSpec { cy: value, ..swept_window() })
            &&& k == 3 ==> window == (WindowSpec { hw: value, ..swept_window() })
            &&& k == 4 ==> window == (WindowSpec { hh: value, ..swept_window() })
            &&& k == 5 ==> window == (WindowSpec { rotation: value, ..swept_window() })
            &&& k == 6 ==> window == (WindowSpec { feather: value, ..swept_window() })
            &&& k == 7 ==> window == (WindowSpec { invert: value, ..swept_window() })
        },
{
    reveal_strlit("shape_token");
    reveal_strlit("center_x_basis_points");
    reveal_strlit("center_y_basis_points");
    reveal_strlit("half_width_basis_points");
    reveal_strlit("half_height_basis_points");
    reveal_strlit("rotation_centidegrees");
    reveal_strlit("feather_basis_points");
    reveal_strlit("invert");
    assert("center_x_basis_points"@[7] != "center_y_basis_points"@[7]);
    assert("center_x_basis_points"@[0] != "rotation_centidegrees"@[0]);
    assert("center_y_basis_points"@[0] != "rotation_centidegrees"@[0]);
    let suffix = window_suffixes()[k];
    if k == 0 {
        assert(suffix == "shape_token"@);
    } else if k == 1 {
        assert(suffix == "center_x_basis_points"@);
        assert("shape_token"@.len() != suffix.len());
    } else if k == 2 {
        assert(suffix == "center_y_basis_points"@);
        assert("shape_token"@.len() != suffix.len());
    } else if k == 3 {
        assert(suffix == "half_width_basis_points"@);
        assert("shape_token"@.len() != suffix.len());
        assert("center_x_basis_points"@.len() != suffix.len());
        assert("center_y_basis_points"@.len() != suffix.len());
    } else if k == 4 {
        assert(suffix == "half_height_basis_points"@);
        assert("shape_token"@.len() != suffix.len());
        assert("center_x_basis_points"@.len() != suffix.len());
        assert("center_y_basis_points"@.len() != suffix.len());
        assert("half_width_basis_points"@.len() != suffix.len());
    } else if k == 5 {
        assert(suffix == "rotation_centidegrees"@);
        assert("shape_token"@.len() != suffix.len());
        assert("half_width_basis_points"@.len() != suffix.len());
        assert("half_height_basis_points"@.len() != suffix.len());
    } else if k == 6 {
        assert(suffix == "feather_basis_points"@);
        assert("shape_token"@.len() != suffix.len());
        assert("center_x_basis_points"@.len() != suffix.len());
        assert("center_y_basis_points"@.len() != suffix.len());
        assert("half_width_basis_points"@.len() != suffix.len());
        assert("half_height_basis_points"@.len() != suffix.len());
        assert("rotation_centidegrees"@.len() != suffix.len());
    } else {
        assert(suffix == "invert"@);
        assert("shape_token"@.len() != suffix.len());
        assert("center_x_basis_points"@.len() != suffix.len());
        assert("center_y_basis_points"@.len() != suffix.len());
        assert("half_width_basis_points"@.len() != suffix.len());
        assert("half_height_basis_points"@.len() != suffix.len());
        assert("rotation_centidegrees"@.len() != suffix.len());
        assert("feather_basis_points"@.len() != suffix.len());
    }
}

/// A swept window control sets its own number and no other: of the window that
/// it belongs to, the number stored under its own name is the value, and the
/// number under every other name is what the swept window holds.  Everything
/// else leaves the window alone to be seen: the windows before it cover the
/// whole frame, and the windows intersect at full strength.
pub proof fn lemma_window_control_sets_its_own_number(index: usize, k: int, j: int, value: i64)
    requires
        0 <= k < 8,
        0 <= j < 8,
    ensures
        ({
            let head = "matte_window"@ + decimal(index as nat) + "_"@;
            &&& swept(head + window_suffixes()[k], value)
            &&& swept_matte(head + window_suffixes()[k], value) matches Some(matte)
            &&& matte.windows.len() == index + 1
            &&& window_parameters(matte.windows[index as int], index as nat)[j] == (
                head + window_suffixes()[j],
                (if j == k {
                    value as int
                } else {
                    swept_window_values()[j]
                }) as i64,
            )
            &&& index < 4 ==> stores(
                matte,
                head + window_suffixes()[j],
                if j == k {
                    value as int
                } else {
                    swept_window_values()[j]
                },
            )
            &&& forall|i: int|
                0 <= i < index ==> (#[trigger] matte.windows[i]).shape == 1 && matte.windows[i].cx
                    - matte.windows[i].hw <= 0 && matte.windows[i].cx + matte.windows[i].hw
                    >= 10_000 && matte.windows[i].cy - matte.windows[i].hh <= 0
                    && matte.windows[i].cy + matte.windows[i].hh >= 10_000
                    && matte.windows[i].rotation == 0 && matte.windows[i].feather == 0
                    && matte.windows[i].invert == 0
            &&& matte.combine == 1 && matte.invert == 0 && matte.mix == 10_000
            &&& matte.qualifier is None
        }),
{
    let suffix = window_suffixes()[k];
    let head = "matte_window"@ + decimal(index as nat) + "_"@;
    lemma_window_at(k, value);
    lemma_sweep_isolates_window(index, suffix, value);
    let matte = isolated_window(index, window_at(suffix, value)->0);
    assert(matte.windows[index as int] == window_at(suffix, value)->0);
    if index < 4 {
        lemma_window_reads_back(matte, index as nat);
    }
}

proof fn lemma_qualifier_at(k: int, value: i64)
    requires
        0 <= k < 9,
    ensures
        window_control(qualifier_names()[k]) is None,
        qualifier_at(qualifier_names()[k], value) matches Some(Some(qualifier)) && {
            let base = swept_qualifier();
            &&& k == 0 ==> qualifier == (QualifierSpec { hue_center: value, ..base })
            &&& k == 1 ==> qualifier == (QualifierSpec { hue_width: value, ..base })
            &&& k == 2 ==> qualifier == (QualifierSpec { hue_softness: value, ..base })
            &&& k == 3 ==> qualifier == (QualifierSpec { sat_low: value, ..base })
            &&& k == 4 ==> qualifier == (QualifierSpec { sat_high: value, ..base })
            &&& k == 5 ==> qualifier == (QualifierSpec { sat_softness: value, ..base })
            &&& k == 6 ==> qualifier == (QualifierSpec { luma_low: value, ..base })
            &&& k == 7 ==> qualifier == (QualifierSpec { luma_high: value, ..base })
            &&& k == 8 ==> qualifier == (QualifierSpec { luma_softness: value, ..base })
        },
{
    reveal_strlit("matte_window");
    reveal_strlit("matte_qualifier_enabled");
    reveal_strlit("matte_hue_center_centidegrees");
    reveal_strlit("matte_hue_width_centidegrees");
    reveal_strlit("matte_hue_softness_centidegrees");
    reveal_strlit("matte_saturation_low_basis_points");
    reveal_strlit("matte_saturation_high_basis_points");
    reveal_strlit("matte_saturation_softness_basis_points");
    reveal_strlit("matte_luma_low_basis_points");
    reveal_strlit("matte_luma_high_basis_points");
    reveal_strlit("matte_luma_softness_basis_points");
    assert("matte_hue_width_centidegrees"@[6] != "matte_luma_high_basis_points"@[6]);
    let name = qualifier_names()[k];
    assert(name.subrange(0, 12)[6] == name[6]);
    assert(name[6] != "matte_window"@[6]);
    lemma_no_window_control(name);
}

/// A swept qualifier control sets its own number and no other, on a matte whose
/// one window covers the whole frame; the switch turns the qualifier off below
/// one and leaves it as it is from one on.
pub proof fn lemma_qualifier_control_sets_its_own_number(k: int, j: int, value: i64)
    requires
        0 <= k < 9,
        0 <= j < 9,
    ensures
        swept(qualifier_names()[k], value),
        swept_matte(qualifier_names()[k], value) matches Some(matte) && {
            &&& stores(
                matte,
                qualifier_names()[j],
                if j == k {
                    value as int
                } else {
                    swept_qualifier_values()[j]
                },
            )
            &&& stores(matte, "matte_qualifier_enabled"@, 1)
            &&& matte.windows.len() == 1
            &&& matte.windows[0].cx - matte.windows[0].hw <= 0 && matte.windows[0].cx
                + matte.windows[0].hw >= 10_000
            &&& matte.windows[0].cy - matte.windows[0].hh <= 0 && matte.windows[0].cy
                + matte.windows[0].hh >= 10_000
            &&& matte.windows[0].shape == 1 && matte.windows[0].feather == 0
                && matte.windows[0].rotation == 0 && matte.windows[0].invert == 0
            &&& matte.combine == 0 && matte.invert == 0 && matte.mix == 10_000
        },
        swept_matte("matte_qualifier_enabled"@, value) matches Some(matte) && {
            &&& value < 1 ==> matte.qualifier is None
            &&& value >= 1 ==> stores(
                matte,
                qualifier_names()[j],
                swept_qualifier_values()[j],
            )
            &&& matte.windows.len() == 1
        },
{
    lemma_qualifier_at(k, value);
    let matte = swept_matte(qualifier_names()[k], value)->0;
    lemma_qualifier_reads_back(matte, matte.qualifier->0);
    reveal_strlit("matte_window");
    reveal_strlit("matte_qualifier_enabled");
    let name = "matte_qualifier_enabled"@;
    assert(name.subrange(0, 12)[6] == name[6]);
    assert(name[6] != "matte_window"@[6]);
    lemma_no_window_control(name);
    let switched = swept_matte(name, value)->0;
    if value >= 1 {
        lemma_qualifier_reads_back(switched, switched.qualifier->0);
    }
}

/// The matte whose own controls are swept: four windows that differ, joined, at
/// full strength, with the swept qualifier.
pub proof fn lemma_level_base_in_numbers(i: int, j: int)
    requires
        0 <= i < j < 4,
    ensures
        level_base().windows.len() == 4,
        level_base().windows[i] != level_base().windows[j],
        level_base().windows[0].cx == 5_000 && level_base().windows[0].cy == 5_000,
        level_base().windows[1].cx == 7_000 && level_base().windows[1].cy == 5_000,
        level_base().windows[2].cx == 5_000 && level_base().windows[2].cy == 3_000,
        level_base().windows[3].cx == 3_000 && level_base().windows[3].cy == 7_000,
        level_base().windows[0].feather == 0 && level_base().windows[1].feather == 0
            && level_base().windows[2].feather == 1_200 && level_base().windows[3].feather == 0,
        level_base().windows[0].shape == 1 && level_base().windows[1].shape == 1
            && level_base().windows[2].shape == 1 && level_base().windows[3].shape == 2,
        level_base().windows[i].hw == 2_500 && level_base().windows[i].hh == 2_500,
        level_base().windows[j].hw == 2_500 && level_base().windows[j].hh == 2_500,
        level_base().combine == 0 && level_base().invert == 0 && level_base().mix == 10_000,
        level_base().qualifier == Some(swept_qualifier()),
{
}

/// A swept control of the matte itself sets its own number and no other: what is
/// stored under its name is the value, and everything else is the base's.  The
/// count keeps the first windows, and no more than there are.  Every value is
/// swept, but for a negative count.
pub proof fn lemma_level_control_sets_its_own_number(value: i64)
    ensures
        swept("matte_combine_token"@, value),
        swept("matte_invert"@, value),
        swept("matte_mix_basis_points"@, value),
        swept("matte_enabled"@, value),
        swept("matte_window_count"@, value) <==> value >= 0,
        swept_matte("matte_combine_token"@, value) == Some(
            MatteModel { combine: value, ..level_base() },
        ),
        swept_matte("matte_invert"@, value) == Some(MatteModel { invert: value, ..level_base() }),
        swept_matte("matte_mix_basis_points"@, value) == Some(
            MatteModel { mix: value, ..level_base() },
        ),
        value != 0 ==> swept_matte("matte_enabled"@, value) == Some(level_base()),
        value == 0 ==> swept_matte("matte_enabled"@, value) is None,
        value >= 0 ==> (swept_matte("matte_window_count"@, value) matches Some(matte) && {
            &&& matte.windows.len() == (if value < 4 {
                value as int
            } else {
                4
            })
            &&& forall|i: int|
                0 <= i < matte.windows.len() ==> #[trigger] matte.windows[i]
                    == level_base().windows[i]
            &&& matte.combine == 0 && matte.invert == 0 && matte.mix == 10_000
            &&& matte.qualifier == Some(swept_qualifier())
        }),
{
    reveal_strlit("matte_window");
    reveal_strlit("matte_enabled");
    reveal_strlit("matte_window_count");
    reveal_strlit("matte_combine_token");
    reveal_strlit("matte_invert");
    reveal_strlit("matte_mix_basis_points");
    reveal_strlit("matte_qualifier_enabled");
    reveal_strlit("matte_hue_center_centidegrees");
    reveal_strlit("matte_hue_width_centidegrees");
    reveal_strlit("matte_hue_softness_centidegrees");
    reveal_strlit("matte_saturation_low_basis_points");
    reveal_strlit("matte_saturation_high_basis_points");
    reveal_strlit("matte_saturation_softness_basis_points");
    reveal_strlit("matte_luma_low_basis_points");
    reveal_strlit("matte_luma_high_basis_points");
    reveal_strlit("matte_luma_softness_basis_points");
    lemma_window_count_is_no_window_control();
    let combine = "matte_combine_token"@;
    let invert = "matte_invert"@;
    let mix = "matte_mix_basis_points"@;
    let enabled = "matte_enabled"@;
    assert(combine.subrange(0, 12)[6] == 'c');
    assert(invert.subrange(0, 12)[6] == 'i');
    assert(mix.subrange(0, 12)[6] == 'm');
    assert(enabled.subrange(0, 12)[6] == 'e');
    assert("matte_window"@[6] == 'w');
    lemma_no_window_control(combine);
    lemma_no_window_control(invert);
    lemma_no_window_control(mix);
    lemma_no_window_control(enabled);
}

} // verus!
