//! Mattes as stored integers: windows, a qualifier and what joins them.

use vstd::prelude::*;

use crate::effect::{collected, extend_parameters, push_parameter, stored};
use crate::numbers::{decimal, decimal_text};

verus! {

/// The shape token of a rectangle.
pub const SHAPE_RECT: i64 = 1;

/// The shape token of an ellipse.
pub const SHAPE_ELLIPSE: i64 = 2;

/// The combine token of a union.
pub const COMBINE_UNION: i64 = 0;

/// The combine token of an intersection.
pub const COMBINE_INTERSECTION: i64 = 1;

/// The mix at full strength, in basis points.
pub const MIX_FULL: i64 = 10_000;

/// The number of windows that a matte can hold.
pub const MATTE_WINDOW_LIMIT: usize = 4;

/// The number of parameters that a matte with every window stores.
pub const MATTE_PARAMETER_COUNT: usize = 47;

/// The number of colour nodes that a layer can carry.
pub const COLOR_NODE_LIMIT_PER_LAYER: usize = 16;

/// What the names of a window's parameters end in, in the order of its values.
pub const WINDOW_SUFFIXES: [&'static str; 8] = [
    "shape_token",
    "center_x_basis_points",
    "center_y_basis_points",
    "half_width_basis_points",
    "half_height_basis_points",
    "rotation_centidegrees",
    "feather_basis_points",
    "invert",
];

/// One geometric window's eight stored integers.
#[derive(Debug, Clone, Copy, PartialEq, Eq, Structural)]
pub struct WindowSpec {
    pub shape: i64,
    pub cx: i64,
    pub cy: i64,
    pub hw: i64,
    pub hh: i64,
    pub rotation: i64,
    pub feather: i64,
    pub invert: i64,
}

/// A qualifier's nine stored scalars.
#[derive(Debug, Clone, Copy, PartialEq, Eq, Structural)]
pub struct QualifierSpec {
    pub hue_center: i64,
    pub hue_width: i64,
    pub hue_softness: i64,
    pub sat_low: i64,
    pub sat_high: i64,
    pub sat_softness: i64,
    pub luma_low: i64,
    pub luma_high: i64,
    pub luma_softness: i64,
}

/// One node's whole matte.
#[derive(Debug)]
pub struct MatteSpec {
    pub windows: Vec<WindowSpec>,
    pub combine: i64,
    pub invert: i64,
    pub mix: i64,
    pub qualifier: Option<QualifierSpec>,
}

/// What a matte is, apart from how its windows are held.
#[verifier::ext_equal]
pub struct MatteModel {
    pub windows: Seq<WindowSpec>,
    pub combine: i64,
    pub invert: i64,
    pub mix: i64,
    pub qualifier: Option<QualifierSpec>,
}

impl View for MatteSpec {
    type V = MatteModel;

    open spec fn view(&self) -> MatteModel {
        MatteModel {
            windows: self.windows@,
            combine: self.combine,
            invert: self.invert,
            mix: self.mix,
            qualifier: self.qualifier,
        }
    }
}

/// A rectangle at the centre, with half extents of a quarter of the frame and
/// a hard edge.
pub open spec fn centred_window() -> WindowSpec {
    WindowSpec {
        shape: SHAPE_RECT,
        cx: 5_000,
        cy: 5_000,
        hw: 2_500,
        hh: 2_500,
        rotation: 0,
        feather: 0,
        invert: 0,
    }
}

/// A qualifier that lets everything through: the hue leg at its neutral width,
/// both bands full, no softness.
pub open spec fn neutral_qualifier() -> QualifierSpec {
    QualifierSpec {
        hue_center: 0,
        hue_width: 18_000,
        hue_softness: 0,
        sat_low: 0,
        sat_high: 10_000,
        sat_softness: 0,
        luma_low: 0,
        luma_high: 10_000,
        luma_softness: 0,
    }
}

/// What the names of a window's parameters begin with.
pub open spec fn window_prefix(index: nat) -> Seq<char> {
    "matte_window"@ + decimal(index) + "_"@
}

/// The name of one of a window's parameters.
pub open spec fn window_parameter(index: nat, suffix: Seq<char>) -> Seq<char> {
    window_prefix(index) + suffix
}

/// The eight parameters that a window stores.
pub open spec fn window_parameters(window: WindowSpec, index: nat) -> Seq<(Seq<char>, i64)> {
    seq![
        (window_parameter(index, "shape_token"@), window.shape),
        (window_parameter(index, "center_x_basis_points"@), window.cx),
        (window_parameter(index, "center_y_basis_points"@), window.cy),
        (window_parameter(index, "half_width_basis_points"@), window.hw),
        (window_parameter(index, "half_height_basis_points"@), window.hh),
        (window_parameter(index, "rotation_centidegrees"@), window.rotation),
        (window_parameter(index, "feather_basis_points"@), window.feather),
        (window_parameter(index, "invert"@), window.invert),
    ]
}

/// The parameters that a list of windows stores, window by window.
pub open spec fn windows_parameters(windows: Seq<WindowSpec>) -> Seq<(Seq<char>, i64)>
    decreases windows.len(),
{
    if windows.len() == 0 {
        Seq::empty()
    } else {
        windows_parameters(windows.drop_last()) + window_parameters(
            windows.last(),
            (windows.len() - 1) as nat,
        )
    }
}

/// The ten parameters that a qualifier stores.
pub open spec fn qualifier_parameters(qualifier: QualifierSpec) -> Seq<(Seq<char>, i64)> {
    seq![
        ("matte_qualifier_enabled"@, 1),
        ("matte_hue_center_centidegrees"@, qualifier.hue_center),
        ("matte_hue_width_centidegrees"@, qualifier.hue_width),
        ("matte_hue_softness_centidegrees"@, qualifier.hue_softness),
        ("matte_saturation_low_basis_points"@, qualifier.sat_low),
        ("matte_saturation_high_basis_points"@, qualifier.sat_high),
        ("matte_saturation_softness_basis_points"@, qualifier.sat_softness),
        ("matte_luma_low_basis_points"@, qualifier.luma_low),
        ("matte_luma_high_basis_points"@, qualifier.luma_high),
        ("matte_luma_softness_basis_points"@, qualifier.luma_softness),
    ]
}

/// The five parameters that every matte stores.
pub open spec fn level_parameters(matte: MatteModel) -> Seq<(Seq<char>, i64)> {
    seq![
        ("matte_enabled"@, 1),
        ("matte_window_count"@, matte.windows.len() as i64),
        ("matte_combine_token"@, matte.combine),
        ("matte_invert"@, matte.invert),
        ("matte_mix_basis_points"@, matte.mix),
    ]
}

/// Every parameter that a matte stores.  Windows past its count are not
/// written.
pub open spec fn matte_parameters(matte: MatteModel) -> Seq<(Seq<char>, i64)> {
    level_parameters(matte) + windows_parameters(matte.windows) + match matte.qualifier {
        Some(qualifier) => qualifier_parameters(qualifier),
        None => Seq::empty(),
    }
}

/// The parameters of a matte that may be absent.
pub open spec fn optional_matte_parameters(matte: Option<MatteModel>) -> Seq<(Seq<char>, i64)> {
    match matte {
        Some(matte) => matte_parameters(matte),
        None => Seq::empty(),
    }
}

/// Whether every coverage that a matte can give is nothing or everything: full
/// mix, no feather and no softness.
pub open spec fn hard_edged(matte: MatteModel) -> bool {
    &&& matte.mix == MIX_FULL
    &&& forall|i: int| 0 <= i < matte.windows.len() ==> (#[trigger] matte.windows[i]).feather == 0
    &&& match matte.qualifier {
        Some(qualifier) => {
            &&& qualifier.hue_softness == 0
            &&& qualifier.sat_softness == 0
            &&& qualifier.luma_softness == 0
        },
        None => true,
    }
}

/// A window's parameter name.
fn window_parameter_name(index: usize, suffix: &str) -> (name: String)
    ensures
        name@ == window_parameter(index as nat, suffix@),
{
    let digits = decimal_text(index as u64);
    let name = "matte_window".to_owned().concat(digits.as_str()).concat("_").concat(suffix);
    name
}

impl WindowSpec {
    /// Centred, with half extents of a quarter of the frame and a hard edge.
    pub fn centred() -> (window: WindowSpec)
        ensures
            window == centred_window(),
    {
        WindowSpec {
            shape: SHAPE_RECT,
            cx: 5_000,
            cy: 5_000,
            hw: 2_500,
            hh: 2_500,
            rotation: 0,
            feather: 0,
            invert: 0,
        }
    }

    /// Centred and square in pixels: 7.2 of them each way on a 64 by 36 raster.
    pub fn pixel_square() -> (window: WindowSpec)
        ensures
            window == (WindowSpec { hw: 1_125, hh: 2_000, ..centred_window() }),
    {
        WindowSpec { hw: 1_125, hh: 2_000, ..WindowSpec::centred() }
    }

    /// The window about another centre.
    pub fn with_centre(self, cx: i64, cy: i64) -> (window: WindowSpec)
        ensures
            window == (WindowSpec { cx, cy, ..self }),
    {
        WindowSpec { cx, cy, ..self }
    }

    /// The window with another feather.
    pub fn with_feather(self, feather: i64) -> (window: WindowSpec)
        ensures
            window == (WindowSpec { feather, ..self }),
    {
        WindowSpec { feather, ..self }
    }

    /// The window with another rotation.
    pub fn with_rotation(self, rotation: i64) -> (window: WindowSpec)
        ensures
            window == (WindowSpec { rotation, ..self }),
    {
        WindowSpec { rotation, ..self }
    }

    /// The window with another shape.
    pub fn with_shape(self, shape: i64) -> (window: WindowSpec)
        ensures
            window == (WindowSpec { shape, ..self }),
    {
        WindowSpec { shape, ..self }
    }

    /// The window inside out.
    pub fn inverted(self) -> (window: WindowSpec)
        ensures
            window == (WindowSpec { invert: 1, ..self }),
    {
        WindowSpec { invert: 1, ..self }
    }

    /// The eight parameters that this window stores as the one of this index.
    pub fn parameters(&self, index: usize) -> (parameters: Vec<(String, i64)>)
        requires
            index < MATTE_WINDOW_LIMIT,
        ensures
            stored(parameters@) == window_parameters(*self, index as nat),
    {
        let mut parameters: Vec<(String, i64)> = Vec::new();
        parameters.push((window_parameter_name(index, "shape_token"), self.shape));
        parameters.push((window_parameter_name(index, "center_x_basis_points"), self.cx));
        parameters.push((window_parameter_name(index, "center_y_basis_points"), self.cy));
        parameters.push((window_parameter_name(index, "half_width_basis_points"), self.hw));
        parameters.push((window_parameter_name(index, "half_height_basis_points"), self.hh));
        parameters.push((window_parameter_name(index, "rotation_centidegrees"), self.rotation));
        parameters.push((window_parameter_name(index, "feather_basis_points"), self.feather));
        parameters.push((window_parameter_name(index, "invert"), self.invert));
        assert(stored(parameters@) =~= window_parameters(*self, index as nat));
        parameters
    }
}

impl QualifierSpec {
    /// Every leg wide open, without softness.
    pub fn neutral() -> (qualifier: QualifierSpec)
        ensures
            qualifier == neutral_qualifier(),
    {
        QualifierSpec {
            hue_center: 0,
            hue_width: 18_000,
            hue_softness: 0,
            sat_low: 0,
            sat_high: 10_000,
            sat_softness: 0,
            luma_low: 0,
            luma_high: 10_000,
            luma_softness: 0,
        }
    }

    /// The ten parameters that this qualifier stores, its switch first.
    pub fn parameters(&self) -> (parameters: Vec<(String, i64)>)
        ensures
            stored(parameters@) == qualifier_parameters(*self),
    {
        let mut parameters: Vec<(String, i64)> = Vec::new();
        push_parameter(&mut parameters, "matte_qualifier_enabled", 1);
        push_parameter(&mut parameters, "matte_hue_center_centidegrees", self.hue_center);
        push_parameter(&mut parameters, "matte_hue_width_centidegrees", self.hue_width);
        push_parameter(&mut parameters, "matte_hue_softness_centidegrees", self.hue_softness);
        push_parameter(&mut parameters, "matte_saturation_low_basis_points", self.sat_low);
        push_parameter(&mut parameters, "matte_saturation_high_basis_points", self.sat_high);
        push_parameter(&mut parameters, "matte_saturation_softness_basis_points", self.sat_softness);
        push_parameter(&mut parameters, "matte_luma_low_basis_points", self.luma_low);
        push_parameter(&mut parameters, "matte_luma_high_basis_points", self.luma_high);
        push_parameter(&mut parameters, "matte_luma_softness_basis_points", self.luma_softness);
        assert(stored(parameters@) =~= qualifier_parameters(*self));
        parameters
    }
}

impl MatteSpec {
    /// A matte with exactly one window.
    pub fn window(window: WindowSpec) -> (matte: MatteSpec)
        ensures
            matte@ == (MatteModel {
                windows: seq![window],
                combine: COMBINE_UNION,
                invert: 0,
                mix: MIX_FULL,
                qualifier: None,
            }),
    {
        let mut windows: Vec<WindowSpec> = Vec::new();
        windows.push(window);
        let matte = MatteSpec {
            windows,
            combine: COMBINE_UNION,
            invert: 0,
            mix: MIX_FULL,
            qualifier: None,
        };
        assert(matte@.windows =~= seq![window]);
        matte
    }

    /// A matte with only a qualifier.
    pub fn qualifier(qualifier: QualifierSpec) -> (matte: MatteSpec)
        ensures
            matte@ == (MatteModel {
                windows: Seq::empty(),
                combine: COMBINE_UNION,
                invert: 0,
                mix: MIX_FULL,
                qualifier: Some(qualifier),
            }),
    {
        MatteSpec {
            windows: Vec::new(),
            combine: COMBINE_UNION,
            invert: 0,
            mix: MIX_FULL,
            qualifier: Some(qualifier),
        }
    }

    /// A copy of this matte.
    pub fn copied(&self) -> (matte: MatteSpec)
        ensures
            matte@ == self@,
    {
        let windows = self.windows.clone();
        assert(windows@ =~= self.windows@);
        MatteSpec {
            windows,
            combine: self.combine,
            invert: self.invert,
            mix: self.mix,
            qualifier: self.qualifier,
        }
    }

    /// The matte with these windows, joined in this way.
    pub fn with_windows(self, windows: Vec<WindowSpec>, combine: i64) -> (matte: MatteSpec)
        ensures
            matte@ == (MatteModel { windows: windows@, combine, ..self@ }),
    {
        let mut matte = self;
        matte.windows = windows;
        matte.combine = combine;
        matte
    }

    /// The matte with this qualifier.
    pub fn with_qualifier(self, qualifier: QualifierSpec) -> (matte: MatteSpec)
        ensures
            matte@ == (MatteModel { qualifier: Some(qualifier), ..self@ }),
    {
        let mut matte = self;
        matte.qualifier = Some(qualifier);
        matte
    }

    /// The matte with this mix.
    pub fn with_mix(self, mix: i64) -> (matte: MatteSpec)
        ensures
            matte@ == (MatteModel { mix, ..self@ }),
    {
        let mut matte = self;
        matte.mix = mix;
        matte
    }

    /// The matte inside out.
    pub fn inverted(self) -> (matte: MatteSpec)
        ensures
            matte@ == (MatteModel { invert: 1, ..self@ }),
    {
        let mut matte = self;
        matte.invert = 1;
        matte
    }

    /// Every parameter that this matte stores, its switch first.
    pub fn parameters(&self) -> (parameters: Vec<(String, i64)>)
        requires
            self@.windows.len() <= MATTE_WINDOW_LIMIT,
        ensures
            stored(parameters@) == matte_parameters(self@),
    {
        let mut parameters: Vec<(String, i64)> = Vec::new();
        push_parameter(&mut parameters, "matte_enabled", 1);
        push_parameter(&mut parameters, "matte_window_count", self.windows.len() as i64);
        push_parameter(&mut parameters, "matte_combine_token", self.combine);
        push_parameter(&mut parameters, "matte_invert", self.invert);
        push_parameter(&mut parameters, "matte_mix_basis_points", self.mix);
        assert(stored(parameters@) =~= level_parameters(self@));
        let mut index: usize = 0;
        assert(self.windows@.take(0) =~= Seq::<WindowSpec>::empty());
        assert(stored(parameters@) =~= level_parameters(self@) + windows_parameters(
            self.windows@.take(0),
        ));
        while index < self.windows.len()
            invariant
                index <= self.windows.len() <= MATTE_WINDOW_LIMIT,
                stored(parameters@) == level_parameters(self@) + windows_parameters(
                    self.windows@.take(index as int),
                ),
            decreases self.windows.len() - index,
        {
            let ghost before = self.windows@.take(index as int);
            extend_parameters(&mut parameters, self.windows[index].parameters(index));
            index += 1;
            proof {
                let taken = self.windows@.take(index as int);
                assert(taken.drop_last() =~= before);
                assert(taken.last() == self.windows@[index - 1]);
                assert(stored(parameters@) =~= level_parameters(self@) + windows_parameters(taken));
            }
        }
        assert(self.windows@.take(self.windows@.len() as int) =~= self.windows@);
        match &self.qualifier {
            Some(qualifier) => {
                extend_parameters(&mut parameters, qualifier.parameters());
            },
            None => {},
        }
        assert(stored(parameters@) =~= matte_parameters(self@));
        parameters
    }

    /// Whether every coverage that this matte can give is nothing or
    /// everything.
    pub fn is_hard_edged(&self) -> (result: bool)
        ensures
            result == hard_edged(self@),
    {
        if self.mix != MIX_FULL {
            return false;
        }
        let mut i: usize = 0;
        while i < self.windows.len()
            invariant
                i <= self.windows.len(),
                forall|j: int| 0 <= j < i ==> (#[trigger] self.windows@[j]).feather == 0,
            decreases self.windows.len() - i,
        {
            if self.windows[i].feather != 0 {
                assert(self@.windows[i as int].feather != 0);
                return false;
            }
            i += 1;
        }
        match &self.qualifier {
            Some(qualifier) => qualifier.hue_softness == 0 && qualifier.sat_softness == 0
                && qualifier.luma_softness == 0,
            None => true,
        }
    }
}

/// A matte stores five parameters, eight for each window and ten for a
/// qualifier: with every window and a qualifier, all there are.
#[verifier::spinoff_prover]
pub proof fn lemma_matte_parameter_count(matte: MatteModel)
    ensures
        matte_parameters(matte).len() == 5 + 8 * matte.windows.len() + (if matte.qualifier is Some {
            10int
        } else {
            0int
        }),
        matte.windows.len() == MATTE_WINDOW_LIMIT && matte.qualifier is Some ==> matte_parameters(
            matte,
        ).len() == MATTE_PARAMETER_COUNT,
{
    lemma_windows_parameters_at(matte.windows);
    assert(level_parameters(matte).len() == 5);
    if let Some(qualifier) = matte.qualifier {
        assert(qualifier_parameters(qualifier).len() == 10);
    }
}

/// The parameters of a list of windows stand window by window, eight each.
proof fn lemma_windows_parameters_at(windows: Seq<WindowSpec>)
    ensures
        windows_parameters(windows).len() == 8 * windows.len(),
        forall|i: int, k: int|
            0 <= i < windows.len() && 0 <= k < 8 ==> windows_parameters(windows)[8 * i + k]
                == #[trigger] window_parameters(windows[i], i as nat)[k],
    decreases windows.len(),
{
    if windows.len() > 0 {
        let shorter = windows.drop_last();
        lemma_windows_parameters_at(shorter);
        assert forall|i: int, k: int| 0 <= i < windows.len() && 0 <= k < 8 implies windows_parameters(
            windows,
        )[8 * i + k] == #[trigger] window_parameters(windows[i], i as nat)[k] by {
            if i < shorter.len() {
                assert(shorter[i] == windows[i]);
                assert(windows_parameters(shorter)[8 * i + k] == window_parameters(
                    shorter[i],
                    i as nat,
                )[k]);
            }
        }
    }
}

/// What tells the name of a matte parameter from every other: its length, the
/// letter behind `matte_`, and two letters further on.
spec fn name_key(name: Seq<char>) -> (int, char, char, char) {
    (
        name.len() as int,
        name[6],
        if name.len() > 12 {
            name[12]
        } else {
            ' '
        },
        if name.len() > 21 {
            name[21]
        } else {
            ' '
        },
    )
}

/// The key of the parameter at a position of a window's eight.
spec fn window_key(index: nat, k: int) -> (int, char, char, char) {
    let d = crate::numbers::digit(index as int);
    if k == 0 {
        (25, 'w', d, 'o')
    } else if k == 1 {
        (35, 'w', d, 'x')
    } else if k == 2 {
        (35, 'w', d, 'y')
    } else if k == 3 {
        (37, 'w', d, 'd')
    } else if k == 4 {
        (38, 'w', d, 'i')
    } else if k == 5 {
        (35, 'w', d, 'n')
    } else if k == 6 {
        (34, 'w', d, '_')
    } else {
        (20, 'w', d, ' ')
    }
}

proof fn lemma_window_key(window: WindowSpec, index: nat, k: int)
    requires
        index < MATTE_WINDOW_LIMIT,
        0 <= k < 8,
    ensures
        name_key(window_parameters(window, index)[k].0) == window_key(index, k),
{
    reveal_strlit("matte_window");
    reveal_strlit("_");
    reveal_strlit("shape_token");
    reveal_strlit("center_x_basis_points");
    reveal_strlit("center_y_basis_points");
    reveal_strlit("half_width_basis_points");
    reveal_strlit("half_height_basis_points");
    reveal_strlit("rotation_centidegrees");
    reveal_strlit("feather_basis_points");
    reveal_strlit("invert");
    assert(decimal(index) == seq![crate::numbers::digit(index as int)]);
}

/// The key of the parameter at a position behind the windows or before them.
spec fn other_key(p: int) -> (int, char, char, char) {
    if p == 0 {
        (13, 'e', 'd', ' ')
    } else if p == 1 {
        (18, 'w', '_', ' ')
    } else if p == 2 {
        (19, 'c', 'e', ' ')
    } else if p == 3 {
        (12, 'i', ' ', ' ')
    } else if p == 4 {
        (22, 'm', 's', 's')
    } else if p == 5 {
        (23, 'q', 'i', 'e')
    } else if p == 6 {
        (29, 'h', 'n', 'i')
    } else if p == 7 {
        (28, 'h', 'd', 'd')
    } else if p == 8 {
        (31, 'h', 'f', 'n')
    } else if p == 9 {
        (33, 's', 't', 'b')
    } else if p == 10 {
        (34, 's', 't', '_')
    } else if p == 11 {
        (38, 's', 't', 'n')
    } else if p == 12 {
        (27, 'l', 'o', 'p')
    } else if p == 13 {
        (28, 'l', 'i', '_')
    } else {
        (32, 'l', 'o', 'a')
    }
}

proof fn lemma_level_key(matte: MatteModel, p: int)
    requires
        0 <= p < 5,
    ensures
        name_key(level_parameters(matte)[p].0) == other_key(p),
{
    reveal_strlit("matte_enabled");
    reveal_strlit("matte_window_count");
    reveal_strlit("matte_combine_token");
    reveal_strlit("matte_invert");
    reveal_strlit("matte_mix_basis_points");
}

proof fn lemma_qualifier_key(qualifier: QualifierSpec, p: int)
    requires
        0 <= p < 10,
    ensures
        name_key(qualifier_parameters(qualifier)[p].0) == other_key(p + 5),
{
    reveal_strlit("matte_qualifier_enabled");
    reveal_strlit("matte_hue_center_centidegrees");
    reveal_strlit("matte_hue_width_centidegrees");
    reveal_strlit("matte_hue_softness_centidegrees");
    reveal_strlit("matte_saturation_low_basis_points");
    reveal_strlit("matte_saturation_high_basis_points");
    reveal_strlit("matte_saturation_softness_basis_points");
    reveal_strlit("matte_luma_low_basis_points");
    reveal_strlit("matte_luma_high_basis_points");
    reveal_strlit("matte_luma_softness_basis_points");
}

/// The key of the parameter at a position of a matte.
spec fn key_at(matte: MatteModel, p: int) -> (int, char, char, char) {
    let windows = 8 * matte.windows.len();
    if p < 5 {
        other_key(p)
    } else if p < 5 + windows {
        window_key(((p - 5) / 8) as nat, (p - 5) % 8)
    } else {
        other_key(p - windows)
    }
}

proof fn lemma_key_at(matte: MatteModel, p: int)
    requires
        matte.windows.len() <= MATTE_WINDOW_LIMIT,
        0 <= p < matte_parameters(matte).len(),
    ensures
        name_key(matte_parameters(matte)[p].0) == key_at(matte, p),
{
    lemma_matte_parameter_count(matte);
    lemma_windows_parameters_at(matte.windows);
    let windows = 8 * matte.windows.len();
    if p < 5 {
        lemma_level_key(matte, p);
    } else if p < 5 + windows {
        let i = (p - 5) / 8;
        let k = (p - 5) % 8;
        lemma_window_key(matte.windows[i], i as nat, k);
        assert(windows_parameters(matte.windows)[8 * i + k] == window_parameters(
            matte.windows[i],
            i as nat,
        )[k]);
    } else {
        lemma_qualifier_key(matte.qualifier->0, p - 5 - windows);
    }
}

/// No two parameters of a matte have the same name.
pub proof fn lemma_matte_parameter_names_differ(matte: MatteModel)
    requires
        matte.windows.len() <= MATTE_WINDOW_LIMIT,
    ensures
        forall|p: int, q: int|
            #![trigger matte_parameters(matte)[p], matte_parameters(matte)[q]]
            0 <= p < q < matte_parameters(matte).len() ==> matte_parameters(matte)[p].0
                != matte_parameters(matte)[q].0,
{
    let list = matte_parameters(matte);
    lemma_matte_parameter_count(matte);
    assert forall|p: int, q: int|
        #![trigger list[p], list[q]]
        0 <= p < q < list.len() implies list[p].0 != list[q].0 by {
        lemma_key_at(matte, p);
        lemma_key_at(matte, q);
        assert(key_at(matte, p) != key_at(matte, q)) by {
            let windows = 8 * matte.windows.len();
            if 5 <= p < q < 5 + windows {
                let i = (p - 5) / 8;
                let j = (q - 5) / 8;
                let k = (p - 5) % 8;
                let l = (q - 5) % 8;
                assert(p - 5 == 8 * i + k && q - 5 == 8 * j + l);
                assert(i != j || k != l);
                assert(0 <= i < 4 && 0 <= j < 4);
            }
        }
    }
}

/// Every parameter that a matte stores can be read back from the map that its
/// list gives.
pub proof fn lemma_matte_parameters_read_back(matte: MatteModel)
    requires
        matte.windows.len() <= MATTE_WINDOW_LIMIT,
    ensures
        forall|p: int|
            0 <= p < matte_parameters(matte).len() ==> {
                let (name, value) = #[trigger] matte_parameters(matte)[p];
                &&& collected(matte_parameters(matte)).contains_key(name)
                &&& collected(matte_parameters(matte))[name] == value
            },
{
    lemma_matte_parameter_names_differ(matte);
    lemma_distinct_names_read_back(matte_parameters(matte));
}

/// A list without a repeated name gives a map that holds each of its values.
pub proof fn lemma_distinct_names_read_back(list: Seq<(Seq<char>, i64)>)
    requires
        forall|p: int, q: int|
            #![trigger list[p], list[q]]
            0 <= p < q < list.len() ==> list[p].0 != list[q].0,
    ensures
        forall|p: int|
            0 <= p < list.len() ==> collected(list).contains_key((#[trigger] list[p]).0)
                && collected(list)[list[p].0] == list[p].1,
    decreases list.len(),
{
    if list.len() > 0 {
        let shorter = list.drop_last();
        assert forall|p: int, q: int|
            #![trigger shorter[p], shorter[q]]
            0 <= p < q < shorter.len() implies shorter[p].0 != shorter[q].0 by {
            assert(shorter[p] == list[p] && shorter[q] == list[q]);
        }
        lemma_distinct_names_read_back(shorter);
        assert forall|p: int| 0 <= p < list.len() implies collected(list).contains_key(
            (#[trigger] list[p]).0,
        ) && collected(list)[list[p].0] == list[p].1 by {
            if p < shorter.len() {
                assert(shorter[p] == list[p]);
                assert(list[p].0 != list[list.len() - 1].0);
            }
        }
    }
}

/// What a matte stores under a name.
pub open spec fn stores(matte: MatteModel, name: Seq<char>, value: int) -> bool {
    &&& collected(matte_parameters(matte)).contains_key(name)
    &&& collected(matte_parameters(matte))[name] == value
}

/// Each number of a window is read back under the window's own name for it.
pub proof fn lemma_window_reads_back(matte: MatteModel, index: nat)
    requires
        matte.windows.len() <= 4,
        index < matte.windows.len(),
    ensures
        ({
            let head = "matte_window"@ + decimal(index) + "_"@;
            let window = matte.windows[index as int];
            &&& stores(matte, head + "shape_token"@, window.shape as int)
            &&& stores(matte, head + "center_x_basis_points"@, window.cx as int)
            &&& stores(matte, head + "center_y_basis_points"@, window.cy as int)
            &&& stores(matte, head + "half_width_basis_points"@, window.hw as int)
            &&& stores(matte, head + "half_height_basis_points"@, window.hh as int)
            &&& stores(matte, head + "rotation_centidegrees"@, window.rotation as int)
            &&& stores(matte, head + "feather_basis_points"@, window.feather as int)
            &&& stores(matte, head + "invert"@, window.invert as int)
        }),
{
    lemma_matte_parameters_read_back(matte);
    lemma_matte_parameter_count(matte);
    lemma_windows_parameters_at(matte.windows);
    let list = matte_parameters(matte);
    let window = matte.windows[index as int];
    let own = window_parameters(window, index);
    assert forall|k: int| 0 <= k < 8 implies stores(matte, (#[trigger] own[k]).0, own[k].1 as int) by {
        let i = index as int;
        assert(windows_parameters(matte.windows)[8 * i + k] == window_parameters(
            matte.windows[i],
            i as nat,
        )[k]);
        assert(list[5 + 8 * i + k] == windows_parameters(matte.windows)[8 * i + k]);
        assert(list[5 + 8 * i + k] == own[k]);
    }
    assert(stores(matte, own[0].0, own[0].1 as int));
    assert(stores(matte, own[1].0, own[1].1 as int));
    assert(stores(matte, own[2].0, own[2].1 as int));
    assert(stores(matte, own[3].0, own[3].1 as int));
    assert(stores(matte, own[4].0, own[4].1 as int));
    assert(stores(matte, own[5].0, own[5].1 as int));
    assert(stores(matte, own[6].0, own[6].1 as int));
    assert(stores(matte, own[7].0, own[7].1 as int));
}

/// Each number of a qualifier is read back under its own name, beside the switch
/// that turns the qualifier on.
pub proof fn lemma_qualifier_reads_back(matte: MatteModel, qualifier: QualifierSpec)
    requires
        matte.windows.len() <= 4,
        matte.qualifier == Some(qualifier),
    ensures
        stores(matte, "matte_qualifier_enabled"@, 1),
        stores(matte, "matte_hue_center_centidegrees"@, qualifier.hue_center as int),
        stores(matte, "matte_hue_width_centidegrees"@, qualifier.hue_width as int),
        stores(matte, "matte_hue_softness_centidegrees"@, qualifier.hue_softness as int),
        stores(matte, "matte_saturation_low_basis_points"@, qualifier.sat_low as int),
        stores(matte, "matte_saturation_high_basis_points"@, qualifier.sat_high as int),
        stores(matte, "matte_saturation_softness_basis_points"@, qualifier.sat_softness as int),
        stores(matte, "matte_luma_low_basis_points"@, qualifier.luma_low as int),
        stores(matte, "matte_luma_high_basis_points"@, qualifier.luma_high as int),
        stores(matte, "matte_luma_softness_basis_points"@, qualifier.luma_softness as int),
{
    lemma_matte_parameters_read_back(matte);
    lemma_matte_parameter_count(matte);
    lemma_windows_parameters_at(matte.windows);
    let list = matte_parameters(matte);
    let own = qualifier_parameters(qualifier);
    let before = 5 + 8 * matte.windows.len();
    assert forall|k: int| 0 <= k < 10 implies stores(matte, (#[trigger] own[k]).0, own[k].1 as int) by {
        assert(list[before + k] == own[k]);
    }
    assert(stores(matte, own[0].0, own[0].1 as int));
    assert(stores(matte, own[1].0, own[1].1 as int));
    assert(stores(matte, own[2].0, own[2].1 as int));
    assert(stores(matte, own[3].0, own[3].1 as int));
    assert(stores(matte, own[4].0, own[4].1 as int));
    assert(stores(matte, own[5].0, own[5].1 as int));
    assert(stores(matte, own[6].0, own[6].1 as int));
    assert(stores(matte, own[7].0, own[7].1 as int));
    assert(stores(matte, own[8].0, own[8].1 as int));
    assert(stores(matte, own[9].0, own[9].1 as int));
}

/// Every matte is switched on, and what belongs to none of its windows is read
/// back under its own name.
pub proof fn lemma_level_reads_back(matte: MatteModel)
    requires
        matte.windows.len() <= 4,
    ensures
        stores(matte, "matte_enabled"@, 1),
        stores(matte, "matte_window_count"@, matte.windows.len() as int),
        stores(matte, "matte_combine_token"@, matte.combine as int),
        stores(matte, "matte_invert"@, matte.invert as int),
        stores(matte, "matte_mix_basis_points"@, matte.mix as int),
{
    lemma_matte_parameters_read_back(matte);
    lemma_matte_parameter_count(matte);
    let list = matte_parameters(matte);
    let own = level_parameters(matte);
    assert(list[0] == own[0] && list[1] == own[1] && list[2] == own[2] && list[3] == own[3]
        && list[4] == own[4]);
}

/// A matte that is hard-edged stops being so with less than the full mix, with
/// any feather on any window and with any softness, and it stays so whatever
/// else changes.
pub proof fn lemma_hard_edge_in_numbers(matte: MatteModel, index: int)
    requires
        0 <= index < matte.windows.len(),
    ensures
        hard_edged(matte) ==> matte.mix == 10_000 && matte.windows[index].feather == 0,
        (matte.qualifier matches Some(qualifier) && (qualifier.hue_softness != 0
            || qualifier.sat_softness != 0 || qualifier.luma_softness != 0)) ==> !hard_edged(matte),
        (matte.mix == 10_000 && (forall|i: int|
            0 <= i < matte.windows.len() ==> (#[trigger] matte.windows[i]).feather == 0) && (
        matte.qualifier matches Some(qualifier) ==> qualifier.hue_softness == 0
            && qualifier.sat_softness == 0 && qualifier.luma_softness == 0)) ==> hard_edged(matte),
{
}

/// The centred window spans the middle half of the frame on each axis, and a
/// neutral qualifier lets every hue, saturation and luma through.
pub proof fn lemma_base_shapes_in_numbers()
    ensures
        ({
            let window = centred_window();
            &&& window.shape == 1
            &&& window.cx - window.hw == 2_500 && window.cx + window.hw == 7_500
            &&& window.cy - window.hh == 2_500 && window.cy + window.hh == 7_500
            &&& window.rotation == 0 && window.feather == 0 && window.invert == 0
        }),
        ({
            let qualifier = neutral_qualifier();
            &&& 2 * qualifier.hue_width == 36_000 && qualifier.hue_center == 0
            &&& qualifier.sat_low == 0 && qualifier.sat_high == 10_000
            &&& qualifier.luma_low == 0 && qualifier.luma_high == 10_000
            &&& qualifier.hue_softness == 0 && qualifier.sat_softness == 0
                && qualifier.luma_softness == 0
        }),
        SHAPE_RECT == 1 && SHAPE_ELLIPSE == 2 && COMBINE_UNION == 0 && COMBINE_INTERSECTION == 1,
{
}

/// The model of a matte keeps every one of its parts.
pub proof fn lemma_model_keeps_every_part(matte: MatteSpec)
    ensures
        matte@.windows == matte.windows@,
        matte@.combine == matte.combine,
        matte@.invert == matte.invert,
        matte@.mix == matte.mix,
        matte@.qualifier == matte.qualifier,
{
}

} // verus!
